use filestore::filesystemstore::FileSystemStore;
use filestore::path::{
    extension, file_name, find_last, is_directory_name, normalize, object_key, parent,
    PathDescriptor,
};

#[test]
fn find_last_gives_the_last_occurrence() {
    assert_eq!(find_last("a/b/c", '/'), Some(3));
    assert_eq!(find_last("/", '/'), Some(0));
    assert_eq!(find_last("abc", '/'), None);
    assert_eq!(find_last("", '/'), None);
    assert_eq!(find_last("h\u{e9}llo.txt", '.'), Some(5));
}

#[test]
fn file_name_is_the_last_component() {
    assert_eq!(file_name("/tmp/x.txt"), "x.txt");
    assert_eq!(file_name("x.txt"), "x.txt");
    assert_eq!(file_name("a/b/"), "");
    assert_eq!(file_name(""), "");
    assert_eq!(file_name("/d\u{e9}p\u{f4}t/donn\u{e9}es.csv"), "donn\u{e9}es.csv");
}

#[test]
fn parent_is_what_precedes_the_last_component() {
    assert_eq!(parent("/tmp/x.txt"), "/tmp");
    assert_eq!(parent("/x"), "/");
    assert_eq!(parent("x"), "");
    assert_eq!(parent("a/b/c"), "a/b");
    assert_eq!(parent("a/b/"), "a/b");
    assert_eq!(FileSystemStore::staging_directory("/tmp/big.bin"), "/tmp");
}

#[test]
fn extension_follows_the_last_dot_of_the_name() {
    assert_eq!(extension("/tmp/x.txt"), "txt");
    assert_eq!(extension("archive.tar.gz"), "gz");
    assert_eq!(extension("/tmp/.profile"), "");
    assert_eq!(extension("/tmp/.a.b"), "b");
    assert_eq!(extension("/tmp.d/readme"), "");
    assert_eq!(extension("name."), "");
    assert_eq!(extension(""), "");
    assert_eq!(extension("a/b/"), "");
}

#[test]
fn object_key_drops_the_leading_separator() {
    assert_eq!(object_key("/a/b.txt"), "a/b.txt");
    assert_eq!(object_key("/"), "");
    assert_eq!(object_key("a/b.txt"), "");
    assert_eq!(object_key(""), "");
}

#[test]
fn directory_names_end_in_a_separator() {
    assert!(is_directory_name("a/b/"));
    assert!(is_directory_name("/"));
    assert!(!is_directory_name("a/b"));
    assert!(!is_directory_name(""));
}

#[test]
fn normalize_collapses_and_trims() {
    assert_eq!(normalize("/a//b///c/"), "/a/b/c");
    assert_eq!(normalize("/"), "/");
    assert_eq!(normalize("///"), "/");
    assert_eq!(normalize(""), "");
    assert_eq!(normalize("a/b"), "a/b");
    assert_eq!(normalize("a/"), "a");
    assert_eq!(normalize("/a/b/"), "/a/b");
}

#[test]
fn normalize_twice_is_normalize_once() {
    for p in ["/a//b///c/", "/", "///", "", "a/b", "a/", "//x//"] {
        let once = normalize(p);
        assert_eq!(normalize(&once), once);
    }
}

#[test]
fn resolve_joins_root_and_path() {
    let store = FileSystemStore::new("/srv/data/".to_string());
    assert_eq!(store.root, "/srv/data/");
    assert_eq!(store.resolve("/a/b.txt"), "/srv/data/a/b.txt");
    assert_eq!(store.resolve("a"), "/srv/data/a");
    assert_eq!(store.resolve(""), "/srv/data");
}

#[test]
fn descriptor_holds_the_normal_form() {
    let d = PathDescriptor::new("/a//b/");
    assert_eq!(d.path(), "/a/b");
    assert_eq!(d.batch(), &None);
    assert_eq!(d.targets(), vec!["/a/b".to_string()]);
}

#[test]
fn descriptor_keeps_the_batch_in_order() {
    let batch = vec!["/b".to_string(), "/a".to_string(), "/b".to_string()];
    let d = PathDescriptor::with_batch("/", batch.clone());
    assert_eq!(d.path(), "/");
    assert_eq!(d.targets(), batch);
    assert_eq!(d.batch(), &Some(batch));
    assert!(PathDescriptor::with_batch("/x/", Vec::new()).targets().is_empty());
}
