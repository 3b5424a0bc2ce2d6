use filestore::delete::BatchDelete;
use filestore::path::PathDescriptor;
use filestore::filesystemstore::{DeleteAction, DirectoryEntry, FileSystemStore, PutAction};
use filestore::s3store::{BucketOpt, RemoteFault, RemoteObject, S3Store};
use filestore::store::{FileStoreResult, StoreError};
use filestore::walker::{DirectoryWalker, WalkStep};

fn entry(path: &str, is_dir: bool) -> FileStoreResult {
    FileStoreResult {
        id: 0,
        name: path.rsplit('/').next().unwrap().to_string(),
        size: 0,
        path: path.to_string(),
        file_type: String::new(),
        is_dir,
        modified: 0,
        modified_by: None,
    }
}

#[test]
fn local_listing_numbers_and_names_entries() {
    let entries = vec![
        DirectoryEntry { path: "/tmp/a.txt".to_string(), size: 5, is_dir: false, modified: 1700000000 },
        DirectoryEntry { path: "/tmp/sub".to_string(), size: 0, is_dir: true, modified: -1 },
    ];
    let listing = FileSystemStore::get_dir(&entries);
    assert_eq!(
        listing,
        vec![
            FileStoreResult {
                id: 0,
                name: "a.txt".to_string(),
                size: 5,
                path: "/tmp/a.txt".to_string(),
                file_type: "txt".to_string(),
                is_dir: false,
                modified: 1700000000,
                modified_by: None,
            },
            FileStoreResult {
                id: 1,
                name: "sub".to_string(),
                size: 0,
                path: "/tmp/sub".to_string(),
                file_type: String::new(),
                is_dir: true,
                modified: -1,
                modified_by: None,
            },
        ]
    );
    assert_eq!(FileSystemStore::describe_entry(7, &entries[0]).id, 7);
    assert!(FileSystemStore::get_dir(&Vec::new()).is_empty());
}

#[test]
fn reading_a_directory_is_an_invalid_target() {
    assert_eq!(FileSystemStore::read_action(true), Err(StoreError::InvalidTarget));
    assert_eq!(FileSystemStore::read_action(false), Ok(()));
}

#[test]
fn empty_write_creates_a_directory() {
    assert_eq!(FileSystemStore::put_action(b""), PutAction::CreateDirectory);
    assert_eq!(FileSystemStore::put_action(b"hello"), PutAction::WriteFile);
    assert_eq!(FileSystemStore::put_action(&[0u8]), PutAction::WriteFile);
}

#[test]
fn directories_are_deleted_with_their_content() {
    assert_eq!(FileSystemStore::delete_action(true), DeleteAction::RemoveTree);
    assert_eq!(FileSystemStore::delete_action(false), DeleteAction::RemoveFile);
}

#[test]
fn batch_delete_stops_at_the_first_failure() {
    let mut batch =
        BatchDelete::new(vec!["/a".to_string(), "/missing".to_string(), "/b".to_string()]);
    let mut handed_out = Vec::new();
    while let Some(target) = batch.next_target() {
        let outcome = if target == "/missing" { Err(StoreError::NotFound) } else { Ok(()) };
        handed_out.push(target);
        batch.record(outcome);
    }
    assert_eq!(handed_out, vec!["/a".to_string(), "/missing".to_string()]);
    assert_eq!(batch.deleted(), 1);
    assert_eq!(batch.result(), Err(StoreError::NotFound));
    batch.record(Ok(()));
    assert_eq!(batch.deleted(), 1);
    assert_eq!(batch.next_target(), None);
    assert_eq!(batch.result(), Err(StoreError::NotFound));
}

#[test]
fn batch_delete_surfaces_permission_denied() {
    let mut batch = BatchDelete::new(vec!["/locked".to_string(), "/b".to_string()]);
    assert_eq!(batch.next_target(), Some("/locked".to_string()));
    batch.record(Err(StoreError::PermissionDenied));
    assert_eq!(batch.next_target(), None);
    assert_eq!(batch.deleted(), 0);
    assert_eq!(batch.result(), Err(StoreError::PermissionDenied));
}

#[test]
fn batch_delete_takes_a_repeated_path_twice() {
    let mut batch = BatchDelete::new(vec!["/a".to_string(), "/a".to_string()]);
    assert_eq!(batch.next_target(), Some("/a".to_string()));
    batch.record(Ok(()));
    assert_eq!(batch.next_target(), Some("/a".to_string()));
    batch.record(Ok(()));
    assert_eq!(batch.next_target(), None);
    assert_eq!(batch.deleted(), 2);
    assert_eq!(batch.result(), Ok(()));
    let empty = BatchDelete::new(Vec::new());
    assert_eq!(empty.next_target(), None);
    assert_eq!(empty.result(), Ok(()));
}

fn tree(path: &str) -> Vec<FileStoreResult> {
    match path {
        "/r" => vec![entry("/r/a", true), entry("/r/f", false), entry("/r/b", true)],
        "/r/a" => vec![entry("/r/a/x", false), entry("/r/a/loop", true)],
        "/r/b" => vec![entry("/r/b/y", false)],
        _ => Vec::new(),
    }
}

#[test]
fn walk_is_depth_first_in_listing_order() {
    let mut walker = DirectoryWalker::new("/r");
    walker.supply(tree("/r"));
    let mut seen = Vec::new();
    loop {
        match walker.next() {
            WalkStep::Enter(e) => {
                seen.push(e.path.clone());
                walker.supply(tree(&e.path));
            }
            WalkStep::Visit(e) => seen.push(e.path.clone()),
            WalkStep::Done => break,
        }
    }
    assert_eq!(seen, vec!["/r/a", "/r/a/x", "/r/a/loop", "/r/f", "/r/b", "/r/b/y"]);
    assert_eq!(walker.next(), WalkStep::Done);
}

#[test]
fn walk_does_not_enter_a_directory_twice() {
    // "/r/a/loop" is a link back to "/r/a": the backend reports it under the
    // path of the directory it points to.
    let looped = |path: &str| -> Vec<FileStoreResult> {
        match path {
            "/r" => vec![entry("/r/a", true)],
            "/r/a" | "/r/a/" => vec![entry("/r/a/x", false), entry("/r/a/", true), entry("/r//", true)],
            _ => Vec::new(),
        }
    };
    let mut walker = DirectoryWalker::new("/r/");
    walker.supply(looped("/r"));
    let mut entered = Vec::new();
    let mut visited = Vec::new();
    let mut steps = 0;
    loop {
        steps += 1;
        assert!(steps < 100);
        match walker.next() {
            WalkStep::Enter(e) => {
                entered.push(e.path.clone());
                visited.push(e.path.clone());
                walker.supply(looped(&e.path));
            }
            WalkStep::Visit(e) => visited.push(e.path.clone()),
            WalkStep::Done => break,
        }
    }
    assert_eq!(entered, vec!["/r/a"]);
    assert_eq!(visited, vec!["/r/a", "/r/a/x", "/r/a/", "/r//"]);
    assert!(walker.was_entered(&"/r".to_string()));
    assert!(walker.was_entered(&"/r/a".to_string()));
    assert!(!walker.was_entered(&"/r/a/x".to_string()));
    assert_eq!(walker.entered_directories(), &vec!["/r".to_string(), "/r/a".to_string()]);
}

#[test]
fn walk_stops_without_visiting_siblings() {
    let mut walker = DirectoryWalker::new("/r");
    walker.supply(tree("/r"));
    assert_eq!(walker.pending_count(), 3);
    match walker.next() {
        WalkStep::Enter(e) => assert_eq!(e.path, "/r/a"),
        other => panic!("unexpected step {:?}", other),
    }
    walker.stop();
    assert_eq!(walker.next(), WalkStep::Done);
    assert_eq!(walker.pending_count(), 0);
}

fn object(key: &str, size: i64, modified: &str) -> RemoteObject {
    RemoteObject {
        key: Some(key.to_string()),
        size: Some(size),
        last_modified: Some(modified.to_string()),
        owner: None,
    }
}

#[test]
fn remote_listing_describes_objects_and_markers() {
    let objects = vec![
        object("photos/2015/cat.jpeg", 1234, "2015-05-15T00:00:00Z"),
        RemoteObject {
            key: Some("photos/2015/".to_string()),
            size: Some(0),
            last_modified: Some("1970-01-01T00:00:10.000Z".to_string()),
            owner: Some("alice".to_string()),
        },
        RemoteObject { key: None, size: None, last_modified: None, owner: None },
    ];
    let listing = S3Store::get_dir("photos/", &objects).unwrap();
    assert_eq!(
        listing,
        vec![
            FileStoreResult {
                id: 0,
                name: "cat.jpeg".to_string(),
                size: 1234,
                path: "photos/2015".to_string(),
                file_type: "jpeg".to_string(),
                is_dir: false,
                modified: 1431648000,
                modified_by: None,
            },
            FileStoreResult {
                id: 1,
                name: String::new(),
                size: 0,
                path: "photos/2015/".to_string(),
                file_type: String::new(),
                is_dir: true,
                modified: 10,
                modified_by: Some("alice".to_string()),
            },
            FileStoreResult {
                id: 2,
                name: String::new(),
                size: 0,
                path: String::new(),
                file_type: String::new(),
                is_dir: false,
                modified: 0,
                modified_by: None,
            },
        ]
    );
}

#[test]
fn remote_listing_reads_the_time_zone() {
    let r = S3Store::describe_object(3, &object("a", 1, "1996-12-19T16:39:57-08:00")).unwrap();
    assert_eq!(r.modified, 851042397);
    assert_eq!(r.id, 3);
    assert_eq!(r.path, "");
    assert_eq!(r.name, "a");
}

#[test]
fn remote_listing_refuses_what_it_cannot_narrow() {
    assert_eq!(
        S3Store::describe_object(0, &object("a", -1, "2015-05-15T00:00:00Z")),
        Err(StoreError::IoFailure)
    );
    assert_eq!(
        S3Store::describe_object(0, &object("a", 1, "yesterday")),
        Err(StoreError::IoFailure)
    );
    let objects = vec![object("a", 1, "2015-05-15T00:00:00Z"), object("b", -5, "2015-05-15T00:00:00Z")];
    assert_eq!(S3Store::get_dir("", &objects), Err(StoreError::IoFailure));
    assert_eq!(S3Store::get_dir("a", &objects), Err(StoreError::IoFailure));
}

#[test]
fn paging_goes_on_while_truncated() {
    assert_eq!(S3Store::next_page(Some(true), Some("t1".to_string())), Some("t1".to_string()));
    assert_eq!(S3Store::next_page(Some(true), None), None);
    assert_eq!(S3Store::next_page(Some(false), Some("t1".to_string())), None);
    assert_eq!(S3Store::next_page(None, Some("t1".to_string())), None);
}

#[test]
fn missing_body_is_backend_unavailable() {
    assert_eq!(S3Store::get_object(Some(vec![1, 2, 3])), Ok(vec![1, 2, 3]));
    assert_eq!(S3Store::get_object(None), Err(StoreError::BackendUnavailable));
}

#[test]
fn remote_store_keeps_its_identity() {
    let opt = BucketOpt { region: Some("eu-west-1".to_string()), bucket: "media".to_string(), verbose: false };
    let store = S3Store::new(&opt.bucket, opt.region.clone().unwrap());
    assert_eq!(store.bucket_name, "media");
    assert_eq!(store.region, "eu-west-1");
    assert_eq!(S3Store::from_options(&opt, "us-east-1"), store);
    let bare = BucketOpt { region: None, bucket: "logs".to_string(), verbose: true };
    let fallback = S3Store::from_options(&bare, "us-east-1");
    assert_eq!(fallback.bucket_name, "logs");
    assert_eq!(fallback.region, "us-east-1");
}

#[test]
fn remote_faults_surface_as_store_errors() {
    assert_eq!(S3Store::error_for_fault(RemoteFault::Status(404)), StoreError::NotFound);
    assert_eq!(S3Store::error_for_fault(RemoteFault::Status(401)), StoreError::PermissionDenied);
    assert_eq!(S3Store::error_for_fault(RemoteFault::Status(403)), StoreError::PermissionDenied);
    assert_eq!(S3Store::error_for_fault(RemoteFault::Status(429)), StoreError::BackendUnavailable);
    assert_eq!(S3Store::error_for_fault(RemoteFault::Status(500)), StoreError::BackendUnavailable);
    assert_eq!(S3Store::error_for_fault(RemoteFault::Status(599)), StoreError::BackendUnavailable);
    assert_eq!(S3Store::error_for_fault(RemoteFault::Status(600)), StoreError::IoFailure);
    assert_eq!(S3Store::error_for_fault(RemoteFault::Status(499)), StoreError::IoFailure);
    assert_eq!(S3Store::error_for_fault(RemoteFault::Status(400)), StoreError::IoFailure);
    assert_eq!(S3Store::error_for_fault(RemoteFault::Dispatch), StoreError::BackendUnavailable);
    assert_eq!(S3Store::error_for_fault(RemoteFault::Credentials), StoreError::PermissionDenied);
    assert_eq!(S3Store::error_for_fault(RemoteFault::Other), StoreError::IoFailure);
}

#[test]
fn remote_listing_of_a_missing_prefix_is_not_found() {
    assert_eq!(S3Store::get_dir("missing/", &Vec::new()), Err(StoreError::NotFound));
    assert_eq!(S3Store::get_dir("/", &Vec::new()), Err(StoreError::NotFound));
    assert_eq!(S3Store::get_dir("", &Vec::new()), Ok(Vec::new()));
    let one = vec![object("missing/x", 1, "2015-05-15T00:00:00Z")];
    assert_eq!(S3Store::get_dir("missing/", &one).unwrap().len(), 1);
}

#[test]
fn batch_over_a_descriptor_takes_its_targets() {
    let d = PathDescriptor::with_batch("/", vec!["/b".to_string(), "/a".to_string()]);
    let mut batch = BatchDelete::over(&d);
    assert_eq!(batch.next_target(), Some("/b".to_string()));
    batch.record(Ok(()));
    assert_eq!(batch.next_target(), Some("/a".to_string()));
    batch.record(Ok(()));
    assert_eq!(batch.next_target(), None);
    assert_eq!(batch.result(), Ok(()));
    let mut single = BatchDelete::over(&PathDescriptor::new("/x//y/"));
    assert_eq!(single.next_target(), Some("/x/y".to_string()));
    single.record(Err(StoreError::NotFound));
    assert_eq!(single.deleted(), 0);
    assert_eq!(single.result(), Err(StoreError::NotFound));
}
