//! Paths as the backends name objects: sequences of characters in which `/`
//! parts the components.

use vstd::prelude::*;
use vstd::string::*;

verus! {

/// The paths as sequences of characters.
pub open spec fn path_views(paths: Seq<String>) -> Seq<Seq<char>> {
    Seq::new(paths.len(), |i: int| paths[i]@)
}

/// The index of the last `c` in `s`, or -1 where `s` holds none.
pub open spec fn last_index_of(s: Seq<char>, c: char) -> int
    decreases s.len(),
{
    if s.len() == 0 {
        -1
    } else if s.last() == c {
        s.len() - 1
    } else {
        last_index_of(s.drop_last(), c)
    }
}

/// The last component of a path: what follows its last `/`.
pub open spec fn file_name_of(path: Seq<char>) -> Seq<char> {
    path.subrange(last_index_of(path, '/') + 1, path.len() as int)
}

/// What precedes the last `/` of a path: the root for an entry directly
/// under it, nothing for a path of one component.
pub open spec fn parent_of(path: Seq<char>) -> Seq<char> {
    let k = last_index_of(path, '/');
    if k < 0 {
        Seq::<char>::empty()
    } else if k == 0 {
        path.subrange(0, 1)
    } else {
        path.subrange(0, k)
    }
}

/// The extension of a path: what follows the last `.` of its last component,
/// unless that `.` is the component's first character or it has none.
pub open spec fn extension_of(path: Seq<char>) -> Seq<char> {
    let name = file_name_of(path);
    let d = last_index_of(name, '.');
    if d <= 0 {
        Seq::<char>::empty()
    } else {
        name.subrange(d + 1, name.len() as int)
    }
}

/// The key of a remote object: its path without the leading `/`. A path that
/// does not start at the root has the empty key.
pub open spec fn object_key_of(path: Seq<char>) -> Seq<char> {
    if path.len() > 0 && path[0] == '/' {
        path.subrange(1, path.len() as int)
    } else {
        Seq::<char>::empty()
    }
}

/// A path that ends in `/` names a directory.
pub open spec fn names_directory(path: Seq<char>) -> bool {
    path.len() > 0 && path.last() == '/'
}

/// A path with every run of `/` reduced to one.
pub open spec fn collapse_separators(s: Seq<char>) -> Seq<char>
    decreases s.len(),
{
    if s.len() == 0 {
        s
    } else {
        let init = collapse_separators(s.drop_last());
        if s.last() == '/' && s.len() >= 2 && s[s.len() - 2] == '/' {
            init
        } else {
            init.push(s.last())
        }
    }
}

/// The normal form of a path: runs of `/` reduced to one, and no `/` at the
/// end unless the path is the root.
pub open spec fn normalized(path: Seq<char>) -> Seq<char> {
    let c = collapse_separators(path);
    if c.len() > 1 && c.last() == '/' {
        c.drop_last()
    } else {
        c
    }
}

/// What `last_index_of` finds is the last occurrence.
pub proof fn lemma_last_index_of(s: Seq<char>, c: char)
    ensures
        -1 <= last_index_of(s, c) < s.len(),
        last_index_of(s, c) >= 0 ==> s[last_index_of(s, c)] == c,
        forall|j: int| last_index_of(s, c) < j < s.len() ==> s[j] != c,
    decreases s.len(),
{
    if s.len() > 0 && s.last() != c {
        let init = s.drop_last();
        lemma_last_index_of(init, c);
        assert forall|j: int| last_index_of(s, c) < j < s.len() implies s[j] != c by {
            if j < init.len() {
                assert(init[j] != c);
            }
        }
    }
}

/// Finds the last `c` in `s`.
pub fn find_last(s: &str, c: char) -> (r: Option<usize>)
    ensures
        r is Some <==> last_index_of(s@, c) >= 0,
        r is Some ==> r->Some_0 == last_index_of(s@, c),
{
    let n = s.unicode_len();
    let mut i: usize = n;
    assert(s@.take(n as int) == s@);
    while i > 0
        invariant
            i <= n,
            n == s@.len(),
            last_index_of(s@, c) == last_index_of(s@.take(i as int), c),
        decreases i,
    {
        if s.get_char(i - 1) == c {
            return Some(i - 1);
        }
        assert(s@.take(i as int).drop_last() == s@.take(i - 1));
        i -= 1;
    }
    None
}

/// The last component of `path`.
pub fn file_name(path: &str) -> (name: String)
    ensures
        name@ == file_name_of(path@),
{
    proof {
        lemma_last_index_of(path@, '/');
    }
    let n = path.unicode_len();
    let from: usize = match find_last(path, '/') {
        Some(k) => k + 1,
        None => 0,
    };
    path.substring_char(from, n).to_owned()
}

/// The path of the directory that holds `path`.
pub fn parent(path: &str) -> (dir: String)
    ensures
        dir@ == parent_of(path@),
{
    proof {
        lemma_last_index_of(path@, '/');
    }
    match find_last(path, '/') {
        Some(k) => {
            if k == 0 {
                path.substring_char(0, 1).to_owned()
            } else {
                path.substring_char(0, k).to_owned()
            }
        },
        None => String::new(),
    }
}

/// The extension of `path`, empty where it has none.
pub fn extension(path: &str) -> (ext: String)
    ensures
        ext@ == extension_of(path@),
{
    let name = file_name(path);
    proof {
        lemma_last_index_of(name@, '.');
    }
    let n = name.as_str().unicode_len();
    match find_last(name.as_str(), '.') {
        Some(d) => {
            if d == 0 {
                String::new()
            } else {
                name.as_str().substring_char(d + 1, n).to_owned()
            }
        },
        None => String::new(),
    }
}

/// The key under which a remote backend holds `path`.
pub fn object_key(path: &str) -> (key: String)
    ensures
        key@ == object_key_of(path@),
{
    let n = path.unicode_len();
    if n > 0 && path.get_char(0) == '/' {
        path.substring_char(1, n).to_owned()
    } else {
        String::new()
    }
}

/// Whether `path` ends in `/`.
pub fn is_directory_name(path: &str) -> (b: bool)
    ensures
        b == names_directory(path@),
{
    let n = path.unicode_len();
    n > 0 && path.get_char(n - 1) == '/'
}

/// Brings `path` into its normal form.
pub fn normalize(path: &str) -> (out: String)
    ensures
        out@ == normalized(path@),
{
    let n = path.unicode_len();
    let mut out = String::new();
    let mut kept: usize = 0;
    let mut after_separator = false;
    let mut i: usize = 0;
    assert(path@.take(0) == Seq::<char>::empty());
    while i < n
        invariant
            i <= n,
            n == path@.len(),
            out@ == collapse_separators(path@.take(i as int)),
            kept == out@.len(),
            kept <= i,
            after_separator == (i > 0 && path@[i - 1] == '/'),
            after_separator ==> kept > 0 && out@.last() == '/',
        decreases n - i,
    {
        let c = path.get_char(i);
        assert(path@.take(i + 1).drop_last() == path@.take(i as int));
        if !(c == '/' && after_separator) {
            let piece = path.substring_char(i, i + 1);
            assert(piece@ == seq![c]);
            out.append(piece);
            assert(out@ == collapse_separators(path@.take(i as int)).push(c));
            kept += 1;
        }
        after_separator = c == '/';
        i += 1;
    }
    assert(path@.take(n as int) == path@);
    if kept > 1 && after_separator {
        out.as_str().substring_char(0, kept - 1).to_owned()
    } else {
        out
    }
}

/// Whether no two `/` stand side by side in `s`.
pub open spec fn no_repeated_separator(s: Seq<char>) -> bool {
    forall|i: int| 0 <= i < s.len() - 1 ==> !(#[trigger] s[i] == '/' && s[i + 1] == '/')
}

/// Collapsing leaves no run of `/`, and keeps the last character.
pub proof fn lemma_collapse_shape(s: Seq<char>)
    ensures
        no_repeated_separator(collapse_separators(s)),
        collapse_separators(s).len() <= s.len(),
        s.len() > 0 ==> collapse_separators(s).len() > 0 && collapse_separators(s).last()
            == s.last(),
    decreases s.len(),
{
    if s.len() > 0 {
        let front = s.drop_last();
        let init = collapse_separators(front);
        lemma_collapse_shape(front);
        let c = collapse_separators(s);
        if !(s.last() == '/' && s.len() >= 2 && s[s.len() - 2] == '/') {
            assert(c == init.push(s.last()));
            assert forall|i: int| 0 <= i < c.len() - 1 implies !(#[trigger] c[i] == '/' && c[i + 1]
                == '/') by {
                if i + 1 < init.len() {
                    assert(c[i] == init[i]);
                    assert(c[i + 1] == init[i + 1]);
                } else if c[i] == '/' && c[i + 1] == '/' {
                    assert(init.len() > 0);
                    assert(c[i] == init.last());
                    assert(front.len() > 0);
                    assert(front.last() == s[s.len() - 2]);
                    assert(false);
                }
            }
        } else {
            assert(front.last() == s[s.len() - 2]);
        }
    }
}

/// Collapsing changes nothing where no two `/` stand side by side.
pub proof fn lemma_collapse_fixed(s: Seq<char>)
    requires
        no_repeated_separator(s),
    ensures
        collapse_separators(s) == s,
    decreases s.len(),
{
    if s.len() > 0 {
        let front = s.drop_last();
        assert forall|i: int| 0 <= i < front.len() - 1 implies !(#[trigger] front[i] == '/'
            && front[i + 1] == '/') by {
            assert(front[i] == s[i]);
            assert(front[i + 1] == s[i + 1]);
        }
        lemma_collapse_fixed(front);
        if s.len() >= 2 {
            assert(!(s[s.len() - 2] == '/' && s[s.len() - 2 + 1] == '/'));
        }
        assert(front.push(s.last()) =~= s);
    }
}

/// A normal form is its own normal form.
pub proof fn lemma_normalized_is_normal(path: Seq<char>)
    ensures
        normalized(normalized(path)) == normalized(path),
{
    let c = collapse_separators(path);
    let n = normalized(path);
    lemma_collapse_shape(path);
    if c.len() > 1 && c.last() == '/' {
        assert(n == c.drop_last());
        assert forall|i: int| 0 <= i < n.len() - 1 implies !(#[trigger] n[i] == '/' && n[i + 1]
            == '/') by {
            assert(n[i] == c[i]);
            assert(n[i + 1] == c[i + 1]);
        }
        lemma_collapse_fixed(n);
        assert(n.last() == c[c.len() - 2]);
        assert(!(c[c.len() - 2] == '/' && c[c.len() - 2 + 1] == '/'));
    } else {
        lemma_collapse_fixed(c);
    }
}

/// The target of an operation: a path in normal form and, for an operation
/// on several targets, the batch of paths in the order in which they are to
/// be processed.
#[derive(Debug, PartialEq, Eq)]
pub struct PathDescriptor {
    path: String,
    batch: Option<Vec<String>>,
}

impl PathDescriptor {
    #[verifier::type_invariant]
    spec fn path_is_normal(self) -> bool {
        normalized(self.path@) == self.path@
    }

    /// The path.
    pub closed spec fn path_view(self) -> Seq<char> {
        self.path@
    }

    /// The batch, if there is one.
    pub closed spec fn batch_view(self) -> Option<Seq<String>> {
        match self.batch {
            Some(b) => Some(b@),
            None => None,
        }
    }

    /// The descriptor of the single target `path`.
    pub fn new(path: &str) -> (d: Self)
        ensures
            d.path_view() == normalized(path@),
            d.batch_view() is None,
    {
        proof {
            lemma_normalized_is_normal(path@);
        }
        PathDescriptor { path: normalize(path), batch: None }
    }

    /// The descriptor of a batch below `path`. The batch is kept as given:
    /// in its order, and with a path that occurs twice held twice.
    pub fn with_batch(path: &str, batch: Vec<String>) -> (d: Self)
        ensures
            d.path_view() == normalized(path@),
            d.batch_view() == Some(batch@),
    {
        proof {
            lemma_normalized_is_normal(path@);
        }
        PathDescriptor { path: normalize(path), batch: Some(batch) }
    }

    /// The path, in normal form.
    pub fn path(&self) -> (p: &String)
        ensures
            p@ == self.path_view(),
            normalized(p@) == p@,
    {
        proof {
            use_type_invariant(self);
        }
        &self.path
    }

    /// The targets of an operation on this descriptor: the paths of the
    /// batch, in its order and as often as it holds them, or the path alone
    /// where there is no batch.
    pub open spec fn targets_view(self) -> Seq<Seq<char>> {
        match self.batch_view() {
            Some(b) => path_views(b),
            None => seq![self.path_view()],
        }
    }

    /// The targets of an operation on this descriptor, in the order in
    /// which they are to be processed.
    pub fn targets(&self) -> (out: Vec<String>)
        ensures
            out@.len() == self.targets_view().len(),
            forall|i: int| 0 <= i < out@.len() ==> (#[trigger] out@[i])@ == self.targets_view()[i],
    {
        let mut out: Vec<String> = Vec::new();
        match &self.batch {
            None => {
                out.push(self.path.clone());
            },
            Some(batch) => {
                let mut i: usize = 0;
                while i < batch.len()
                    invariant
                        i <= batch@.len(),
                        out@.len() == i,
                        forall|k: int| 0 <= k < i ==> (#[trigger] out@[k])@ == batch@[k]@,
                    decreases batch@.len() - i,
                {
                    out.push(batch[i].clone());
                    i += 1;
                }
            },
        }
        out
    }

    /// The batch, if there is one.
    pub fn batch(&self) -> (b: &Option<Vec<String>>)
        ensures
            b is Some <==> self.batch_view() is Some,
            b is Some ==> b->Some_0@ == self.batch_view()->Some_0,
    {
        &self.batch
    }
}

} // verus!
