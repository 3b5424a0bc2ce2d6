//! Walking a directory tree depth first, from listings alone.
//!
//! The walker decides which entry comes next and whether to descend into
//! it; the caller shows each entry to its visitor and lists the directories
//! that the walker enters. A directory is entered once: the walker keeps the
//! normal form of every path it has entered and refuses to enter it again.

use vstd::prelude::*;
use vstd::set_lib::lemma_len_subset;
use vstd::string::*;
use crate::path::{normalize, normalized, path_views};
use crate::store::FileStoreResult;

verus! {

/// What the caller does next.
#[derive(Debug, PartialEq, Eq)]
pub enum WalkStep {
    /// Show the entry to the visitor, then list it and supply the listing.
    Enter(FileStoreResult),
    /// Show the entry to the visitor.
    Visit(FileStoreResult),
    /// Nothing is left.
    Done,
}

/// The state of one traversal: the entries still to come, the next one
/// last, and the directories entered so far, each by its normal form. No
/// directory is among the entered ones twice.
#[derive(Debug, PartialEq, Eq)]
pub struct DirectoryWalker {
    pending: Vec<FileStoreResult>,
    visited: Vec<String>,
}

/// Whether `key` is among `keys`.
pub open spec fn holds_key(keys: Seq<String>, key: Seq<char>) -> bool {
    exists|i: int| 0 <= i < keys.len() && (#[trigger] keys[i])@ == key
}

/// Whether no key occurs twice in `keys`.
pub open spec fn distinct_keys(keys: Seq<String>) -> bool {
    forall|i: int, j: int|
        0 <= i < j < keys.len() ==> (#[trigger] keys[i])@ != (#[trigger] keys[j])@
}

/// A traversal enters no more directories than there are. Where every
/// directory that can be met has its normal form in the finite set
/// `directories`, keys of which none occurs twice are at most as many as
/// that set has members: a tree that lists itself again and again, through
/// a link to one of its own directories, is still left after finitely many
/// steps.
pub proof fn lemma_entered_is_bounded(keys: Seq<String>, directories: Set<Seq<char>>)
    requires
        distinct_keys(keys),
        directories.finite(),
        forall|i: int| 0 <= i < keys.len() ==> directories.contains((#[trigger] keys[i])@),
    ensures
        keys.len() <= directories.len(),
{
    let views = path_views(keys);
    assert forall|i: int, j: int|
        0 <= i < views.len() && 0 <= j < views.len() && i != j implies views[i] != views[j] by {
        if i < j {
            assert(keys[i]@ != keys[j]@);
        } else {
            assert(keys[j]@ != keys[i]@);
        }
    }
    views.unique_seq_to_set();
    assert forall|v: Seq<char>| views.to_set().contains(v) implies directories.contains(v) by {
        let i = choose|i: int| 0 <= i < views.len() && views[i] == v;
        assert(keys[i]@ == v);
    }
    lemma_len_subset(views.to_set(), directories);
}

impl DirectoryWalker {
    #[verifier::type_invariant]
    spec fn entered_once(self) -> bool {
        distinct_keys(self.visited@)
    }

    /// The entries still to come, the next one last.
    pub closed spec fn queue(self) -> Seq<FileStoreResult> {
        self.pending@
    }

    /// The directories entered so far, in the order in which they were
    /// entered.
    pub closed spec fn entered(self) -> Seq<String> {
        self.visited@
    }

    /// Whether the walker would descend into `entry`.
    pub open spec fn would_enter(self, entry: FileStoreResult) -> bool {
        entry.is_dir && !holds_key(self.entered(), normalized(entry.path@))
    }

    /// The directories entered so far. None occurs twice.
    pub fn entered_directories(&self) -> (keys: &Vec<String>)
        ensures
            keys@ == self.entered(),
            distinct_keys(keys@),
    {
        proof {
            use_type_invariant(self);
        }
        &self.visited
    }

    /// The number of entries still to come.
    pub fn pending_count(&self) -> (n: usize)
        ensures
            n == self.queue().len(),
    {
        self.pending.len()
    }

    /// Starts a traversal below `root`. The root counts as entered: the
    /// caller lists it and supplies the listing.
    pub fn new(root: &str) -> (walker: Self)
        ensures
            walker.queue().len() == 0,
            walker.entered().len() == 1,
            walker.entered()[0]@ == normalized(root@),
    {
        let mut visited: Vec<String> = Vec::new();
        visited.push(normalize(root));
        DirectoryWalker { pending: Vec::new(), visited }
    }

    /// Whether the directory with the normal form `key` was entered.
    pub fn was_entered(&self, key: &String) -> (b: bool)
        ensures
            b == holds_key(self.entered(), key@),
    {
        let mut i: usize = 0;
        while i < self.visited.len()
            invariant
                i <= self.visited@.len(),
                forall|k: int| 0 <= k < i ==> (#[trigger] self.visited@[k])@ != key@,
            decreases self.visited@.len() - i,
        {
            if self.visited[i] == *key {
                return true;
            }
            i += 1;
        }
        false
    }

    /// Takes the listing of the directory just entered. Its entries come
    /// next, in the order listed, before anything that was pending.
    pub fn supply(&mut self, listing: Vec<FileStoreResult>)
        ensures
            final(self).entered() == old(self).entered(),
            final(self).queue().len() == old(self).queue().len() + listing@.len(),
            forall|i: int|
                0 <= i < old(self).queue().len()
                    ==> final(self).queue()[i] == old(self).queue()[i],
            forall|i: int|
                old(self).queue().len() <= i < final(self).queue().len()
                    ==> final(self).queue()[i]
                    == listing@[listing@.len() - 1 - (i - old(self).queue().len())],
    {
        proof {
            use_type_invariant(&*self);
        }
        let mut rest = listing;
        let mut pending: Vec<FileStoreResult> = Vec::new();
        std::mem::swap(&mut pending, &mut self.pending);
        let ghost n = listing@.len();
        let ghost base = pending@.len();
        while rest.len() > 0
            invariant
                rest@.len() <= n,
                n == listing@.len(),
                base == old(self).pending@.len(),
                rest@ == listing@.take(rest@.len() as int),
                pending@.len() == base + n - rest@.len(),
                forall|i: int| 0 <= i < base ==> pending@[i] == old(self).pending@[i],
                forall|i: int|
                    base <= i < pending@.len() ==> pending@[i] == listing@[n - 1 - (i - base)],
            decreases rest@.len(),
        {
            let ghost before = rest@;
            let entry = rest.pop();
            match entry {
                Some(e) => {
                    assert(e == listing@[before.len() - 1]);
                    assert(rest@ == listing@.take(rest@.len() as int));
                    pending.push(e);
                },
                None => {},
            }
        }
        std::mem::swap(&mut pending, &mut self.pending);
    }

    /// The next step of the traversal.
    ///
    /// The entry in turn leaves the pending ones. A directory that was not
    /// entered before is entered now, and recorded; every other entry, a
    /// directory met again among them, is only shown to the visitor.
    pub fn next(&mut self) -> (step: WalkStep)
        ensures
            distinct_keys(final(self).entered()),
            old(self).queue().len() == 0 ==> {
                &&& step == WalkStep::Done
                &&& final(self).queue() == old(self).queue()
                &&& final(self).entered() == old(self).entered()
            },
            old(self).queue().len() > 0 ==> {
                let entry = old(self).queue().last();
                &&& final(self).queue() == old(self).queue().drop_last()
                &&& old(self).would_enter(entry) ==> {
                    &&& step == WalkStep::Enter(entry)
                    &&& final(self).entered().len() == old(self).entered().len() + 1
                    &&& final(self).entered().drop_last() == old(self).entered()
                    &&& final(self).entered().last()@ == normalized(entry.path@)
                }
                &&& !old(self).would_enter(entry) ==> {
                    &&& step == WalkStep::Visit(entry)
                    &&& final(self).entered() == old(self).entered()
                }
            },
    {
        proof {
            use_type_invariant(&*self);
        }
        let mut pending: Vec<FileStoreResult> = Vec::new();
        std::mem::swap(&mut pending, &mut self.pending);
        let popped = pending.pop();
        std::mem::swap(&mut pending, &mut self.pending);
        match popped {
            None => WalkStep::Done,
            Some(entry) => {
                if !entry.is_dir {
                    return WalkStep::Visit(entry);
                }
                let key = normalize(entry.path.as_str());
                if self.was_entered(&key) {
                    WalkStep::Visit(entry)
                } else {
                    let mut visited: Vec<String> = Vec::new();
                    std::mem::swap(&mut visited, &mut self.visited);
                    visited.push(key);
                    proof {
                        assert(visited@.drop_last() =~= old(self).visited@);
                        assert forall|i: int, j: int|
                            0 <= i < j < visited@.len() implies (#[trigger] visited@[i])@ != (
                        #[trigger] visited@[j])@ by {
                            assert(visited@[i] == old(self).visited@[i]);
                            if j < old(self).visited@.len() {
                                assert(visited@[j] == old(self).visited@[j]);
                            }
                        }
                    }
                    std::mem::swap(&mut visited, &mut self.visited);
                    WalkStep::Enter(entry)
                }
            },
        }
    }

    /// Ends the traversal after the visitor failed: nothing pending is
    /// visited any more.
    pub fn stop(&mut self)
        ensures
            final(self).entered() == old(self).entered(),
            final(self).queue().len() == 0,
    {
        proof {
            use_type_invariant(&*self);
        }
        self.pending = Vec::new();
    }
}

} // verus!
