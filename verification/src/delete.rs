//! Deleting a batch of paths: in the order given, stopping at the first
//! failure. What was deleted before a failure stays deleted; what follows it
//! is not touched. There is no rollback.

use vstd::prelude::*;
use crate::path::{path_views, PathDescriptor};
use crate::store::StoreError;

verus! {

/// The progress of one batch, as contracts see it: of `paths`, the first
/// `done` were deleted, and `failure` holds the error that ended the batch,
/// if one did.
pub struct Progress {
    pub paths: Seq<Seq<char>>,
    pub done: nat,
    pub failure: Option<StoreError>,
}

/// One batch of paths to delete. No more paths count as deleted than the
/// batch holds.
#[derive(Debug, PartialEq, Eq)]
pub struct BatchDelete {
    paths: Vec<String>,
    done: usize,
    failure: Option<StoreError>,
}

impl Progress {
    /// A batch has ended when a deletion failed or every path was deleted.
    pub open spec fn finished(self) -> bool {
        self.failure is Some || self.done >= self.paths.len()
    }

    /// The progress after the backend reported `outcome` for the path in
    /// turn.
    pub open spec fn after_outcome(self, outcome: Result<(), StoreError>) -> Progress {
        if self.finished() {
            self
        } else {
            match outcome {
                Ok(_) => Progress { done: self.done + 1, ..self },
                Err(e) => Progress { failure: Some(e), ..self },
            }
        }
    }

    /// The progress after the outcomes were reported in order.
    pub open spec fn after_outcomes(self, outcomes: Seq<Result<(), StoreError>>) -> Progress
        decreases outcomes.len(),
    {
        if outcomes.len() == 0 {
            self
        } else {
            self.after_outcomes(outcomes.drop_last()).after_outcome(outcomes.last())
        }
    }
}


impl BatchDelete {
    #[verifier::type_invariant]
    spec fn within_batch(self) -> bool {
        self.done <= self.paths@.len()
    }

    /// The progress of the batch.
    pub closed spec fn view(&self) -> Progress {
        Progress { paths: path_views(self.paths@), done: self.done as nat, failure: self.failure }
    }

    /// A batch over `paths`, none of them deleted yet. A path that occurs
    /// twice is deleted twice.
    pub fn new(paths: Vec<String>) -> (batch: Self)
        ensures
            batch@ == (Progress { paths: path_views(paths@), done: 0, failure: None }),
    {
        BatchDelete { paths, done: 0, failure: None }
    }

    /// A batch over the targets of `descriptor`: its batch in the order
    /// given, or its path alone where it has no batch.
    pub fn over(descriptor: &PathDescriptor) -> (batch: Self)
        ensures
            batch@ == (Progress { paths: descriptor.targets_view(), done: 0, failure: None }),
    {
        let paths = descriptor.targets();
        assert(path_views(paths@) =~= descriptor.targets_view());
        BatchDelete { paths, done: 0, failure: None }
    }

    /// The path to delete next, or `None` once the batch has ended.
    pub fn next_target(&self) -> (target: Option<String>)
        ensures
            target is None <==> self@.finished(),
            target is Some ==> target->Some_0@ == self@.paths[self@.done as int],
            self@.done <= self@.paths.len(),
    {
        proof {
            use_type_invariant(self);
        }
        if self.failure.is_some() || self.done >= self.paths.len() {
            None
        } else {
            Some(self.paths[self.done].clone())
        }
    }

    /// Takes the backend's outcome for the path that `next_target` gave.
    /// Once the batch has ended, an outcome changes nothing.
    pub fn record(&mut self, outcome: Result<(), StoreError>)
        ensures
            final(self)@ == old(self)@.after_outcome(outcome),
    {
        proof {
            use_type_invariant(&*self);
        }
        if self.failure.is_some() || self.done >= self.paths.len() {
            return ;
        }
        match outcome {
            Ok(_) => {
                self.done = self.done + 1;
            },
            Err(e) => {
                self.failure = Some(e);
            },
        }
    }

    /// The number of paths deleted so far.
    pub fn deleted(&self) -> (n: usize)
        ensures
            n == self@.done,
            n <= self@.paths.len(),
    {
        proof {
            use_type_invariant(self);
        }
        self.done
    }

    /// What the batch reports: the error that ended it, if one did.
    pub fn result(&self) -> (r: Result<(), StoreError>)
        ensures
            r == (match self@.failure {
                Some(e) => Err::<(), StoreError>(e),
                None => Ok::<(), StoreError>(()),
            }),
    {
        match self.failure {
            Some(e) => Err(e),
            None => Ok(()),
        }
    }
}

/// As long as every deletion succeeds, each outcome advances the batch by
/// one path.
pub proof fn lemma_all_deleted(batch: Progress, outcomes: Seq<Result<(), StoreError>>)
    requires
        batch.failure is None,
        batch.done + outcomes.len() <= batch.paths.len(),
        forall|i: int| 0 <= i < outcomes.len() ==> (#[trigger] outcomes[i]) is Ok,
    ensures
        batch.after_outcomes(outcomes) == (Progress {
            done: batch.done + outcomes.len(),
            ..batch
        }),
    decreases outcomes.len(),
{
    if outcomes.len() > 0 {
        let init = outcomes.drop_last();
        assert forall|i: int| 0 <= i < init.len() implies (#[trigger] init[i]) is Ok by {
            assert(init[i] == outcomes[i]);
        }
        lemma_all_deleted(batch, init);
    }
}

/// A batch fails fast. Where the first `k` deletions succeed and the next
/// one fails with `e`, the batch ends there: exactly the first `k` paths are
/// deleted, the batch reports `e`, and whatever outcomes follow change
/// nothing, so no later path is ever handed out.
pub proof fn lemma_fail_fast(
    batch: Progress,
    outcomes: Seq<Result<(), StoreError>>,
    k: int,
    e: StoreError,
)
    requires
        batch.failure is None,
        0 <= k < outcomes.len(),
        batch.done + k < batch.paths.len(),
        forall|i: int| 0 <= i < k ==> (#[trigger] outcomes[i]) is Ok,
        outcomes[k] == Err::<(), StoreError>(e),
    ensures
        batch.after_outcomes(outcomes) == (Progress {
            done: (batch.done + k) as nat,
            failure: Some(e),
            ..batch
        }),
        batch.after_outcomes(outcomes).finished(),
    decreases outcomes.len(),
{
    let init = outcomes.drop_last();
    if outcomes.len() == k + 1 {
        assert forall|i: int| 0 <= i < init.len() implies (#[trigger] init[i]) is Ok by {
            assert(init[i] == outcomes[i]);
        }
        lemma_all_deleted(batch, init);
    } else {
        assert forall|i: int| 0 <= i < k implies (#[trigger] init[i]) is Ok by {
            assert(init[i] == outcomes[i]);
        }
        assert(init[k] == outcomes[k]);
        lemma_fail_fast(batch, init, k, e);
    }
}

} // verus!
