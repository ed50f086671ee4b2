//! Per-item outcomes of a batch and their tally.
use vstd::prelude::*;
use crate::convert::{convert_step, mode_spec, transcode_args_spec, Candidate, ConvertStep};
use crate::links::strings_view;

verus! {

/// How one item of a batch ended.
#[derive(Debug, Clone, Copy, PartialEq, Eq, Structural)]
pub enum ItemOutcome {
    /// The tool ran and reported success.
    Succeeded,
    /// The tool ran and reported failure.
    Failed,
    /// The output already existed: nothing was run.
    Skipped,
    /// The configuration was refused for this item: nothing was run.
    Rejected,
}

/// The outcome of an item whose tool ran and exited, successfully or not.
pub fn outcome_of_exit(success: bool) -> (r: ItemOutcome)
    ensures
        r == (if success {
            ItemOutcome::Succeeded
        } else {
            ItemOutcome::Failed
        }),
{
    if success {
        ItemOutcome::Succeeded
    } else {
        ItemOutcome::Failed
    }
}

/// The outcome of a conversion step that runs nothing: a skip is counted as
/// skipped and a refused mode as rejected, neither as a failure. `None` for a step
/// that runs the transcoder, whose exit decides.
pub fn settled_outcome(step: &ConvertStep) -> (r: Option<ItemOutcome>)
    ensures
        step is Skip ==> r == Some(ItemOutcome::Skipped),
        step is Reject ==> r == Some(ItemOutcome::Rejected),
        step is Run ==> r is None,
{
    match step {
        ConvertStep::Skip => Some(ItemOutcome::Skipped),
        ConvertStep::Reject => Some(ItemOutcome::Rejected),
        ConvertStep::Run(_) => None,
    }
}

/// How many of `s` are `o`.
pub open spec fn count_of(s: Seq<ItemOutcome>, o: ItemOutcome) -> nat
    decreases s.len(),
{
    if s.len() == 0 {
        0
    } else {
        count_of(s.drop_last(), o) + if s.last() == o {
            1nat
        } else {
            0nat
        }
    }
}

/// The tally of a batch over a known number of eligible items.
#[derive(Debug, Clone, Copy, PartialEq, Eq, Structural)]
pub struct BatchSummary {
    /// The items found eligible before the batch began.
    pub eligible: usize,
    /// The items dealt with so far.
    pub processed: usize,
    pub succeeded: usize,
    pub failed: usize,
    pub skipped: usize,
    pub rejected: usize,
}

impl BatchSummary {
    /// Every item dealt with is counted under exactly one outcome, and no more
    /// items are dealt with than were eligible.
    pub open spec fn wf(&self) -> bool {
        &&& self.processed == self.succeeded + self.failed + self.skipped + self.rejected
        &&& self.processed <= self.eligible
    }

    /// The count kept for one outcome.
    pub open spec fn count(&self, o: ItemOutcome) -> nat {
        match o {
            ItemOutcome::Succeeded => self.succeeded as nat,
            ItemOutcome::Failed => self.failed as nat,
            ItemOutcome::Skipped => self.skipped as nat,
            ItemOutcome::Rejected => self.rejected as nat,
        }
    }

    /// An empty tally for a batch of `eligible` items.
    pub fn new(eligible: usize) -> (r: BatchSummary)
        ensures
            r.wf(),
            r.eligible == eligible,
            r.processed == 0,
            forall|o: ItemOutcome| r.count(o) == 0,
    {
        BatchSummary { eligible, processed: 0, succeeded: 0, failed: 0, skipped: 0, rejected: 0 }
    }

    /// Counts the outcome of one more item. Once every eligible item has been
    /// counted, nothing more is, and `false` is returned.
    pub fn record(&mut self, o: ItemOutcome) -> (r: bool)
        requires
            old(self).wf(),
        ensures
            final(self).wf(),
            r == (old(self).processed < old(self).eligible),
            final(self).eligible == old(self).eligible,
            r ==> final(self).processed == old(self).processed + 1,
            r ==> forall|p: ItemOutcome|
                #[trigger] final(self).count(p) == old(self).count(p) + if p == o {
                    1nat
                } else {
                    0nat
                },
            !r ==> *final(self) == *old(self),
    {
        if self.processed == self.eligible {
            return false;
        }
        self.processed = self.processed + 1;
        match o {
            ItemOutcome::Succeeded => self.succeeded = self.succeeded + 1,
            ItemOutcome::Failed => self.failed = self.failed + 1,
            ItemOutcome::Skipped => self.skipped = self.skipped + 1,
            ItemOutcome::Rejected => self.rejected = self.rejected + 1,
        }
        true
    }
}

/// The tally of a batch of `eligible` items whose outcomes, in order, are
/// `outcomes`: outcomes past the eligible count are not counted.
pub fn summarize(eligible: usize, outcomes: &Vec<ItemOutcome>) -> (r: BatchSummary)
    ensures
        r.wf(),
        r.eligible == eligible,
        r.processed == if outcomes@.len() < eligible {
            outcomes@.len()
        } else {
            eligible as nat
        },
        forall|o: ItemOutcome| #[trigger] r.count(o) == count_of(outcomes@.subrange(0, r.processed as int), o),
{
    let mut r = BatchSummary::new(eligible);
    let n = outcomes.len();
    let mut i: usize = 0;
    while i < n && i < eligible
        invariant
            n == outcomes@.len(),
            i <= n,
            i <= eligible,
            r.wf(),
            r.eligible == eligible,
            r.processed == i,
            forall|o: ItemOutcome| #[trigger] r.count(o) == count_of(outcomes@.subrange(0, i as int), o),
        decreases n - i,
    {
        let o = outcomes[i];
        r.record(o);
        proof {
            assert(outcomes@.subrange(0, i + 1).drop_last() =~= outcomes@.subrange(0, i as int));
        }
        i = i + 1;
    }
    r
}

/// What the converter does with each candidate of a batch, in order, given the
/// mode selector and which outputs already exist: every candidate gets a step,
/// whatever the steps before it were.
pub fn conversion_plan(
    candidates: &Vec<Candidate>,
    selector: &str,
    output_exists: &Vec<bool>,
) -> (r: Vec<ConvertStep>)
    requires
        output_exists@.len() == candidates@.len(),
    ensures
        r@.len() == candidates@.len(),
        forall|i: int|
            0 <= i < r@.len() && output_exists@[i] ==> #[trigger] r@[i] is Skip,
        forall|i: int|
            0 <= i < r@.len() && !output_exists@[i] && mode_spec(selector@) is None
                ==> #[trigger] r@[i] is Reject,
        forall|i: int|
            0 <= i < r@.len() && !output_exists@[i] && mode_spec(selector@) is Some ==> (
            #[trigger] r@[i] matches ConvertStep::Run(args) && strings_view(args@)
                == transcode_args_spec(
                candidates@[i].input_path@,
                candidates@[i].output_path@,
                mode_spec(selector@)->0,
            )),
{
    let mut r: Vec<ConvertStep> = Vec::new();
    let n = candidates.len();
    let mut i: usize = 0;
    while i < n
        invariant
            n == candidates@.len(),
            n == output_exists@.len(),
            i <= n,
            r@.len() == i,
            forall|k: int| 0 <= k < i && output_exists@[k] ==> #[trigger] r@[k] is Skip,
            forall|k: int|
                0 <= k < i && !output_exists@[k] && mode_spec(selector@) is None
                    ==> #[trigger] r@[k] is Reject,
            forall|k: int|
                0 <= k < i && !output_exists@[k] && mode_spec(selector@) is Some ==> (
                #[trigger] r@[k] matches ConvertStep::Run(args) && strings_view(args@)
                    == transcode_args_spec(
                    candidates@[k].input_path@,
                    candidates@[k].output_path@,
                    mode_spec(selector@)->0,
                )),
        decreases n - i,
    {
        r.push(convert_step(&candidates[i], selector, output_exists[i]));
        i = i + 1;
    }
    r
}

} // verus!
