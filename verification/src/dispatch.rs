//! What to report once writes to the database have come back.
//!
//! A write either succeeds or fails with a reason. A failure is never passed
//! on to whoever asked for the write: it becomes one error record for the log,
//! and the other writes of the batch are not affected by it.

use crate::log::{failure_record, LogRecord, LogRecordView};
use vstd::multiset::Multiset;
use vstd::prelude::*;
use vstd::seq_lib::lemma_multiset_commutative;

verus! {

/// An outcome as contracts see it: the reason of a failure by its characters.
pub open spec fn outcome_view(outcome: Result<(), String>) -> Result<(), Seq<char>> {
    match outcome {
        Ok(_) => Ok(()),
        Err(reason) => Err(reason@),
    }
}

/// A batch of outcomes as contracts see it.
pub open spec fn outcomes_view(outcomes: Seq<Result<(), String>>) -> Seq<Result<(), Seq<char>>> {
    outcomes.map_values(|outcome: Result<(), String>| outcome_view(outcome))
}

/// Whether an outcome is a failed write.
pub open spec fn is_failure(outcome: Result<(), Seq<char>>) -> bool {
    outcome is Err
}

/// What is logged for one outcome: nothing for a success, one error record
/// with the reason for a failure.
pub open spec fn spec_dispatch(outcome: Result<(), Seq<char>>) -> Option<LogRecordView> {
    match outcome {
        Ok(_) => None,
        Err(reason) => Some(failure_record(reason)),
    }
}

/// The test that keeps the failed writes of a batch.
pub open spec fn failure_filter() -> spec_fn(Result<(), Seq<char>>) -> bool {
    |outcome: Result<(), Seq<char>>| is_failure(outcome)
}

/// The step from a failed write to its record.
pub open spec fn record_of() -> spec_fn(Result<(), Seq<char>>) -> LogRecordView {
    |outcome: Result<(), Seq<char>>| failure_record(outcome->Err_0)
}

/// The failed writes of a batch, in the order in which the batch lists them.
pub open spec fn failures(outcomes: Seq<Result<(), Seq<char>>>) -> Seq<Result<(), Seq<char>>> {
    outcomes.filter(failure_filter())
}

/// How many writes of a batch failed.
pub open spec fn failure_count(outcomes: Seq<Result<(), Seq<char>>>) -> nat {
    failures(outcomes).len()
}

/// What is logged for a batch: one record for each failed write, in the
/// order in which the batch lists them.
pub open spec fn spec_dispatch_many(outcomes: Seq<Result<(), Seq<char>>>) -> Seq<LogRecordView> {
    failures(outcomes).map_values(record_of())
}

/// Decides what to log for one write that has come back.
pub fn dispatch(outcome: &Result<(), String>) -> (record: Option<LogRecord>)
    ensures
        record.deep_view() == spec_dispatch(outcome_view(*outcome)),
{
    match outcome {
        Ok(_) => None,
        Err(reason) => Some(LogRecord::failure(reason.as_str())),
    }
}

/// Decides what to log for a batch of writes that have all come back.
/// `outcomes` lists them in the order in which they completed.
pub fn dispatch_many(outcomes: &[Result<(), String>]) -> (records: Vec<LogRecord>)
    ensures
        records.deep_view() == spec_dispatch_many(outcomes_view(outcomes@)),
        records.len() == failure_count(outcomes_view(outcomes@)),
{
    let mut records: Vec<LogRecord> = Vec::new();
    let ghost all = outcomes_view(outcomes@);
    let total: usize = outcomes.len();
    let mut done: usize = 0;
    while done < total
        invariant
            done <= total,
            total == outcomes.len(),
            all == outcomes_view(outcomes@),
            records.deep_view() == spec_dispatch_many(all.take(done as int)),
        decreases total - done,
    {
        let ghost earlier = records.deep_view();
        match dispatch(&outcomes[done]) {
            Some(record) => {
                records.push(record);
                assert(records.deep_view() == earlier.push(record.deep_view()));
            },
            None => {},
        }
        proof {
            let seen = all.take(done as int);
            assert(all.take(done + 1) == seen.push(all[done as int]));
            seen.lemma_filter_push(all[done as int], failure_filter());
            if is_failure(all[done as int]) {
                assert(failures(seen).push(all[done as int]).map_values(record_of())
                    == failures(seen).map_values(record_of()).push(record_of()(all[done as int])));
            }
        }
        done = done + 1;
    }
    proof {
        assert(all.take(total as int) == all);
    }
    records
}

/// One record is logged for each failed write and none for the others: a
/// batch of `k` writes of which `m` failed yields exactly `m` records.
pub proof fn lemma_dispatch_many_counts_failures(outcomes: Seq<Result<(), Seq<char>>>)
    ensures
        spec_dispatch_many(outcomes).len() == failure_count(outcomes),
        failure_count(outcomes) <= outcomes.len(),
{
    outcomes.lemma_filter_len(failure_filter());
}

/// The records of a batch that is two batches one after the other are the
/// records of the first followed by those of the second.
pub proof fn lemma_dispatch_many_concat(
    first: Seq<Result<(), Seq<char>>>,
    second: Seq<Result<(), Seq<char>>>,
)
    ensures
        spec_dispatch_many(first + second) == spec_dispatch_many(first) + spec_dispatch_many(
            second,
        ),
{
    Seq::filter_distributes_over_add(first, second, failure_filter());
    assert((failures(first) + failures(second)).map_values(record_of()) == failures(
        first,
    ).map_values(record_of()) + failures(second).map_values(record_of()));
}

/// What one outcome adds to the records of its batch, as a multiset.
pub open spec fn contribution(outcome: Result<(), Seq<char>>) -> Multiset<LogRecordView> {
    match spec_dispatch(outcome) {
        Some(record) => Multiset::singleton(record),
        None => Multiset::empty(),
    }
}

/// Taking one outcome out of a batch takes its contribution, and nothing
/// else, out of the records.
proof fn lemma_dispatch_many_remove(outcomes: Seq<Result<(), Seq<char>>>, at: int)
    requires
        0 <= at < outcomes.len(),
    ensures
        spec_dispatch_many(outcomes).to_multiset() == spec_dispatch_many(
            outcomes.remove(at),
        ).to_multiset().add(contribution(outcomes[at])),
{
    broadcast use vstd::seq_lib::group_to_multiset_ensures;

    let before = outcomes.take(at);
    let one = seq![outcomes[at]];
    let after = outcomes.skip(at + 1);
    assert(outcomes == before + one + after);
    assert(outcomes.remove(at) == before + after);
    lemma_dispatch_many_concat(before + one, after);
    lemma_dispatch_many_concat(before, one);
    lemma_dispatch_many_concat(before, after);
    lemma_multiset_commutative(spec_dispatch_many(before) + spec_dispatch_many(one),
        spec_dispatch_many(after));
    lemma_multiset_commutative(spec_dispatch_many(before), spec_dispatch_many(one));
    lemma_multiset_commutative(spec_dispatch_many(before), spec_dispatch_many(after));
    assert(spec_dispatch_many(one).to_multiset() == contribution(outcomes[at])) by {
        assert(one == Seq::<Result<(), Seq<char>>>::empty().push(outcomes[at]));
        Seq::<Result<(), Seq<char>>>::empty().lemma_filter_push(outcomes[at], failure_filter());
        Seq::<Result<(), Seq<char>>>::empty().lemma_filter_len(failure_filter());
        if is_failure(outcomes[at]) {
            assert(spec_dispatch_many(one) == Seq::<LogRecordView>::empty().push(
                record_of()(outcomes[at]),
            ));
        } else {
            assert(spec_dispatch_many(one) == Seq::<LogRecordView>::empty());
        }
    }
}

/// The order in which the writes of a batch complete does not change what
/// is logged, only the order of the records: two batches that hold the same
/// outcomes, in any order, yield the same records and so the same number of
/// them.
pub proof fn lemma_dispatch_many_ignores_order(
    a: Seq<Result<(), Seq<char>>>,
    b: Seq<Result<(), Seq<char>>>,
)
    requires
        a.to_multiset() == b.to_multiset(),
    ensures
        spec_dispatch_many(a).to_multiset() == spec_dispatch_many(b).to_multiset(),
        spec_dispatch_many(a).len() == spec_dispatch_many(b).len(),
        failure_count(a) == failure_count(b),
    decreases a.len(),
{
    broadcast use vstd::seq_lib::group_to_multiset_ensures;

    lemma_dispatch_many_counts_failures(a);
    lemma_dispatch_many_counts_failures(b);
    a.to_multiset_ensures();
    b.to_multiset_ensures();
    spec_dispatch_many(a).to_multiset_ensures();
    spec_dispatch_many(b).to_multiset_ensures();
    if a.len() == 0 {
        assert(a == b);
    } else {
        let last = a.len() - 1;
        let outcome = a[last];
        assert(a.contains(outcome));
        assert(b.to_multiset().count(outcome) > 0);
        assert(b.contains(outcome));
        let at = choose|i: int| 0 <= i < b.len() && b[i] == outcome;
        assert(a.remove(last).to_multiset() == a.to_multiset().remove(outcome));
        assert(b.remove(at).to_multiset() == b.to_multiset().remove(outcome));
        lemma_dispatch_many_ignores_order(a.remove(last), b.remove(at));
        lemma_dispatch_many_remove(a, last);
        lemma_dispatch_many_remove(b, at);
    }
}

} // verus!
