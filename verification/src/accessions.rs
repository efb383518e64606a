//! The accession numbers that were seen last, and the filings that are new.
use vstd::prelude::*;

use crate::common::{self, Submission, SubmissionView};

verus! {

/// How many accession numbers are remembered.
pub const MAX_ACCESSIONS: usize = 50_000;

#[verifier::external_type_specification]
#[verifier::external_body]
#[verifier::reject_recursive_types(T)]
#[verifier::reject_recursive_types(S)]
pub struct ExIndexSet<T, S>(indexmap::IndexSet<T, S>);

/// The values of a set in the order in which they were inserted.
pub uninterp spec fn seen_order(accessions: indexmap::IndexSet<u64>) -> Seq<u64>;

/// Calls `IndexSet::with_capacity`. Trusted: the set starts without values. The bound
/// keeps what it allocates addressable.
#[verifier::external_body]
fn new_set(capacity: usize) -> (accessions: indexmap::IndexSet<u64>)
    requires
        capacity <= 1_000_000,
    ensures
        seen_order(accessions) == Seq::<u64>::empty(),
{
    indexmap::IndexSet::with_capacity(capacity)
}

/// Calls `IndexSet::contains`. Trusted: it tells whether the value is in the set.
#[verifier::external_body]
fn set_contains(accessions: &indexmap::IndexSet<u64>, accession: u64) -> (found: bool)
    ensures
        found == seen_order(*accessions).contains(accession),
{
    accessions.contains(&accession)
}

/// Calls `IndexSet::len`. Trusted: it is the number of values.
#[verifier::external_body]
fn set_len(accessions: &indexmap::IndexSet<u64>) -> (len: usize)
    ensures
        len == seen_order(*accessions).len(),
{
    accessions.len()
}

/// Calls `IndexSet::shift_remove_index` for the first value. Trusted: that value
/// leaves the set, if there is one, and the others keep their order.
#[verifier::external_body]
fn set_remove_first(accessions: &mut indexmap::IndexSet<u64>)
    ensures
        seen_order(*final(accessions)) == if seen_order(*old(accessions)).len() == 0 {
            Seq::empty()
        } else {
            seen_order(*old(accessions)).skip(1)
        },
{
    accessions.shift_remove_index(0);
}

/// Calls `IndexSet::insert`. Trusted: a value that is in the set changes nothing,
/// and any other becomes the last one.
#[verifier::external_body]
fn set_insert(accessions: &mut indexmap::IndexSet<u64>, accession: u64)
    ensures
        seen_order(*final(accessions)) == if seen_order(*old(accessions)).contains(accession) {
            seen_order(*old(accessions))
        } else {
            seen_order(*old(accessions)).push(accession)
        },
{
    accessions.insert(accession);
}

/// The numbers that are remembered when one more is seen: the oldest leaves where
/// there is no room.
pub open spec fn remember(seen: Seq<u64>, accession: u64) -> Seq<u64> {
    if seen.contains(accession) {
        seen
    } else if seen.len() == MAX_ACCESSIONS {
        seen.skip(1).push(accession)
    } else {
        seen.push(accession)
    }
}

/// The numbers that are remembered after a batch.
pub open spec fn seen_after(batch: Seq<SubmissionView>, seen: Seq<u64>) -> Seq<u64>
    decreases batch.len(),
{
    if batch.len() == 0 {
        seen
    } else {
        remember(seen_after(batch.drop_last(), seen), batch.last().accession)
    }
}

/// The filings of a batch whose numbers were not remembered when they came.
pub open spec fn new_in(batch: Seq<SubmissionView>, seen: Seq<u64>) -> Seq<SubmissionView>
    decreases batch.len(),
{
    if batch.len() == 0 {
        Seq::empty()
    } else if seen_after(batch.drop_last(), seen).contains(batch.last().accession) {
        new_in(batch.drop_last(), seen)
    } else {
        new_in(batch.drop_last(), seen).push(batch.last())
    }
}

/// What the set of remembered numbers always is: without repetition, and no larger
/// than it may be.
pub open spec fn is_window(seen: Seq<u64>) -> bool {
    seen.no_duplicates() && seen.len() <= MAX_ACCESSIONS
}

/// A set that remembers nothing.
pub fn no_accessions() -> (accessions: indexmap::IndexSet<u64>)
    ensures
        seen_order(accessions) == Seq::<u64>::empty(),
        is_window(seen_order(accessions)),
{
    new_set(MAX_ACCESSIONS)
}

/// The filings of the batch that are new, in their order; all of the batch is
/// remembered.
pub fn filter_new(batch: Vec<Submission>, accessions: &mut indexmap::IndexSet<u64>) -> (new: Vec<
    Submission,
>)
    ensures
        common::submissions_view(new@) == new_in(
            common::submissions_view(batch@),
            seen_order(*old(accessions)),
        ),
        seen_order(*final(accessions)) == seen_after(
            common::submissions_view(batch@),
            seen_order(*old(accessions)),
        ),
{
    let ghost all = common::submissions_view(batch@);
    let ghost seen = seen_order(*accessions);
    let mut new: Vec<Submission> = Vec::new();
    assert(all.take(0) =~= Seq::empty());
    assert(common::submissions_view(new@) =~= Seq::empty());
    for submission in iter: batch
        invariant
            all == common::submissions_view(iter.seq()),
            common::submissions_view(new@) == new_in(all.take(iter.index() as int), seen),
            seen_order(*accessions) == seen_after(all.take(iter.index() as int), seen),
    {
        let ghost next = all.take(iter.index() + 1);
        let ghost before = new@;
        proof {
            assert(next.drop_last() =~= all.take(iter.index() as int));
            assert(next.last() == submission@);
        }
        if !set_contains(accessions, submission.accession) {
            if set_len(accessions) == MAX_ACCESSIONS {
                proof {
                    let now = seen_order(*accessions);
                    if now.skip(1).contains(submission.accession) {
                        let i = choose|i: int|
                            0 <= i < now.len() - 1 && now.skip(1)[i] == submission.accession;
                        assert(now[i + 1] == submission.accession);
                    }
                }
                set_remove_first(accessions);
            }
            set_insert(accessions, submission.accession);
            let ghost added = submission@;
            new.push(submission);
            assert(common::submissions_view(new@) =~= common::submissions_view(
                before,
            ).push(added));
        }
    }
    assert(all.take(all.len() as int) =~= all);
    new
}

/// The accession numbers of filings.
pub open spec fn numbers_of(batch: Seq<SubmissionView>) -> Seq<u64> {
    Seq::new(batch.len(), |i: int| batch[i].accession)
}

/// The last values, as many as are remembered.
pub open spec fn newest(numbers: Seq<u64>) -> Seq<u64> {
    if numbers.len() <= MAX_ACCESSIONS {
        numbers
    } else {
        numbers.skip(numbers.len() - MAX_ACCESSIONS)
    }
}

/// No number is ever remembered twice, and never more of them than fit.
pub proof fn law_window_is_kept(batch: Seq<SubmissionView>, seen: Seq<u64>)
    requires
        is_window(seen),
    ensures
        is_window(seen_after(batch, seen)),
    decreases batch.len(),
{
    if batch.len() > 0 {
        law_window_is_kept(batch.drop_last(), seen);
        let before = seen_after(batch.drop_last(), seen);
        let accession = batch.last().accession;
        if !before.contains(accession) {
            let kept = if before.len() == MAX_ACCESSIONS {
                before.skip(1)
            } else {
                before
            };
            assert forall|i: int, j: int|
                0 <= i < j < kept.push(accession).len() implies kept.push(accession)[i]
                != kept.push(accession)[j] by {
                let shift = before.len() - kept.len();
                assert(kept[i] == before[i + shift]);
                if j < kept.len() {
                    assert(kept[j] == before[j + shift]);
                }
            }
        }
    }
}

/// What is remembered are the numbers that were reported as new last.
pub proof fn law_newest_numbers_are_remembered(batch: Seq<SubmissionView>, seen: Seq<u64>)
    requires
        is_window(seen),
    ensures
        seen_after(batch, seen) == newest(seen + numbers_of(new_in(batch, seen))),
    decreases batch.len(),
{
    if batch.len() == 0 {
        assert(seen + numbers_of(new_in(batch, seen)) =~= seen);
    } else {
        let rest = batch.drop_last();
        law_newest_numbers_are_remembered(rest, seen);
        law_window_is_kept(rest, seen);
        let before = seen_after(rest, seen);
        let accession = batch.last().accession;
        if !before.contains(accession) {
            let reported = seen + numbers_of(new_in(rest, seen));
            assert(seen + numbers_of(new_in(batch, seen)) =~= reported.push(accession));
            assert(newest(reported.push(accession)) =~= remember(before, accession));
        }
    }
}

/// Two batches bring the same new filings as one that holds both, and leave the same
/// numbers remembered.
pub proof fn law_batches_can_be_joined(
    first: Seq<SubmissionView>,
    second: Seq<SubmissionView>,
    seen: Seq<u64>,
)
    ensures
        seen_after(first + second, seen) == seen_after(second, seen_after(first, seen)),
        new_in(first + second, seen) == new_in(first, seen) + new_in(
            second,
            seen_after(first, seen),
        ),
    decreases second.len(),
{
    let both = first + second;
    if second.len() == 0 {
        assert(both =~= first);
        assert(new_in(first, seen) + new_in(second, seen_after(first, seen)) =~= new_in(
            first,
            seen,
        ));
    } else {
        let rest = second.drop_last();
        law_batches_can_be_joined(first, rest, seen);
        assert(both.drop_last() =~= first + rest);
        assert(both.last() == second.last());
        let earlier = new_in(rest, seen_after(first, seen));
        assert(new_in(first, seen) + earlier.push(second.last()) =~= (new_in(first, seen)
            + earlier).push(second.last()));
    }
}

/// Every filing of a batch has a number that was remembered, or is reported as new
/// itself, or repeats the number of one that is.
pub proof fn law_nothing_is_lost(batch: Seq<SubmissionView>, seen: Seq<u64>, i: int)
    requires
        is_window(seen),
        0 <= i < batch.len(),
    ensures
        seen.contains(batch[i].accession) || numbers_of(new_in(batch, seen)).contains(
            batch[i].accession,
        ),
    decreases batch.len(),
{
    let rest = batch.drop_last();
    let before = seen_after(rest, seen);
    let earlier = numbers_of(new_in(rest, seen));
    let numbers = numbers_of(new_in(batch, seen));
    assert forall|n: u64| earlier.contains(n) implies numbers.contains(n) by {
        let k = choose|k: int| 0 <= k < earlier.len() && earlier[k] == n;
        assert(numbers[k] == n);
    }
    if i < rest.len() {
        law_nothing_is_lost(rest, seen, i);
        assert(rest[i] == batch[i]);
    } else if before.contains(batch.last().accession) {
        let accession = batch.last().accession;
        law_newest_numbers_are_remembered(rest, seen);
        let reported = seen + earlier;
        let k = choose|k: int| 0 <= k < before.len() && before[k] == accession;
        let at = k + reported.len() - before.len();
        assert(reported[at] == accession);
        if at < seen.len() {
            assert(seen[at] == accession);
        } else {
            assert(earlier[at - seen.len()] == accession);
        }
    } else {
        assert(numbers.last() == batch.last().accession);
        assert(numbers[numbers.len() - 1] == batch.last().accession);
    }
}

/// A filing that is reported as new has a number that is not among those that were
/// reported last before it.
pub proof fn law_reported_numbers_were_not_remembered(
    batch: Seq<SubmissionView>,
    seen: Seq<u64>,
    k: int,
)
    requires
        is_window(seen),
        0 <= k < new_in(batch, seen).len(),
    ensures
        !newest(seen + numbers_of(new_in(batch, seen)).take(k)).contains(
            new_in(batch, seen)[k].accession,
        ),
    decreases batch.len(),
{
    let rest = batch.drop_last();
    let earlier = new_in(rest, seen);
    let new = new_in(batch, seen);
    if k < earlier.len() {
        law_reported_numbers_were_not_remembered(rest, seen, k);
        assert(numbers_of(new).take(k) =~= numbers_of(earlier).take(k));
    } else {
        law_newest_numbers_are_remembered(rest, seen);
        assert(numbers_of(new).take(k) =~= numbers_of(earlier));
    }
}

/// Equal numbers lie further apart than as many as are remembered.
pub open spec fn repeats_are_far_apart(numbers: Seq<u64>) -> bool {
    forall|i: int, j: int|
        0 <= i < j < numbers.len() && #[trigger] numbers[i] == #[trigger] numbers[j] ==> j - i
            > MAX_ACCESSIONS
}

pub proof fn lemma_newest_of_newest(first: Seq<u64>, second: Seq<u64>)
    ensures
        newest(newest(first) + second) == newest(first + second),
{
    assert(newest(newest(first) + second) =~= newest(first + second));
}

/// Where the numbers that are remembered are the last of those that were reported, and
/// equal ones among these lie far apart, they still do after one more batch.
pub proof fn law_repeats_stay_far_apart(reported: Seq<u64>, batch: Seq<SubmissionView>)
    requires
        is_window(newest(reported)),
        repeats_are_far_apart(reported),
    ensures
        repeats_are_far_apart(reported + numbers_of(new_in(batch, newest(reported)))),
{
    let seen = newest(reported);
    let new = numbers_of(new_in(batch, seen));
    let all = reported + new;
    assert forall|i: int, j: int|
        0 <= i < j < all.len() && #[trigger] all[i] == #[trigger] all[j] implies j - i
        > MAX_ACCESSIONS by {
        if j < reported.len() {
            assert(reported[i] == reported[j]);
        } else {
            let k = j - reported.len();
            law_reported_numbers_were_not_remembered(batch, seen, k);
            lemma_newest_of_newest(reported, new.take(k));
            let before = reported + new.take(k);
            assert(before =~= all.take(j));
            if j - i <= MAX_ACCESSIONS {
                let window = newest(before);
                let at = i - (before.len() - window.len());
                assert(window[at] == all[i]);
            }
        }
    }
}

proof fn lemma_room_for_all(batch: Seq<SubmissionView>, seen: Seq<u64>)
    requires
        is_window(seen),
        seen.len() + batch.len() <= MAX_ACCESSIONS,
    ensures
        seen_after(batch, seen) == seen + numbers_of(new_in(batch, seen)),
        new_in(batch, seen).len() <= batch.len(),
    decreases batch.len(),
{
    law_newest_numbers_are_remembered(batch, seen);
    if batch.len() > 0 {
        lemma_room_for_all(batch.drop_last(), seen);
    }
}

/// Where all numbers of a batch can be remembered, the filings that are reported as
/// new have numbers that were not remembered, each reported once.
pub proof fn law_new_filings_are_new(batch: Seq<SubmissionView>, seen: Seq<u64>)
    requires
        is_window(seen),
        seen.len() + batch.len() <= MAX_ACCESSIONS,
    ensures
        numbers_of(new_in(batch, seen)).no_duplicates(),
        forall|i: int|
            0 <= i < new_in(batch, seen).len() ==> !seen.contains(
                (#[trigger] new_in(batch, seen)[i]).accession,
            ),
{
    lemma_room_for_all(batch, seen);
    law_window_is_kept(batch, seen);
    let new = new_in(batch, seen);
    let numbers = numbers_of(new);
    let all = seen + numbers;
    assert forall|i: int, j: int| 0 <= i < j < numbers.len() implies numbers[i] != numbers[j] by {
        assert(all[seen.len() + i] == numbers[i]);
        assert(all[seen.len() + j] == numbers[j]);
    }
    assert forall|i: int| 0 <= i < new.len() implies !seen.contains(
        (#[trigger] new[i]).accession,
    ) by {
        assert(all[seen.len() + i] == numbers[i]);
        if seen.contains(new[i].accession) {
            let k = choose|k: int| 0 <= k < seen.len() && seen[k] == new[i].accession;
            assert(all[k] == all[seen.len() + i]);
        }
    }
}

/// Where all numbers of a batch can be remembered, the same batch brings nothing new
/// a second time.
pub proof fn law_same_batch_again_is_not_new(batch: Seq<SubmissionView>, seen: Seq<u64>)
    requires
        is_window(seen),
        seen.len() + batch.len() <= MAX_ACCESSIONS,
    ensures
        new_in(batch, seen_after(batch, seen)) == Seq::<SubmissionView>::empty(),
        seen_after(batch, seen_after(batch, seen)) == seen_after(batch, seen),
{
    let after = seen_after(batch, seen);
    lemma_room_for_all(batch, seen);
    assert forall|i: int| 0 <= i < batch.len() implies after.contains(
        (#[trigger] batch[i]).accession,
    ) by {
        law_nothing_is_lost(batch, seen, i);
        let numbers = numbers_of(new_in(batch, seen));
        if seen.contains(batch[i].accession) {
            let k = choose|k: int| 0 <= k < seen.len() && seen[k] == batch[i].accession;
            assert(after[k] == batch[i].accession);
        } else {
            let k = choose|k: int| 0 <= k < numbers.len() && numbers[k] == batch[i].accession;
            assert(after[seen.len() + k] == batch[i].accession);
        }
    }
    lemma_nothing_new(batch, after);
}

proof fn lemma_nothing_new(batch: Seq<SubmissionView>, seen: Seq<u64>)
    requires
        forall|i: int| 0 <= i < batch.len() ==> seen.contains((#[trigger] batch[i]).accession),
    ensures
        new_in(batch, seen) == Seq::<SubmissionView>::empty(),
        seen_after(batch, seen) == seen,
    decreases batch.len(),
{
    if batch.len() > 0 {
        let rest = batch.drop_last();
        assert forall|i: int| 0 <= i < rest.len() implies seen.contains(
            (#[trigger] rest[i]).accession,
        ) by {
            assert(rest[i] == batch[i]);
        }
        lemma_nothing_new(rest, seen);
        assert(seen.contains(batch[batch.len() - 1].accession));
    }
}

} // verus!
