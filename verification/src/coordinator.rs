//! Joining the workers of a job: one slot per range, filled as workers end.
//!
//! Workers end in any order. Each outcome goes into the slot of its range,
//! so that the parts come out in the order in which the ranges were planned,
//! which is the order in which they have to be merged.

use crate::error::DownloadError;
use vstd::prelude::*;

verus! {

/// The outcomes of the workers of one job, by range number. `T` is what a
/// worker hands over for its range: the place of its part file.
#[derive(Debug)]
pub struct Coordinator<T> {
    slots: Vec<Option<Result<T, DownloadError>>>,
}

impl<T> View for Coordinator<T> {
    type V = Seq<Option<Result<T, DownloadError>>>;

    closed spec fn view(&self) -> Seq<Option<Result<T, DownloadError>>> {
        self.slots@
    }
}

/// The slots of a job none of whose workers has ended.
pub open spec fn empty_slots<T>(tasks: nat) -> Seq<Option<Result<T, DownloadError>>> {
    Seq::new(tasks, |i: int| None)
}

/// The slots after the worker of range `id` ended with `outcome`. A number
/// that names no range changes nothing.
pub open spec fn recorded<T>(
    slots: Seq<Option<Result<T, DownloadError>>>,
    id: int,
    outcome: Result<T, DownloadError>,
) -> Seq<Option<Result<T, DownloadError>>> {
    if 0 <= id < slots.len() {
        slots.update(id, Some(outcome))
    } else {
        slots
    }
}

/// The slots after several workers ended, in the order of the list.
pub open spec fn recorded_all<T>(
    slots: Seq<Option<Result<T, DownloadError>>>,
    completions: Seq<(int, Result<T, DownloadError>)>,
) -> Seq<Option<Result<T, DownloadError>>>
    decreases completions.len(),
{
    if completions.len() == 0 {
        slots
    } else {
        recorded(
            recorded_all(slots, completions.drop_last()),
            completions.last().0,
            completions.last().1,
        )
    }
}

/// The error that a slot stands for: none where the worker handed over its
/// part, the worker's own error where it failed, and `TaskFailure` where no
/// outcome ever arrived.
pub open spec fn slot_error<T>(slot: Option<Result<T, DownloadError>>) -> Option<DownloadError> {
    match slot {
        Some(Ok(_)) => None,
        Some(Err(e)) => Some(e),
        None => Some(DownloadError::TaskFailure),
    }
}

/// Whether every worker handed over its part.
pub open spec fn all_fetched<T>(slots: Seq<Option<Result<T, DownloadError>>>) -> bool {
    forall|i: int| 0 <= i < slots.len() ==> slot_error(#[trigger] slots[i]) is None
}

/// Whether slot `k` is the first that stands for an error, and `error` is
/// that error.
pub open spec fn first_failure<T>(
    slots: Seq<Option<Result<T, DownloadError>>>,
    k: int,
    error: DownloadError,
) -> bool {
    &&& 0 <= k < slots.len()
    &&& slot_error(slots[k]) == Some(error)
    &&& forall|i: int| 0 <= i < k ==> slot_error(#[trigger] slots[i]) is None
}

/// Whether `parts` are the parts in the slots, in slot order.
pub open spec fn parts_of<T>(slots: Seq<Option<Result<T, DownloadError>>>, parts: Seq<T>) -> bool {
    &&& parts.len() == slots.len()
    &&& forall|i: int|
        #![trigger slots[i]]
        #![trigger parts[i]]
        0 <= i < slots.len() ==> slots[i] == Some(Ok::<T, DownloadError>(parts[i]))
}

impl<T> Coordinator<T> {
    /// Slots for `tasks` workers, all empty.
    pub fn new(tasks: usize) -> (coordinator: Self)
        ensures
            coordinator@ == empty_slots::<T>(tasks as nat),
    {
        let mut slots: Vec<Option<Result<T, DownloadError>>> = Vec::new();
        let mut i: usize = 0;
        while i < tasks
            invariant
                i <= tasks,
                slots@.len() == i,
                forall|k: int| 0 <= k < i ==> slots@[k] is None,
            decreases tasks - i,
        {
            slots.push(None);
            i = i + 1;
        }
        assert(slots@ =~= empty_slots::<T>(tasks as nat));
        Coordinator { slots }
    }

    /// Number of workers.
    pub fn tasks(&self) -> (n: usize)
        ensures
            n == self@.len(),
    {
        self.slots.len()
    }

    /// Stores the outcome of the worker of range `id`.
    pub fn record(&mut self, id: usize, outcome: Result<T, DownloadError>)
        ensures
            final(self)@ == recorded(old(self)@, id as int, outcome),
    {
        if id < self.slots.len() {
            self.slots.set(id, Some(outcome));
        }
    }

    /// Whether every worker has ended.
    pub fn is_complete(&self) -> (b: bool)
        ensures
            b == (forall|i: int| 0 <= i < self@.len() ==> (#[trigger] self@[i]) is Some),
    {
        let mut i: usize = 0;
        while i < self.slots.len()
            invariant
                i <= self.slots@.len(),
                forall|k: int| 0 <= k < i ==> (#[trigger] self.slots@[k]) is Some,
            decreases self.slots@.len() - i,
        {
            if self.slots[i].is_none() {
                return false;
            }
            i = i + 1;
        }
        true
    }

    /// Ends the job: the parts of all ranges in range order, or the error of
    /// the first range, in range order, that has none.
    ///
    /// One failed range fails the job, whatever the others brought. A worker
    /// whose outcome never arrived counts as failed with `TaskFailure`.
    pub fn collect(self) -> (outcome: Result<Vec<T>, DownloadError>)
        ensures
            outcome is Ok <==> all_fetched(self@),
            outcome matches Ok(parts) ==> parts_of(self@, parts@),
            outcome matches Err(e) ==> exists|k: int| first_failure(self@, k, e),
    {
        let ghost slots = self.slots@;
        let mut parts: Vec<T> = Vec::new();
        for slot in it: self.slots
            invariant
                it.seq() == slots,
                parts@.len() == it.index(),
                forall|i: int|
                    0 <= i < it.index() ==> #[trigger] slots[i] == Some(
                        Ok::<T, DownloadError>(parts@[i]),
                    ),
        {
            match slot {
                Some(Ok(part)) => {
                    parts.push(part);
                },
                Some(Err(e)) => {
                    assert(first_failure(slots, it.index() as int, e));
                    return Err(e);
                },
                None => {
                    assert(first_failure(slots, it.index() as int, DownloadError::TaskFailure));
                    return Err(DownloadError::TaskFailure);
                },
            }
        }
        Ok(parts)
    }
}

/// Whether `order` is an order in which `tasks` workers can end: it names
/// each of them once.
pub open spec fn is_interleaving(order: Seq<int>, tasks: nat) -> bool {
    &&& order.len() == tasks
    &&& forall|k: int| 0 <= k < order.len() ==> 0 <= #[trigger] order[k] < tasks
    &&& order.no_duplicates()
}

/// What the coordinator is told when the workers end in the order `order`,
/// the worker of range `i` with `outcomes[i]`.
pub open spec fn completions<T>(outcomes: Seq<Result<T, DownloadError>>, order: Seq<int>) -> Seq<
    (int, Result<T, DownloadError>),
> {
    Seq::new(order.len(), |k: int| (order[k], outcomes[order[k]]))
}

/// An order that names each of `tasks` workers once names every one of them.
proof fn lemma_interleaving_is_onto(order: Seq<int>, tasks: nat)
    requires
        is_interleaving(order, tasks),
    ensures
        forall|i: int| 0 <= i < tasks ==> order.contains(i),
{
    let named = order.to_set();
    let all = vstd::set_lib::set_int_range(0, tasks as int);
    order.unique_seq_to_set();
    vstd::set_lib::lemma_int_range(0, tasks as int);
    assert(named.subset_of(all)) by {
        assert forall|i: int| named.contains(i) implies all.contains(i) by {
            let k = choose|k: int| 0 <= k < order.len() && #[trigger] order[k] == i;
            assert(0 <= order[k] < tasks);
        }
    }
    vstd::set_lib::lemma_set_subset_finite(all, named);
    vstd::set_lib::lemma_subset_equality(named, all);
    assert forall|i: int| 0 <= i < tasks implies order.contains(i) by {
        assert(all.contains(i));
        assert(named.contains(i));
    }
}

/// After the first `m` workers of an order have ended, the slots of just
/// these workers are filled, each with the outcome of its own worker.
proof fn lemma_recorded_prefix<T>(outcomes: Seq<Result<T, DownloadError>>, order: Seq<int>, m: int)
    requires
        is_interleaving(order, outcomes.len()),
        0 <= m <= order.len(),
    ensures
        ({
            let slots = recorded_all(
                empty_slots::<T>(outcomes.len()),
                completions(outcomes, order).take(m),
            );
            &&& slots.len() == outcomes.len()
            &&& forall|i: int|
                0 <= i < outcomes.len() ==> #[trigger] slots[i] == if order.take(m).contains(i) {
                    Some(outcomes[i])
                } else {
                    None
                }
        }),
    decreases m,
{
    let done = completions(outcomes, order).take(m);
    if m == 0 {
        assert(done.len() == 0);
        assert forall|i: int| 0 <= i < outcomes.len() implies !order.take(0).contains(i) by {}
    } else {
        lemma_recorded_prefix(outcomes, order, m - 1);
        assert(done.drop_last() =~= completions(outcomes, order).take(m - 1));
        assert(done.last() == (order[m - 1], outcomes[order[m - 1]]));
        let before = recorded_all(empty_slots::<T>(outcomes.len()), done.drop_last());
        let slots = recorded_all(empty_slots::<T>(outcomes.len()), done);
        assert(slots == recorded(before, order[m - 1], outcomes[order[m - 1]]));
        assert forall|i: int| 0 <= i < outcomes.len() implies #[trigger] slots[i] == if order.take(
            m,
        ).contains(i) {
            Some(outcomes[i])
        } else {
            None
        } by {
            let earlier = order.take(m - 1);
            let now = order.take(m);
            if i == order[m - 1] {
                assert(now[m - 1] == i);
            } else if earlier.contains(i) {
                let k = choose|k: int| 0 <= k < earlier.len() && #[trigger] earlier[k] == i;
                assert(now[k] == i);
            } else {
                if now.contains(i) {
                    let k = choose|k: int| 0 <= k < now.len() && #[trigger] now[k] == i;
                    assert(k < m - 1);
                    assert(earlier[k] == i);
                }
            }
        }
    }
}

/// Order preservation: when the workers of ranges `0..N-1` end in any
/// order, every slot holds the outcome of its own range, so that the parts
/// which `collect` hands out are in ascending range order.
pub proof fn lemma_order_preserved<T>(outcomes: Seq<Result<T, DownloadError>>, order: Seq<int>)
    requires
        is_interleaving(order, outcomes.len()),
    ensures
        recorded_all(empty_slots::<T>(outcomes.len()), completions(outcomes, order)) == Seq::new(
            outcomes.len(),
            |i: int| Some(outcomes[i]),
        ),
        forall|parts: Seq<T>|
            #![trigger parts_of(recorded_all(empty_slots::<T>(outcomes.len()), completions(outcomes, order)), parts)]
            parts_of(
                recorded_all(empty_slots::<T>(outcomes.len()), completions(outcomes, order)),
                parts,
            ) ==> forall|i: int|
                0 <= i < outcomes.len() ==> #[trigger] outcomes[i] == Ok::<T, DownloadError>(
                    parts[i],
                ),
{
    let all = completions(outcomes, order);
    let slots = recorded_all(empty_slots::<T>(outcomes.len()), all);
    lemma_recorded_prefix(outcomes, order, order.len() as int);
    assert(all.take(order.len() as int) =~= all);
    assert(order.take(order.len() as int) =~= order);
    lemma_interleaving_is_onto(order, outcomes.len());
    assert(slots =~= Seq::new(outcomes.len(), |i: int| Some(outcomes[i])));
    assert forall|parts: Seq<T>| #[trigger] parts_of(slots, parts) implies forall|i: int|
        0 <= i < outcomes.len() ==> #[trigger] outcomes[i] == Ok::<T, DownloadError>(parts[i]) by {
        assert forall|i: int| 0 <= i < outcomes.len() implies #[trigger] outcomes[i] == Ok::<
            T,
            DownloadError,
        >(parts[i]) by {
            assert(slots[i] == Some(Ok::<T, DownloadError>(parts[i])));
        }
    }
}

/// Fail-fast: one range without a part is enough for the job to have none.
/// Whatever the other workers brought, `collect` then answers with an error,
/// the error of the first such range.
pub proof fn lemma_fail_fast<T>(slots: Seq<Option<Result<T, DownloadError>>>, failed: int)
    requires
        0 <= failed < slots.len(),
        slot_error(slots[failed]) is Some,
    ensures
        !all_fetched(slots),
        exists|k: int, e: DownloadError| first_failure(slots, k, e) && k <= failed,
    decreases failed,
{
    if exists|i: int| 0 <= i < failed && slot_error(#[trigger] slots[i]) is Some {
        let i = choose|i: int| 0 <= i < failed && slot_error(#[trigger] slots[i]) is Some;
        lemma_fail_fast(slots, i);
    } else {
        assert(first_failure(slots, failed, slot_error(slots[failed])->Some_0));
    }
}

} // verus!
