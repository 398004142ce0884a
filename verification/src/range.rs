//! Planning: how a resource of known size is cut into one byte range per worker.

use crate::error::DownloadError;
use vstd::prelude::*;

verus! {

/// A contiguous run of bytes of the resource, both ends included.
#[derive(Clone, Copy, Debug, PartialEq, Eq, Structural)]
pub struct ByteRange {
    /// Position of the range in the plan, counted from zero.
    pub id: usize,
    /// Offset of the first byte.
    pub start: u64,
    /// Offset of the last byte.
    pub end: u64,
}

impl ByteRange {
    /// A range holds at least one byte.
    pub open spec fn wf(self) -> bool {
        self.start <= self.end
    }

    /// Whether the byte at `offset` belongs to the range.
    pub open spec fn covers(self, offset: int) -> bool {
        self.start <= offset <= self.end
    }
}

/// Bytes given to every worker but the last: the quotient, so that the
/// remainder falls to the last range.
pub open spec fn chunk_size(total: int, workers: int) -> int {
    total / workers
}

/// The range with number `i` in the plan for `total` bytes and `workers`
/// workers.
pub open spec fn planned_range(total: int, workers: int, i: int) -> ByteRange {
    ByteRange {
        id: i as usize,
        start: (i * chunk_size(total, workers)) as u64,
        end: if i == workers - 1 {
            (total - 1) as u64
        } else {
            ((i + 1) * chunk_size(total, workers) - 1) as u64
        },
    }
}

/// The whole plan, in ascending order.
pub open spec fn planned(total: int, workers: int) -> Seq<ByteRange> {
    Seq::new(workers as nat, |i: int| planned_range(total, workers, i))
}

/// The inputs for which a plan exists: at least one worker, and at least one
/// byte for each of them.
pub open spec fn plannable(total: int, workers: int) -> bool {
    1 <= workers <= total
}

/// What planning yields: the plan, or the reason why there is none.
pub open spec fn plan_outcome(total: int, workers: int) -> Result<Seq<ByteRange>, DownloadError> {
    if plannable(total, workers) {
        Ok(planned(total, workers))
    } else {
        Err(DownloadError::InvalidInput)
    }
}

/// A plan as a value of the model: the ranges as a sequence.
pub open spec fn plan_view(plan: Result<Vec<ByteRange>, DownloadError>) -> Result<
    Seq<ByteRange>,
    DownloadError,
> {
    match plan {
        Ok(ranges) => Ok(ranges@),
        Err(e) => Err(e),
    }
}

/// The number of the range that holds the byte at `offset`.
pub open spec fn owner(total: int, workers: int, offset: int) -> int {
    let i = offset / chunk_size(total, workers);
    if i < workers - 1 {
        i
    } else {
        workers - 1
    }
}

/// The products that bound a plan: every start lies in the resource, and
/// consecutive starts are one chunk apart.
pub proof fn lemma_chunk_bounds(total: int, workers: int, i: int)
    requires
        plannable(total, workers),
        0 <= i < workers,
    ensures
        chunk_size(total, workers) >= 1,
        workers * chunk_size(total, workers) <= total,
        0 <= i * chunk_size(total, workers),
        (i + 1) * chunk_size(total, workers) == i * chunk_size(total, workers) + chunk_size(
            total,
            workers,
        ),
        (i + 1) * chunk_size(total, workers) <= workers * chunk_size(total, workers),
{
    let c = total / workers;
    assert(c >= 1 && workers * c <= total) by (nonlinear_arith)
        requires
            1 <= workers <= total,
            c == total / workers,
    ;
    assert(0 <= i * c && (i + 1) * c == i * c + c && (i + 1) * c <= workers * c)
        by (nonlinear_arith)
        requires
            0 <= i < workers,
            c >= 1,
    ;
}

/// Every planned range is well formed, carries its own number, and fits in
/// the resource.
pub proof fn lemma_planned_range(total: int, workers: int, i: int)
    requires
        plannable(total, workers),
        total <= u64::MAX,
        workers <= usize::MAX,
        0 <= i < workers,
    ensures
        planned_range(total, workers, i).wf(),
        planned_range(total, workers, i).id == i,
        planned_range(total, workers, i).start == i * chunk_size(total, workers),
        planned_range(total, workers, i).end < total,
        i < workers - 1 ==> planned_range(total, workers, i).end + 1 == (i + 1) * chunk_size(
            total,
            workers,
        ),
        i == workers - 1 ==> planned_range(total, workers, i).end == total - 1,
{
    lemma_chunk_bounds(total, workers, i);
}

/// Cuts `total_size` bytes into `workers` ranges.
///
/// Every range but the last holds `total_size / workers` bytes; the last one
/// runs to the end of the resource. There is no plan without a worker, and
/// none that would leave a worker without a byte.
pub fn plan_ranges(total_size: u64, workers: u8) -> (plan: Result<Vec<ByteRange>, DownloadError>)
    ensures
        plan_view(plan) == plan_outcome(total_size as int, workers as int),
        plan is Ok <==> plannable(total_size as int, workers as int),
{
    if workers == 0 || total_size < workers as u64 {
        return Err(DownloadError::InvalidInput);
    }
    let chunk: u64 = total_size / (workers as u64);
    let mut ranges: Vec<ByteRange> = Vec::new();
    let mut i: u8 = 0;
    while i < workers
        invariant
            plannable(total_size as int, workers as int),
            chunk == chunk_size(total_size as int, workers as int),
            0 <= i <= workers,
            ranges@.len() == i,
            forall|k: int|
                0 <= k < i ==> ranges@[k] == planned_range(
                    total_size as int,
                    workers as int,
                    k,
                ),
        decreases workers - i,
    {
        proof {
            lemma_chunk_bounds(total_size as int, workers as int, i as int);
        }
        let start: u64 = (i as u64) * chunk;
        let end: u64 = if i == workers - 1 {
            total_size - 1
        } else {
            (i as u64 + 1) * chunk - 1
        };
        ranges.push(ByteRange { id: i as usize, start, end });
        i = i + 1;
    }
    assert(ranges@ =~= planned(total_size as int, workers as int));
    Ok(ranges)
}

/// Coverage: a plan has one range per worker, the ranges are numbered and
/// laid end to end from the first byte to the last, and every byte of the
/// resource lies in exactly one of them, the one that `owner` names.
pub proof fn lemma_plan_covers(total: int, workers: int)
    requires
        plannable(total, workers),
        total <= u64::MAX,
        workers <= usize::MAX,
    ensures
        planned(total, workers).len() == workers,
        planned(total, workers)[0].start == 0,
        planned(total, workers)[workers - 1].end == total - 1,
        forall|i: int|
            0 <= i < workers ==> (#[trigger] planned(total, workers)[i]).wf() && planned(
                total,
                workers,
            )[i].id == i,
        forall|i: int|
            0 <= i < workers - 1 ==> (#[trigger] planned(total, workers)[i]).end + 1 == planned(
                total,
                workers,
            )[i + 1].start,
        forall|offset: int|
            0 <= offset < total ==> 0 <= #[trigger] owner(total, workers, offset) < workers
                && planned(total, workers)[owner(total, workers, offset)].covers(offset),
        forall|i: int, offset: int|
            0 <= i < workers && #[trigger] planned(total, workers)[i].covers(offset) ==> 0
                <= offset < total && i == owner(total, workers, offset),
{
    let plan = planned(total, workers);
    let c = chunk_size(total, workers);
    lemma_chunk_bounds(total, workers, 0);
    assert forall|i: int| 0 <= i < workers implies (#[trigger] plan[i]).wf() && plan[i].id
        == i by {
        lemma_planned_range(total, workers, i);
    }
    assert forall|i: int| 0 <= i < workers - 1 implies (#[trigger] plan[i]).end + 1 == plan[i
        + 1].start by {
        lemma_planned_range(total, workers, i);
        lemma_planned_range(total, workers, i + 1);
    }
    lemma_planned_range(total, workers, 0);
    lemma_planned_range(total, workers, workers - 1);
    assert forall|offset: int| 0 <= offset < total implies 0 <= #[trigger] owner(
        total,
        workers,
        offset,
    ) < workers && plan[owner(total, workers, offset)].covers(offset) by {
        let q = offset / c;
        lemma_quotient_bounds(offset, c);
        let i = owner(total, workers, offset);
        lemma_planned_range(total, workers, i);
        if q >= workers - 1 {
            lemma_product_grows(workers - 1, q, c);
        }
    }
    assert forall|i: int, offset: int|
        0 <= i < workers && #[trigger] plan[i].covers(offset) implies 0 <= offset < total && i
        == owner(total, workers, offset) by {
        lemma_planned_range(total, workers, i);
        lemma_chunk_bounds(total, workers, i);
        let q = offset / c;
        lemma_quotient_bounds(offset, c);
        if i < workers - 1 {
            lemma_quotient_unique(offset, c, i);
        } else {
            if q < workers - 1 {
                lemma_product_grows(q + 1, workers - 1, c);
            }
        }
    }
}

/// A quotient brackets its dividend.
proof fn lemma_quotient_bounds(x: int, d: int)
    requires
        0 <= x,
        1 <= d,
    ensures
        0 <= x / d,
        (x / d) * d <= x < (x / d + 1) * d,
{
    assert(0 <= x / d && (x / d) * d <= x < (x / d + 1) * d) by (nonlinear_arith)
        requires
            0 <= x,
            1 <= d,
    ;
}

/// The only multiple of `d` that brackets `x` is the quotient's.
proof fn lemma_quotient_unique(x: int, d: int, q: int)
    requires
        1 <= d,
        q * d <= x < (q + 1) * d,
    ensures
        x / d == q,
{
    assert((q + 1) * d == q * d + d) by (nonlinear_arith);
    vstd::arithmetic::div_mod::lemma_fundamental_div_mod_converse_div(x, d, q, x - q * d);
}

/// Products with a positive factor keep the order of the other factor.
proof fn lemma_product_grows(a: int, b: int, d: int)
    requires
        a <= b,
        0 <= d,
    ensures
        a * d <= b * d,
{
    assert(a * d <= b * d) by (nonlinear_arith)
        requires
            a <= b,
            0 <= d,
    ;
}

/// Determinism: planning is a function of its inputs, so two plans made for
/// the same size and worker count are the same list.
pub proof fn lemma_plan_deterministic(
    total_size: u64,
    workers: u8,
    first: Result<Vec<ByteRange>, DownloadError>,
    second: Result<Vec<ByteRange>, DownloadError>,
)
    requires
        plan_view(first) == plan_outcome(total_size as int, workers as int),
        plan_view(second) == plan_outcome(total_size as int, workers as int),
    ensures
        plan_view(first) == plan_view(second),
        first is Ok ==> second is Ok && first->Ok_0@ == second->Ok_0@,
        first is Err ==> second is Err && first->Err_0 == second->Err_0,
{
}

} // verus!
