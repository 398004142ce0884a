//! Merging: the part files, in range order, become the final file.
//!
//! The merger does no I/O. It says which steps to take, in which order, and
//! states over a model of the files what the steps leave behind.

use crate::coordinator::{all_fetched, first_failure, parts_of, Coordinator};
use crate::error::DownloadError;
use crate::range::{lemma_plan_covers, plannable, planned, ByteRange};
use crate::text::{joined, lemma_joined_push};
use vstd::prelude::*;

verus! {

/// One step of a merge. Parts are named by their place in the list that the
/// merge was planned for.
#[derive(Clone, Copy, Debug, PartialEq, Eq, Structural)]
pub enum MergeStep {
    /// Create the final file, or empty it if it is there.
    CreateFinal,
    /// Copy the whole part file to the end of the final file.
    Append { part: usize },
    /// Delete the part file.
    Remove { part: usize },
}

/// The steps for one part: copy it, and delete it at once unless part files
/// are to be kept.
pub open spec fn part_steps(part: int, no_cleanup: bool) -> Seq<MergeStep> {
    if no_cleanup {
        seq![MergeStep::Append { part: part as usize }]
    } else {
        seq![MergeStep::Append { part: part as usize }, MergeStep::Remove { part: part as usize }]
    }
}

/// The steps for the first `parts` parts, in ascending order.
pub open spec fn copy_steps(parts: nat, no_cleanup: bool) -> Seq<MergeStep>
    decreases parts,
{
    if parts == 0 {
        Seq::empty()
    } else {
        copy_steps((parts - 1) as nat, no_cleanup) + part_steps(parts - 1, no_cleanup)
    }
}

/// All steps of a merge of `parts` parts.
pub open spec fn merge_plan(parts: nat, no_cleanup: bool) -> Seq<MergeStep> {
    seq![MergeStep::CreateFinal] + copy_steps(parts, no_cleanup)
}

/// Lists the steps that merge `parts` part files: the final file is created,
/// then every part is copied to its end, in ascending order, and deleted
/// right after its copy unless `no_cleanup` is set.
pub fn merge_steps(parts: usize, no_cleanup: bool) -> (steps: Vec<MergeStep>)
    ensures
        steps@ == merge_plan(parts as nat, no_cleanup),
{
    let mut steps: Vec<MergeStep> = Vec::new();
    steps.push(MergeStep::CreateFinal);
    let mut i: usize = 0;
    while i < parts
        invariant
            i <= parts,
            steps@ == merge_plan(i as nat, no_cleanup),
        decreases parts - i,
    {
        steps.push(MergeStep::Append { part: i });
        if !no_cleanup {
            steps.push(MergeStep::Remove { part: i });
        }
        assert(steps@ =~= merge_plan(i as nat, no_cleanup) + part_steps(i as int, no_cleanup));
        assert(merge_plan((i + 1) as nat, no_cleanup) =~= merge_plan(i as nat, no_cleanup)
            + part_steps(i as int, no_cleanup));
        i = i + 1;
    }
    steps
}

/// Ends a job: where every worker handed over its part, the parts in range
/// order and the steps that merge them; else the error of the first range
/// without a part, and no step at all.
pub fn plan_merge<T>(coordinator: Coordinator<T>, no_cleanup: bool) -> (job: Result<
    (Vec<T>, Vec<MergeStep>),
    DownloadError,
>)
    ensures
        job is Ok <==> all_fetched(coordinator@),
        job matches Ok(merge) ==> parts_of(coordinator@, merge.0@) && merge.1@ == merge_plan(
            merge.0@.len(),
            no_cleanup,
        ),
        job matches Err(e) ==> exists|k: int| first_failure(coordinator@, k, e),
{
    match coordinator.collect() {
        Ok(parts) => {
            let steps = merge_steps(parts.len(), no_cleanup);
            Ok((parts, steps))
        },
        Err(e) => Err(e),
    }
}

/// The files of a merge as mathematical values: what the final file holds,
/// if it exists, and what every part file holds, if it still exists.
pub struct Files {
    pub final_file: Option<Seq<u8>>,
    pub parts: Seq<Option<Seq<u8>>>,
}

impl Files {
    /// The files before a merge: every part file in place. The final file
    /// may be there from an earlier run.
    pub open spec fn before_merge(stale: Option<Seq<u8>>, contents: Seq<Seq<u8>>) -> Files {
        Files { final_file: stale, parts: Seq::new(contents.len(), |i: int| Some(contents[i])) }
    }

    /// Whether a step can be taken: a part that is copied or deleted must
    /// exist, and so must the final file when it is copied to.
    pub open spec fn allows(self, step: MergeStep) -> bool {
        match step {
            MergeStep::CreateFinal => true,
            MergeStep::Append { part } => self.final_file is Some && part < self.parts.len()
                && self.parts[part as int] is Some,
            MergeStep::Remove { part } => part < self.parts.len() && self.parts[part as int]
                is Some,
        }
    }

    /// The files after one step.
    pub open spec fn after(self, step: MergeStep) -> Files {
        match step {
            MergeStep::CreateFinal => Files { final_file: Some(Seq::empty()), ..self },
            MergeStep::Append { part } => Files {
                final_file: Some(self.final_file->Some_0 + self.parts[part as int]->Some_0),
                ..self
            },
            MergeStep::Remove { part } => Files {
                parts: self.parts.update(part as int, None),
                ..self
            },
        }
    }

    /// The files after a list of steps, taken in order.
    pub open spec fn after_all(self, steps: Seq<MergeStep>) -> Files
        decreases steps.len(),
    {
        if steps.len() == 0 {
            self
        } else {
            self.after_all(steps.drop_last()).after(steps.last())
        }
    }

    /// Whether every step of the list can be taken when its turn comes.
    pub open spec fn allows_all(self, steps: Seq<MergeStep>) -> bool {
        forall|k: int|
            0 <= k < steps.len() ==> (#[trigger] self.after_all(steps.take(k))).allows(steps[k])
    }
}

/// The bytes of a resource that a range names.
pub open spec fn slice_of(resource: Seq<u8>, range: ByteRange) -> Seq<u8> {
    resource.subrange(range.start as int, range.end + 1)
}

/// What the part files hold when every range of a plan was fetched in full.
pub open spec fn split(resource: Seq<u8>, plan: Seq<ByteRange>) -> Seq<Seq<u8>> {
    Seq::new(plan.len(), |i: int| slice_of(resource, plan[i]))
}

/// Taking two lists of steps one after the other is taking their
/// concatenation.
pub proof fn lemma_after_all_concat(files: Files, first: Seq<MergeStep>, second: Seq<MergeStep>)
    ensures
        files.after_all(first + second) == files.after_all(first).after_all(second),
    decreases second.len(),
{
    if second.len() == 0 {
        assert(first + second =~= first);
    } else {
        lemma_after_all_concat(files, first, second.drop_last());
        assert((first + second).drop_last() =~= first + second.drop_last());
    }
}

/// Taking a list of one step is taking the step.
proof fn lemma_single_step(files: Files, step: MergeStep)
    ensures
        files.after_all(seq![step]) == files.after(step),
{
    reveal_with_fuel(Files::after_all, 2);
    assert(seq![step].drop_last() =~= Seq::<MergeStep>::empty());
}

/// The files once the final file was created and the first `copied` parts
/// were merged into it.
pub open spec fn merged_so_far(contents: Seq<Seq<u8>>, copied: int, no_cleanup: bool) -> Files {
    Files {
        final_file: Some(joined(contents.take(copied))),
        parts: Seq::new(
            contents.len(),
            |i: int|
                if i < copied && !no_cleanup {
                    None
                } else {
                    Some(contents[i])
                },
        ),
    }
}

/// A merge that gets as far as the first `copied` parts leaves the final
/// file with just these parts, in order: it is a beginning of what the whole
/// merge would give. Up to there every step can be taken.
pub proof fn lemma_merge_prefix(
    stale: Option<Seq<u8>>,
    contents: Seq<Seq<u8>>,
    copied: nat,
    no_cleanup: bool,
)
    requires
        copied <= contents.len(),
        contents.len() <= usize::MAX,
    ensures
        Files::before_merge(stale, contents).after_all(merge_plan(copied, no_cleanup))
            == merged_so_far(contents, copied as int, no_cleanup),
        Files::before_merge(stale, contents).allows_all(merge_plan(copied, no_cleanup)),
    decreases copied,
{
    let start = Files::before_merge(stale, contents);
    let plan = merge_plan(copied, no_cleanup);
    if copied == 0 {
        assert(plan =~= seq![MergeStep::CreateFinal]);
        lemma_single_step(start, MergeStep::CreateFinal);
        assert(contents.take(0) =~= Seq::<Seq<u8>>::empty());
        assert(start.after(MergeStep::CreateFinal).parts =~= merged_so_far(
            contents,
            0,
            no_cleanup,
        ).parts);
        assert forall|k: int| 0 <= k < plan.len() implies (#[trigger] start.after_all(
            plan.take(k),
        )).allows(plan[k]) by {}
    } else {
        let part = (copied - 1) as nat;
        let earlier = merge_plan(part, no_cleanup);
        let these = part_steps(part as int, no_cleanup);
        lemma_merge_prefix(stale, contents, part, no_cleanup);
        assert(plan =~= earlier + these);
        lemma_after_all_concat(start, earlier, these);
        let middle = merged_so_far(contents, part as int, no_cleanup);
        let copy = MergeStep::Append { part: part as usize };
        let delete = MergeStep::Remove { part: part as usize };
        assert(middle.allows(copy));
        lemma_joined_push(contents.take(part as int), contents[part as int]);
        assert(contents.take(part as int).push(contents[part as int]) =~= contents.take(
            copied as int,
        ));
        let copied_files = middle.after(copy);
        assert(copied_files.final_file == Some(joined(contents.take(copied as int))));
        if no_cleanup {
            assert(these =~= seq![copy]);
            lemma_single_step(middle, copy);
            assert(copied_files.parts =~= merged_so_far(contents, copied as int, no_cleanup).parts);
        } else {
            assert(these =~= seq![copy, delete]);
            assert(these.drop_last() =~= seq![copy]);
            lemma_single_step(middle, copy);
            assert(middle.after_all(these) == copied_files.after(delete));
            assert(copied_files.allows(delete));
            assert(copied_files.after(delete).parts =~= merged_so_far(
                contents,
                copied as int,
                no_cleanup,
            ).parts);
        }
        assert forall|k: int| 0 <= k < plan.len() implies (#[trigger] start.after_all(
            plan.take(k),
        )).allows(plan[k]) by {
            if k < earlier.len() {
                assert(plan.take(k) =~= earlier.take(k));
                assert(plan[k] == earlier[k]);
            } else if k == earlier.len() {
                assert(plan.take(k) =~= earlier);
            } else {
                assert(plan.take(k) =~= earlier + seq![copy]);
                lemma_after_all_concat(start, earlier, seq![copy]);
                lemma_single_step(middle, copy);
            }
        }
    }
}

/// What a merge leaves behind: the final file holds the parts one after the
/// other, in the order of the list, whatever it held before; the part files
/// are gone, or all still there where they are to be kept. No step asks for
/// a file that is not there.
pub proof fn lemma_merge_concatenates(
    stale: Option<Seq<u8>>,
    contents: Seq<Seq<u8>>,
    no_cleanup: bool,
)
    requires
        contents.len() <= usize::MAX,
    ensures
        ({
            let start = Files::before_merge(stale, contents);
            let end = start.after_all(merge_plan(contents.len(), no_cleanup));
            &&& start.allows_all(merge_plan(contents.len(), no_cleanup))
            &&& end.final_file == Some(joined(contents))
            &&& end.parts.len() == contents.len()
            &&& forall|i: int|
                0 <= i < contents.len() ==> #[trigger] end.parts[i] == if no_cleanup {
                    Some(contents[i])
                } else {
                    None
                }
        }),
{
    lemma_merge_prefix(stale, contents, contents.len(), no_cleanup);
    assert(contents.take(contents.len() as int) =~= contents);
}

/// The first `k` parts of a split resource, joined, are the resource up to
/// the end of range `k - 1`.
proof fn lemma_split_prefix(resource: Seq<u8>, workers: int, k: int)
    requires
        plannable(resource.len() as int, workers),
        resource.len() <= u64::MAX,
        workers <= usize::MAX,
        0 <= k <= workers,
    ensures
        joined(split(resource, planned(resource.len() as int, workers)).take(k))
            == resource.subrange(
            0,
            if k == 0 {
                0
            } else {
                planned(resource.len() as int, workers)[k - 1].end + 1
            },
        ),
    decreases k,
{
    let plan = planned(resource.len() as int, workers);
    let parts = split(resource, plan);
    lemma_plan_covers(resource.len() as int, workers);
    if k == 0 {
        assert(parts.take(0) =~= Seq::<Seq<u8>>::empty());
        assert(resource.subrange(0, 0) =~= Seq::<u8>::empty());
    } else {
        lemma_split_prefix(resource, workers, k - 1);
        let range = plan[k - 1];
        assert(range.wf());
        assert(range.end < resource.len()) by {
            assert(range.covers(range.end as int));
        }
        assert(parts.take(k).drop_last() =~= parts.take(k - 1));
        assert(parts.take(k).last() == slice_of(resource, range));
        if k == 1 {
            assert(range.start == 0);
        } else {
            assert(plan[k - 2].end + 1 == plan[k - 2 + 1].start);
        }
        assert(resource.subrange(0, range.start as int) + resource.subrange(
            range.start as int,
            range.end + 1,
        ) =~= resource.subrange(0, range.end + 1));
    }
}

/// Merge correctness: when a resource is split by any plan and every range
/// is fetched in full, merging the part files gives back the resource, byte
/// for byte, whether the size divides evenly by the workers or not.
pub proof fn lemma_merge_restores(
    resource: Seq<u8>,
    workers: int,
    stale: Option<Seq<u8>>,
    no_cleanup: bool,
)
    requires
        plannable(resource.len() as int, workers),
        resource.len() <= u64::MAX,
        workers <= usize::MAX,
    ensures
        joined(split(resource, planned(resource.len() as int, workers))) == resource,
        Files::before_merge(
            stale,
            split(resource, planned(resource.len() as int, workers)),
        ).after_all(merge_plan(workers as nat, no_cleanup)).final_file == Some(resource),
{
    let plan = planned(resource.len() as int, workers);
    let parts = split(resource, plan);
    lemma_plan_covers(resource.len() as int, workers);
    lemma_split_prefix(resource, workers, workers);
    assert(parts.take(workers) =~= parts);
    assert(resource.subrange(0, resource.len() as int) =~= resource);
    lemma_merge_concatenates(stale, parts, no_cleanup);
}

} // verus!
