//! What the operations of a task do to the files, on a model of the file
//! system.
//!
//! The model is a map from paths to what stands there; two paths that differ
//! as text are taken to be two places. It says what each operation changes
//! when it succeeds and what it may change when it fails. The laws below
//! follow an execution through any run of operations that the model allows,
//! and say how the files stand at the end.

use vstd::prelude::*;
use crate::dispatcher::DispatchView;
use crate::executor::{
    ExecutionView,
    FsOpView,
    Outcome,
    ReplyView,
    Stage,
    spec_advance,
    spec_begin,
    spec_request,
};

verus! {

/// What stands at a path.
pub enum Node {
    File(Seq<u8>),
    Dir,
}

/// `after` is `before` everywhere but at `path`.
pub open spec fn spec_same_but_at(
    before: Map<Seq<char>, Node>,
    after: Map<Seq<char>, Node>,
    path: Seq<char>,
) -> bool {
    forall|p: Seq<char>|
        p != path ==> (#[trigger] after.contains_key(p) == before.contains_key(p) && (
        before.contains_key(p) ==> after[p] == before[p]))
}

/// Whether `op`, performed on `before`, can be answered by `reply` and leave
/// `after`.
///
/// A copy that succeeds puts the bytes of the source at the destination; one
/// that fails, or one of a file onto itself, may leave anything at the
/// destination and changes nothing else. A rename or a deletion that fails
/// changes nothing. Questions change nothing, and are answered truly or not
/// at all.
pub open spec fn spec_performs(
    before: Map<Seq<char>, Node>,
    op: FsOpView,
    reply: ReplyView,
    after: Map<Seq<char>, Node>,
) -> bool {
    match (op, reply) {
        (FsOpView::Copy { from, to }, ReplyView::Done) => {
            &&& before.contains_key(from)
            &&& before[from] is File
            &&& if from != to {
                after == before.insert(to, before[from])
            } else {
                spec_same_but_at(before, after, to)
            }
        },
        (FsOpView::Copy { from, to }, ReplyView::Failed) => spec_same_but_at(before, after, to),
        (FsOpView::Rename { from, to }, ReplyView::Done) => {
            &&& before.contains_key(from)
            &&& after == before.remove(from).insert(to, before[from])
        },
        (FsOpView::Rename { .. }, ReplyView::Failed) => after == before,
        (FsOpView::Remove { path }, ReplyView::Done) => {
            &&& before.contains_key(path)
            &&& before[path] is File
            &&& after == before.remove(path)
        },
        (FsOpView::Remove { .. }, ReplyView::Failed) => after == before,
        (FsOpView::IsDir { path }, ReplyView::Directory(is_dir)) => {
            &&& is_dir == (before.contains_key(path) && before[path] is Dir)
            &&& after == before
        },
        (FsOpView::IsDir { .. }, ReplyView::Failed) => after == before,
        (FsOpView::Read { path }, ReplyView::Contents(bytes)) => {
            &&& before.contains_key(path)
            &&& before[path] == Node::File(bytes)
            &&& after == before
        },
        (FsOpView::Read { .. }, ReplyView::Failed) => after == before,
        _ => false,
    }
}

/// One operation as it went: the reply, and the files after it.
pub struct FsStep {
    pub reply: ReplyView,
    pub after: Map<Seq<char>, Node>,
}

/// Whether `steps` is a run of the execution `e` on the files `files`: each
/// step performs the operation that the execution asks for at that point.
pub open spec fn spec_is_run(e: ExecutionView, files: Map<Seq<char>, Node>, steps: Seq<FsStep>) -> bool
    decreases steps.len(),
{
    if steps.len() == 0 {
        true
    } else {
        &&& spec_request(e) matches Some(op)
        &&& spec_performs(files, op, steps[0].reply, steps[0].after)
        &&& spec_is_run(spec_advance(e, steps[0].reply), steps[0].after, steps.drop_first())
    }
}

/// The execution after all of `steps`.
pub open spec fn spec_end(e: ExecutionView, steps: Seq<FsStep>) -> ExecutionView
    decreases steps.len(),
{
    if steps.len() == 0 {
        e
    } else {
        spec_end(spec_advance(e, steps[0].reply), steps.drop_first())
    }
}

/// The files after all of `steps`.
pub open spec fn spec_end_files(files: Map<Seq<char>, Node>, steps: Seq<FsStep>) -> Map<
    Seq<char>,
    Node,
> {
    if steps.len() == 0 {
        files
    } else {
        steps.last().after
    }
}

/// The file stands at `path` in `after` as it stood in `before`.
pub open spec fn spec_kept(
    before: Map<Seq<char>, Node>,
    after: Map<Seq<char>, Node>,
    path: Seq<char>,
) -> bool {
    after.contains_key(path) == before.contains_key(path) && (before.contains_key(path)
        ==> after[path] == before[path])
}

proof fn lemma_first_step(e: ExecutionView, files: Map<Seq<char>, Node>, steps: Seq<FsStep>)
    requires
        spec_is_run(e, files, steps),
        steps.len() > 0,
    ensures
        spec_request(e) is Some,
        spec_performs(files, spec_request(e)->0, steps[0].reply, steps[0].after),
        spec_is_run(spec_advance(e, steps[0].reply), steps[0].after, steps.drop_first()),
        spec_end(e, steps) == spec_end(spec_advance(e, steps[0].reply), steps.drop_first()),
        spec_end_files(files, steps) == spec_end_files(steps[0].after, steps.drop_first()),
{
    if steps.len() > 1 {
        assert(steps.drop_first().last() == steps.last());
    }
}

/// A copy never deletes or changes its source. Where it ends as `Copied`,
/// source and destination both stand, with the same bytes.
pub proof fn law_copy_keeps_source(
    dispatch: DispatchView,
    files: Map<Seq<char>, Node>,
    steps: Seq<FsStep>,
)
    requires
        dispatch.task is Copy,
        spec_begin(dispatch).source != spec_begin(dispatch).destination,
        spec_is_run(spec_begin(dispatch), files, steps),
    ensures
        spec_kept(files, spec_end_files(files, steps), spec_begin(dispatch).source),
        spec_end(spec_begin(dispatch), steps).stage == Stage::Finished(Outcome::Copied) ==> {
            let end = spec_end_files(files, steps);
            &&& files.contains_key(spec_begin(dispatch).source)
            &&& end.contains_key(spec_begin(dispatch).destination)
            &&& end[spec_begin(dispatch).destination] == files[spec_begin(dispatch).source]
            &&& end[spec_begin(dispatch).source] == files[spec_begin(dispatch).source]
            &&& files[spec_begin(dispatch).source] is File
        },
{
    let e = spec_begin(dispatch);
    if steps.len() > 0 {
        lemma_first_step(e, files, steps);
        let rest = steps.drop_first();
        let after = steps[0].after;
        assert(after.contains_key(e.source) == files.contains_key(e.source));
        if rest.len() > 0 {
            lemma_first_step(spec_advance(e, steps[0].reply), after, rest);
        }
    }
}

/// A move ends in one of four ways. Renamed, or copied and deleted: the
/// source is gone and the destination holds what the source held. Copied
/// but not deleted: the destination holds it and the source still stands,
/// unchanged. Not even copied: the source stands as it stood.
pub proof fn law_move_outcomes(
    dispatch: DispatchView,
    files: Map<Seq<char>, Node>,
    steps: Seq<FsStep>,
    outcome: Outcome,
)
    requires
        dispatch.task is Move,
        spec_begin(dispatch).source != spec_begin(dispatch).destination,
        spec_is_run(spec_begin(dispatch), files, steps),
        spec_end(spec_begin(dispatch), steps).stage == Stage::Finished(outcome),
    ensures
        ({
            let source = spec_begin(dispatch).source;
            let destination = spec_begin(dispatch).destination;
            let end = spec_end_files(files, steps);
            match outcome {
                Outcome::Moved | Outcome::MovedByFallback => {
                    &&& files.contains_key(source)
                    &&& !end.contains_key(source)
                    &&& end.contains_key(destination)
                    &&& end[destination] == files[source]
                },
                Outcome::MovedWithDuplicate => {
                    &&& files.contains_key(source)
                    &&& spec_kept(files, end, source)
                    &&& end.contains_key(destination)
                    &&& end[destination] == files[source]
                },
                Outcome::MoveFailed => spec_kept(files, end, source),
                _ => false,
            }
        }),
{
    let e = spec_begin(dispatch);
    assert(steps.len() > 0);
    lemma_first_step(e, files, steps);
    let e1 = spec_advance(e, steps[0].reply);
    let f1 = steps[0].after;
    let rest1 = steps.drop_first();
    if rest1.len() > 0 {
        lemma_first_step(e1, f1, rest1);
        let e2 = spec_advance(e1, rest1[0].reply);
        let f2 = rest1[0].after;
        let rest2 = rest1.drop_first();
        assert(f1 == files);
        assert(f2.contains_key(e.source) == files.contains_key(e.source));
        if rest2.len() > 0 {
            lemma_first_step(e2, f2, rest2);
            let e3 = spec_advance(e2, rest2[0].reply);
            let f3 = rest2[0].after;
            let rest3 = rest2.drop_first();
            if rest3.len() > 0 {
                lemma_first_step(e3, f3, rest3);
            }
        }
    }
}

/// An unpack attempt changes no file. Where the directory of the file's name
/// is there, and the question for it is answered, the attempt ends with that
/// one question: the file is not read, and nothing is opened.
pub proof fn law_unpack_skips_what_is_unpacked(
    dispatch: DispatchView,
    files: Map<Seq<char>, Node>,
    steps: Seq<FsStep>,
)
    requires
        dispatch.task is TryUnpack,
        spec_is_run(spec_begin(dispatch), files, steps),
    ensures
        spec_end_files(files, steps) == files,
        ({
            let destination = spec_begin(dispatch).destination;
            &&& files.contains_key(destination)
            &&& files[destination] is Dir
            &&& steps.len() > 0
            &&& steps[0].reply != ReplyView::Failed
        }) ==> {
            &&& steps.len() == 1
            &&& spec_request(spec_begin(dispatch)) == Some(
                FsOpView::IsDir { path: spec_begin(dispatch).destination },
            )
            &&& spec_end(spec_begin(dispatch), steps).stage == Stage::Finished(
                Outcome::AlreadyUnpacked,
            )
        },
{
    let e = spec_begin(dispatch);
    if steps.len() > 0 {
        lemma_first_step(e, files, steps);
        let e1 = spec_advance(e, steps[0].reply);
        let f1 = steps[0].after;
        let rest1 = steps.drop_first();
        if rest1.len() > 0 {
            lemma_first_step(e1, f1, rest1);
            let e2 = spec_advance(e1, rest1[0].reply);
            let f2 = rest1[0].after;
            let rest2 = rest1.drop_first();
            if rest2.len() > 0 {
                lemma_first_step(e2, f2, rest2);
            }
        }
    }
}

} // verus!
