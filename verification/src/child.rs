//! What a freshly spawned stage does to itself before it runs its command:
//! it enters the pipeline's process group, moves its ends of the pipes onto
//! its standard input and output, and closes every descriptor of the
//! pipeline that it inherited.

use crate::pipeline::{some_set, StageContext};
use vstd::prelude::*;

verus! {

/// The descriptor of the standard input.
pub const STDIN: i32 = 0;

/// The descriptor of the standard output.
pub const STDOUT: i32 = 1;

/// The status with which the process of a stage ends once a built-in has run
/// in it.
pub const STAGE_DONE: i32 = 0;

/// One step of a stage's set-up.
#[derive(Clone, Copy, Debug, PartialEq, Eq)]
pub enum Setup {
    /// Join the process group, or lead a new one where none is given.
    EnterGroup(Option<i32>),
    /// Make descriptor `to` refer to what `from` refers to.
    Duplicate { from: i32, to: i32 },
    /// Close the descriptor.
    Close(i32),
}

/// The steps that bind `fd`, if there is one, to a standard descriptor: it is
/// duplicated onto `slot`, and `fd` itself is closed.
pub open spec fn rebound(steps: Seq<Setup>, fd: Option<i32>, slot: i32) -> Seq<Setup> {
    match fd {
        Some(fd) => steps.push(Setup::Duplicate { from: fd, to: slot }).push(Setup::Close(fd)),
        None => steps,
    }
}

/// The steps that close `fd`, if there is one.
pub open spec fn released(steps: Seq<Setup>, fd: Option<i32>) -> Seq<Setup> {
    match fd {
        Some(fd) => steps.push(Setup::Close(fd)),
        None => steps,
    }
}

/// The set-up of a stage, in order: the group, the input, the output, and the
/// inherited descriptor that the stage has no use for.
pub open spec fn setup_of(context: StageContext) -> Seq<Setup> {
    released(
        rebound(
            rebound(seq![Setup::EnterGroup(context.group)], context.input, STDIN),
            context.output,
            STDOUT,
        ),
        context.spare,
    )
}

/// Computes the set-up of a stage.
pub fn child_setup(context: &StageContext) -> (steps: Vec<Setup>)
    ensures
        steps@ == setup_of(*context),
{
    let mut steps: Vec<Setup> = Vec::new();
    steps.push(Setup::EnterGroup(context.group));
    assert(steps@ == seq![Setup::EnterGroup(context.group)]);
    if let Some(fd) = context.input {
        steps.push(Setup::Duplicate { from: fd, to: STDIN });
        steps.push(Setup::Close(fd));
    }
    if let Some(fd) = context.output {
        steps.push(Setup::Duplicate { from: fd, to: STDOUT });
        steps.push(Setup::Close(fd));
    }
    if let Some(fd) = context.spare {
        steps.push(Setup::Close(fd));
    }
    steps
}

/// What a step does to a descriptor table, which maps each open descriptor to
/// the stream that it refers to.
pub open spec fn apply<T>(table: Map<int, T>, step: Setup) -> Map<int, T> {
    match step {
        Setup::EnterGroup(_) => table,
        Setup::Duplicate { from, to } => if table.dom().contains(from as int) {
            table.insert(to as int, table[from as int])
        } else {
            table
        },
        Setup::Close(fd) => table.remove(fd as int),
    }
}

/// What a sequence of steps does to a descriptor table.
pub open spec fn apply_all<T>(table: Map<int, T>, steps: Seq<Setup>) -> Map<int, T>
    decreases steps.len(),
{
    if steps.len() == 0 {
        table
    } else {
        apply(apply_all(table, steps.drop_last()), steps.last())
    }
}

/// The descriptors of the pipeline that a stage inherits.
pub open spec fn inherited(context: StageContext) -> Set<int> {
    some_set(context.input) + some_set(context.output) + some_set(context.spare)
}

/// Whether the descriptors of a context differ from each other and from the
/// standard input and output.
pub open spec fn clean(context: StageContext) -> bool {
    &&& context.input != Some(STDIN) && context.input != Some(STDOUT)
    &&& context.output != Some(STDIN) && context.output != Some(STDOUT)
    &&& context.spare != Some(STDIN) && context.spare != Some(STDOUT)
    &&& context.input is Some ==> context.input != context.output && context.input
        != context.spare
    &&& context.output is Some ==> context.output != context.spare
}

/// Whether `after` holds at descriptor `slot` what the stage was to get
/// there: the stream of `fd`, or, where there is no `fd`, what `before` held
/// at `slot`.
pub open spec fn bound<T>(before: Map<int, T>, after: Map<int, T>, fd: Option<i32>, slot: i32)
    -> bool {
    match fd {
        Some(fd) => after.dom().contains(slot as int) && after[slot as int] == before[fd as int],
        None => after.dom().contains(slot as int) == before.dom().contains(slot as int) && (
        before.dom().contains(slot as int) ==> after[slot as int] == before[slot as int]),
    }
}

/// After its set-up a stage reads the previous stage's pipe on its standard
/// input and writes into its own pipe on its standard output, where there is
/// such a pipe, and has closed every descriptor of the pipeline that it
/// inherited; all its other descriptors are as they were.
pub proof fn law_child_streams<T>(context: StageContext, table: Map<int, T>)
    requires
        clean(context),
        inherited(context).subset_of(table.dom()),
    ensures
        ({
            let after = apply_all(table, setup_of(context));
            &&& bound(table, after, context.input, STDIN)
            &&& bound(table, after, context.output, STDOUT)
            &&& forall|fd: int|
                fd != STDIN && fd != STDOUT ==> (after.dom().contains(fd) <==> table.dom().contains(
                    fd,
                ) && !inherited(context).contains(fd))
            &&& forall|fd: int|
                fd != STDIN && fd != STDOUT && after.dom().contains(fd) ==> after[fd] == table[fd]
        }),
{
    let s0 = seq![Setup::EnterGroup(context.group)];
    let s1 = rebound(s0, context.input, STDIN);
    let s2 = rebound(s1, context.output, STDOUT);
    assert(s0.drop_last() == Seq::<Setup>::empty());
    reveal_with_fuel(apply_all, 2);
    assert(apply_all(table, s0) == table);
    lemma_rebound(table, s0, context.input, STDIN);
    lemma_rebound(table, s1, context.output, STDOUT);
    lemma_released(table, s2, context.spare);
    if context.input is Some {
        assert(table.dom().contains(context.input->0 as int));
    }
    if context.output is Some {
        assert(table.dom().contains(context.output->0 as int));
    }
    if context.spare is Some {
        assert(table.dom().contains(context.spare->0 as int));
    }
}

/// What the steps of `rebound` do, after the steps before them.
proof fn lemma_rebound<T>(table: Map<int, T>, steps: Seq<Setup>, fd: Option<i32>, slot: i32)
    ensures
        apply_all(table, rebound(steps, fd, slot)) == match fd {
            Some(fd) => apply(
                apply(apply_all(table, steps), Setup::Duplicate { from: fd, to: slot }),
                Setup::Close(fd),
            ),
            None => apply_all(table, steps),
        },
{
    if let Some(fd) = fd {
        let dup = Setup::Duplicate { from: fd, to: slot };
        let both = steps.push(dup).push(Setup::Close(fd));
        assert(both.drop_last() == steps.push(dup));
        assert(steps.push(dup).drop_last() == steps);
        assert(apply_all(table, steps.push(dup)) == apply(apply_all(table, steps), dup));
        assert(apply_all(table, both) == apply(apply_all(table, steps.push(dup)), both.last()));
    }
}

/// What the step of `released` does, after the steps before it.
proof fn lemma_released<T>(table: Map<int, T>, steps: Seq<Setup>, fd: Option<i32>)
    ensures
        apply_all(table, released(steps, fd)) == match fd {
            Some(fd) => apply(apply_all(table, steps), Setup::Close(fd)),
            None => apply_all(table, steps),
        },
{
    if let Some(fd) = fd {
        assert(steps.push(Setup::Close(fd)).drop_last() == steps);
    }
}

} // verus!
