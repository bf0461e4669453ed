//! Whole runs of the pipeline engine, and what holds of them.
//!
//! A run is the sequence of events that the caller reported, starting from
//! the engine's first state. Against it stands a model of the interpreter's
//! descriptor table: a pipe that was opened adds its two ends, a descriptor
//! that was closed leaves. The laws below say how many pipes and processes a
//! run creates, that it closes what it opened and nothing else, and that all
//! its processes are put into one group.

use crate::child::{clean, inherited, STDIN, STDOUT};
use crate::pipeline::{some_set, Action, Event, State};
use vstd::prelude::*;

verus! {

/// The state that the engine is in after the events of a run.
pub open spec fn replay(s: State, events: Seq<Event>) -> State
    decreases events.len(),
{
    if events.len() == 0 {
        s
    } else {
        replay(s, events.drop_last()).step(events.last())
    }
}

/// Number of pipes that were created in a run.
pub open spec fn pipes_opened(s: State, events: Seq<Event>) -> nat
    decreases events.len(),
{
    if events.len() == 0 {
        0
    } else {
        let before = replay(s, events.drop_last());
        pipes_opened(s, events.drop_last()) + if before.pending() is OpenPipe
            && events.last() is PipeOpened {
            1nat
        } else {
            0nat
        }
    }
}

/// Number of processes that were created in a run.
pub open spec fn processes_spawned(s: State, events: Seq<Event>) -> nat
    decreases events.len(),
{
    if events.len() == 0 {
        0
    } else {
        let before = replay(s, events.drop_last());
        processes_spawned(s, events.drop_last()) + if before.pending() is Spawn
            && events.last() is Spawned {
            1nat
        } else {
            0nat
        }
    }
}

/// What an action that ended in `event` does to the set of open descriptors.
pub open spec fn effect(table: Set<int>, action: Action, event: Event) -> Set<int> {
    match (action, event) {
        (Action::OpenPipe, Event::PipeOpened { read, write }) => table.insert(read as int).insert(
            write as int,
        ),
        (Action::Close(fd), Event::Done) => table.remove(fd as int),
        _ => table,
    }
}

/// The descriptors that are open in the interpreter after a run, where
/// `open` were open before it.
pub open spec fn descriptors(open: Set<int>, s: State, events: Seq<Event>) -> Set<int>
    decreases events.len(),
{
    if events.len() == 0 {
        open
    } else {
        effect(
            descriptors(open, s, events.drop_last()),
            replay(s, events.drop_last()).pending(),
            events.last(),
        )
    }
}

/// Whether the system can answer `action` with `event` while the descriptors
/// of `table` are open: the ends of a new pipe are two descriptors that were
/// not open, and an open descriptor can be closed.
pub open spec fn plausible(table: Set<int>, action: Action, event: Event) -> bool {
    match action {
        Action::OpenPipe => match event {
            Event::PipeOpened { read, write } => read != write && !table.contains(read as int)
                && !table.contains(write as int),
            Event::Failed => true,
            _ => false,
        },
        Action::Spawn(_) => event is Spawned || event is Failed,
        Action::JoinGroup { .. } => event is Done || event is Failed,
        Action::Close(fd) => if table.contains(fd as int) {
            event is Done
        } else {
            event is Failed
        },
        Action::Wait(_) => event is Done || event is Failed,
        Action::Finished => false,
    }
}

/// Whether every event of a run is one that the system can answer the
/// pending action with.
pub open spec fn faithful(open: Set<int>, s: State, events: Seq<Event>) -> bool
    decreases events.len(),
{
    events.len() == 0 || {
        &&& faithful(open, s, events.drop_last())
        &&& plausible(
            descriptors(open, s, events.drop_last()),
            replay(s, events.drop_last()).pending(),
            events.last(),
        )
    }
}

/// The descriptors that the engine holds open in a state.
pub open spec fn held(s: State) -> Set<int> {
    some_set(s.input) + some_set(s.pipe_read) + some_set(s.pipe_write)
}

/// Whether the descriptors that the engine holds differ from each other.
pub open spec fn distinct(s: State) -> bool {
    &&& s.input is Some && s.pipe_read is Some ==> s.input != s.pipe_read
    &&& s.input is Some && s.pipe_write is Some ==> s.input != s.pipe_write
    &&& s.pipe_read is Some && s.pipe_write is Some ==> s.pipe_read != s.pipe_write
}

/// Every run leads to a valid state.
pub proof fn lemma_replay_wf(s: State, events: Seq<Event>)
    requires
        s.wf(),
    ensures
        replay(s, events).wf(),
    decreases events.len(),
{
    if events.len() > 0 {
        lemma_replay_wf(s, events.drop_last());
        crate::pipeline::lemma_step_wf(replay(s, events.drop_last()), events.last());
    }
}

/// In a run that started from the first state, the engine counts right: the
/// processes on record are those that were spawned, and, unless something
/// failed, a pipe was opened for each stage before the current one but the
/// last, and for the current one if it holds one.
proof fn lemma_counts(n: nat, events: Seq<Event>)
    requires
        1 <= n <= usize::MAX,
    ensures
        ({
            let s = replay(State::start(n), events);
            &&& s.wf()
            &&& s.stages == n
            &&& processes_spawned(State::start(n), events) == s.records.len()
            &&& !s.failed ==> pipes_opened(State::start(n), events) == if s.stage < n {
                s.stage
            } else {
                (n - 1) as nat
            } + if s.pipe_read is Some {
                1nat
            } else {
                0nat
            }
        }),
    decreases events.len(),
{
    if events.len() > 0 {
        lemma_counts(n, events.drop_last());
        let before = replay(State::start(n), events.drop_last());
        crate::pipeline::lemma_step_wf(before, events.last());
    }
}

/// A pipeline of `n` stages in which no pipe and no process failed to be
/// created has, when it is finished, created `n - 1` pipes and `n`
/// processes.
pub proof fn law_pipes_and_processes(n: usize, events: Seq<Event>)
    requires
        n >= 1,
        replay(State::start(n as nat), events).pending() is Finished,
        !replay(State::start(n as nat), events).failed,
    ensures
        pipes_opened(State::start(n as nat), events) == n - 1,
        processes_spawned(State::start(n as nat), events) == n,
{
    lemma_counts(n as nat, events);
}

/// However a run goes, no more than `n - 1` pipes and `n` processes are
/// created for a pipeline of `n` stages.
pub proof fn law_no_more_than_needed(n: usize, events: Seq<Event>)
    requires
        n >= 1,
    ensures
        pipes_opened(State::start(n as nat), events) <= n - 1,
        processes_spawned(State::start(n as nat), events) <= n,
    decreases events.len(),
{
    lemma_counts(n as nat, events);
    if events.len() > 0 {
        law_no_more_than_needed(n, events.drop_last());
        lemma_counts(n as nat, events.drop_last());
    }
}

/// In a faithful run the interpreter's open descriptors are those that were
/// open before and, apart from them, those that the engine holds, which
/// differ from each other.
proof fn lemma_table(n: nat, open: Set<int>, events: Seq<Event>)
    requires
        1 <= n <= usize::MAX,
        faithful(open, State::start(n), events),
    ensures
        ({
            let s = replay(State::start(n), events);
            &&& s.wf()
            &&& descriptors(open, State::start(n), events) == open + held(s)
            &&& open.disjoint(held(s))
            &&& distinct(s)
        }),
    decreases events.len(),
{
    let start = State::start(n);
    if events.len() == 0 {
        assert(open + held(start) == open);
    } else {
        let prior = events.drop_last();
        let event = events.last();
        lemma_table(n, open, prior);
        let before = replay(start, prior);
        let table = descriptors(open, start, prior);
        let after = before.step(event);
        crate::pipeline::lemma_step_wf(before, event);
        assert(effect(table, before.pending(), event) == open + held(after));
    }
}

/// Descriptor leak freedom: when a pipeline is finished, whether all went
/// well or a pipe or a process could not be created, the descriptors open in
/// the interpreter are those that were open before it ran.
pub proof fn law_descriptors_restored(n: usize, open: Set<int>, events: Seq<Event>)
    requires
        n >= 1,
        faithful(open, State::start(n as nat), events),
        replay(State::start(n as nat), events).pending() is Finished,
    ensures
        descriptors(open, State::start(n as nat), events) == open,
{
    lemma_table(n as nat, open, events);
    let s = replay(State::start(n as nat), events);
    assert(held(s) == Set::<int>::empty());
    assert(open + held(s) == open);
}

/// Exactly-once release: whenever the engine asks for a descriptor to be
/// closed, that descriptor is open, and it is one that the pipeline opened
/// itself, not one that was open before.
pub proof fn law_closes_its_own(n: usize, open: Set<int>, events: Seq<Event>, fd: i32)
    requires
        n >= 1,
        faithful(open, State::start(n as nat), events),
        replay(State::start(n as nat), events).pending() == Action::Close(fd),
    ensures
        descriptors(open, State::start(n as nat), events).contains(fd as int),
        !open.contains(fd as int),
{
    lemma_table(n as nat, open, events);
    let s = replay(State::start(n as nat), events);
    assert(held(s).contains(fd as int));
}

/// One process group: the engine puts every process that it spawned into the
/// group whose id is the process id of the first stage, and spawns every
/// stage after the first with that group; the first stage is spawned to lead
/// a new group.
pub proof fn law_one_group(n: usize, events: Seq<Event>)
    requires
        n >= 1,
    ensures
        ({
            let s = replay(State::start(n as nat), events);
            match s.pending() {
                Action::JoinGroup { pid, group } => {
                    &&& s.records.len() > 0
                    &&& pid == s.records.last().pid
                    &&& group == s.records[0].pid
                    &&& s.records[0].stage_index == 0
                },
                Action::Spawn(context) => if context.index == 0 {
                    context.group is None
                } else {
                    s.records.len() > 0 && context.group == Some(s.records[0].pid)
                },
                _ => true,
            }
        }),
{
    lemma_replay_wf(State::start(n as nat), events);
}

/// Defaults at the ends: the first stage, and only the first, is spawned
/// without an input descriptor and without a group, so that it reads the
/// interpreter's standard input and leads the new group; the last stage, and
/// only the last, is spawned without an output descriptor, so that it writes
/// to the interpreter's standard output.
pub proof fn law_stage_defaults(n: usize, events: Seq<Event>)
    requires
        n >= 1,
        replay(State::start(n as nat), events).pending() is Spawn,
    ensures
        ({
            let s = replay(State::start(n as nat), events);
            let context = s.pending()->Spawn_0;
            &&& context.index == s.stage < n
            &&& context.is_first <==> context.index == 0
            &&& context.is_last <==> context.index + 1 == n
            &&& context.input is None <==> context.is_first
            &&& context.group is None <==> context.is_first
            &&& context.output is None <==> context.is_last
            &&& context.spare is None <==> context.is_last
        }),
{
    lemma_counts(n as nat, events);
}

/// In a faithful run of an interpreter whose standard input and output are
/// open, the descriptors that a stage is spawned with are exactly those that
/// the engine holds; they are open, differ from each other, and none of them
/// is the standard input or output. So a stage that closes them as its
/// set-up says keeps no end of a pipe open but as its own standard input and
/// output.
pub proof fn law_stage_descriptors(n: usize, open: Set<int>, events: Seq<Event>)
    requires
        n >= 1,
        open.contains(STDIN as int),
        open.contains(STDOUT as int),
        faithful(open, State::start(n as nat), events),
        replay(State::start(n as nat), events).pending() is Spawn,
    ensures
        ({
            let s = replay(State::start(n as nat), events);
            let context = s.pending()->Spawn_0;
            &&& clean(context)
            &&& inherited(context) == held(s)
            &&& inherited(context).subset_of(descriptors(open, State::start(n as nat), events))
            &&& inherited(context).disjoint(open)
        }),
{
    lemma_table(n as nat, open, events);
    let s = replay(State::start(n as nat), events);
    let context = s.pending()->Spawn_0;
    assert(inherited(context) =~= held(s));
    assert(s.input is Some ==> held(s).contains(s.input->0 as int));
    assert(s.pipe_read is Some ==> held(s).contains(s.pipe_read->0 as int));
    assert(s.pipe_write is Some ==> held(s).contains(s.pipe_write->0 as int));
}

/// The two ends of a pipe go to one stage: once a pipe was opened, the stage
/// that is spawned next gets its write end as output and, to close, its read
/// end; its input is what the engine held as input before.
pub proof fn law_pipe_ends(s: State, read: i32, write: i32)
    requires
        s.wf(),
        s.pending() is OpenPipe,
    ensures
        ({
            let next = s.step(Event::PipeOpened { read, write });
            &&& next.pending() is Spawn
            &&& next.pending()->Spawn_0.index == s.stage
            &&& next.pending()->Spawn_0.output == Some(write)
            &&& next.pending()->Spawn_0.spare == Some(read)
            &&& next.pending()->Spawn_0.input == s.input
        }),
{
}

/// After the engine was about to spawn a stage with `context`, the read end
/// of that stage's pipe stays where it is while the stage is the current
/// one, and is the engine's input while the stage after it is.
proof fn lemma_read_end_kept(n: nat, events: Seq<Event>, i: int, j: int)
    requires
        1 <= n <= usize::MAX,
        0 <= i <= j <= events.len(),
        replay(State::start(n), events.take(i)).pending() is Spawn,
    ensures
        ({
            let context = replay(State::start(n), events.take(i)).pending()->Spawn_0;
            let s = replay(State::start(n), events.take(j));
            &&& s.wf()
            &&& s.stages == n
            &&& s.stage >= context.index
            &&& s.stage == context.index && !s.failed ==> s.pipe_read == context.spare
            &&& s.stage == context.index + 1 && !s.failed ==> s.input == context.spare
        }),
    decreases j - i,
{
    let start = State::start(n);
    lemma_counts(n, events.take(i));
    if i < j {
        lemma_read_end_kept(n, events, i, j - 1);
        let before = replay(start, events.take(j - 1));
        assert(events.take(j).drop_last() == events.take(j - 1));
        assert(events.take(j).last() == events[j - 1]);
        crate::pipeline::lemma_step_wf(before, events[j - 1]);
    }
}

/// Wiring: the input descriptor that a stage is spawned with is the read end
/// that the stage before it left unused, which is the read end of the pipe
/// whose write end is that stage's output.
pub proof fn law_wiring(n: usize, events: Seq<Event>, i: int, j: int)
    requires
        n >= 1,
        0 <= i <= j <= events.len(),
        replay(State::start(n as nat), events.take(i)).pending() is Spawn,
        replay(State::start(n as nat), events.take(j)).pending() is Spawn,
        replay(State::start(n as nat), events.take(j)).pending()->Spawn_0.index == replay(
            State::start(n as nat),
            events.take(i),
        ).pending()->Spawn_0.index + 1,
    ensures
        ({
            let upstream = replay(State::start(n as nat), events.take(i)).pending()->Spawn_0;
            let downstream = replay(State::start(n as nat), events.take(j)).pending()->Spawn_0;
            &&& upstream.output is Some
            &&& upstream.spare is Some
            &&& downstream.input == upstream.spare
        }),
{
    lemma_read_end_kept(n as nat, events, i, j);
    lemma_replay_wf(State::start(n as nat), events.take(i));
}

} // verus!
