//! The pipeline engine: a state machine that says, one system call at a time,
//! how the stages of a pipeline are created, wired to each other and waited
//! for.
//!
//! The engine performs nothing itself. It hands out an [`Action`]; the caller
//! carries it out and reports what happened as an [`Event`]; the engine then
//! hands out the next action. The descriptors that the engine holds at any
//! moment are part of its state, so that what it closes, and when, can be
//! stated and proved.

use crate::dispatcher::{builtin_check, is_builtin};
use crate::parser::{parse, parsed, split_stages, stage_texts};
use crate::CommandView;
use crate::UserCommand;
use vstd::prelude::*;

verus! {

/// What one stage of a pipeline is spawned with.
#[derive(Clone, Copy, Debug, PartialEq, Eq)]
pub struct StageContext {
    /// Position of the stage in the pipeline, from 0.
    pub index: usize,
    /// Whether this is the first stage.
    pub is_first: bool,
    /// Whether this is the last stage.
    pub is_last: bool,
    /// The descriptor that becomes the stage's standard input; `None` leaves
    /// the standard input of the interpreter in place.
    pub input: Option<i32>,
    /// The descriptor that becomes the stage's standard output; `None` leaves
    /// the standard output of the interpreter in place.
    pub output: Option<i32>,
    /// The process group that the stage joins; `None` makes the stage the
    /// leader of a new group.
    pub group: Option<i32>,
    /// The read end of the pipe that the stage writes into. The stage
    /// inherits it and has no use for it.
    pub spare: Option<i32>,
}

/// A process that was spawned for a stage and has not been waited for yet.
#[derive(Clone, Copy, Debug, PartialEq, Eq)]
pub struct ProcessRecord {
    pub pid: i32,
    pub stage_index: usize,
}

/// What the caller is to do next.
#[derive(Clone, Copy, Debug, PartialEq, Eq)]
pub enum Action {
    /// Create a pipe, and report `PipeOpened` or `Failed`.
    OpenPipe,
    /// Create a process for the stage, and report `Spawned` or `Failed`.
    Spawn(StageContext),
    /// Put process `pid` into process group `group`, and report `Done`.
    JoinGroup { pid: i32, group: i32 },
    /// Close the descriptor, and report `Done`.
    Close(i32),
    /// Wait until process `pid` has terminated, and report `Done`.
    Wait(i32),
    /// Nothing is left to do.
    Finished,
}

/// What came of the last action.
#[derive(Clone, Copy, Debug, PartialEq, Eq)]
pub enum Event {
    /// A pipe was created, with these two ends.
    PipeOpened { read: i32, write: i32 },
    /// A process was created, with this id.
    Spawned { pid: i32 },
    /// The action was carried out.
    Done,
    /// The action could not be carried out.
    Failed,
}

/// The engine's state, as a mathematical value.
pub struct State {
    /// Number of stages of the pipeline.
    pub stages: nat,
    /// Index of the stage that is being set up; `stages` once all are.
    pub stage: nat,
    /// Whether the process of the current stage exists.
    pub spawned: bool,
    /// Whether that process was put into the pipeline's group.
    pub grouped: bool,
    /// Whether a pipe or a process could not be created.
    pub failed: bool,
    /// Read end of the pipe that the previous stage writes into, while open.
    pub input: Option<i32>,
    /// Read end of the pipe that the current stage writes into, while open.
    pub pipe_read: Option<i32>,
    /// Write end of that pipe, while open.
    pub pipe_write: Option<i32>,
    /// The pipeline's process group: the id of the first stage's process.
    pub group: Option<i32>,
    /// The processes spawned so far, in stage order.
    pub records: Seq<ProcessRecord>,
    /// How many of them have been waited for.
    pub reaped: nat,
}

/// The set that holds the descriptor, if there is one.
pub open spec fn some_set(fd: Option<i32>) -> Set<int> {
    match fd {
        Some(fd) => set![fd as int],
        None => Set::empty(),
    }
}

/// One of the three places in which the engine holds a descriptor.
pub enum Slot {
    Input,
    PipeRead,
    PipeWrite,
}

impl State {
    /// The state in which a pipeline of `stages` stages starts.
    pub open spec fn start(stages: nat) -> State {
        State {
            stages,
            stage: 0,
            spawned: false,
            grouped: false,
            failed: false,
            input: None,
            pipe_read: None,
            pipe_write: None,
            group: None,
            records: Seq::empty(),
            reaped: 0,
        }
    }

    /// Whether the set-up of stages is over: all were spawned, or one could
    /// not be.
    pub open spec fn winding_down(self) -> bool {
        self.failed || self.stage >= self.stages
    }

    /// What the current stage is spawned with.
    pub open spec fn context(self) -> StageContext {
        StageContext {
            index: self.stage as usize,
            is_first: self.stage == 0,
            is_last: self.stage + 1 == self.stages,
            input: self.input,
            output: self.pipe_write,
            group: self.group,
            spare: self.pipe_read,
        }
    }

    /// The place whose descriptor is closed next, if any is to be closed now.
    ///
    /// After a stage was spawned, the interpreter closes its copy of the write
    /// end, then the read end that it handed to the stage; the read end of the
    /// new pipe stays open for the next stage. After a failure it closes all
    /// that it holds.
    pub open spec fn closing(self) -> Option<Slot> {
        if self.failed {
            if self.pipe_write is Some {
                Some(Slot::PipeWrite)
            } else if self.pipe_read is Some {
                Some(Slot::PipeRead)
            } else if self.input is Some {
                Some(Slot::Input)
            } else {
                None
            }
        } else if self.spawned && self.grouped {
            if self.pipe_write is Some {
                Some(Slot::PipeWrite)
            } else if self.input is Some {
                Some(Slot::Input)
            } else {
                None
            }
        } else {
            None
        }
    }

    /// The descriptor held in a place.
    pub open spec fn held_in(self, slot: Slot) -> Option<i32> {
        match slot {
            Slot::Input => self.input,
            Slot::PipeRead => self.pipe_read,
            Slot::PipeWrite => self.pipe_write,
        }
    }

    /// The state with a place emptied.
    pub open spec fn without(self, slot: Slot) -> State {
        match slot {
            Slot::Input => State { input: None, ..self },
            Slot::PipeRead => State { pipe_read: None, ..self },
            Slot::PipeWrite => State { pipe_write: None, ..self },
        }
    }

    /// The action that the engine waits for in this state.
    pub open spec fn pending(self) -> Action {
        if self.closing() is Some {
            Action::Close(self.held_in(self.closing()->0)->0)
        } else if self.winding_down() {
            if self.reaped < self.records.len() {
                Action::Wait(self.records[self.reaped as int].pid)
            } else {
                Action::Finished
            }
        } else if !self.spawned {
            if self.stage + 1 < self.stages && self.pipe_read is None {
                Action::OpenPipe
            } else {
                Action::Spawn(self.context())
            }
        } else {
            Action::JoinGroup { pid: self.records.last().pid, group: self.group->0 }
        }
    }

    /// Moves on to the next stage once the current one is spawned, grouped
    /// and nothing is left to close for it: the read end of its pipe becomes
    /// the next stage's input.
    pub open spec fn settle(self) -> State {
        if !self.failed && self.spawned && self.grouped && self.closing() is None {
            State {
                stage: self.stage + 1,
                spawned: false,
                grouped: false,
                input: self.pipe_read,
                pipe_read: None,
                ..self
            }
        } else {
            self
        }
    }

    /// The state after `event` was reported. An event that does not answer
    /// the pending action changes nothing.
    pub open spec fn step(self, event: Event) -> State {
        match self.pending() {
            Action::OpenPipe => match event {
                Event::PipeOpened { read, write } => State {
                    pipe_read: Some(read),
                    pipe_write: Some(write),
                    ..self
                },
                Event::Failed => State { failed: true, ..self },
                _ => self,
            },
            Action::Spawn(context) => match event {
                Event::Spawned { pid } => State {
                    spawned: true,
                    group: if self.stage == 0 {
                        Some(pid)
                    } else {
                        self.group
                    },
                    records: self.records.push(
                        ProcessRecord { pid, stage_index: context.index },
                    ),
                    ..self
                },
                Event::Failed => State { failed: true, ..self },
                _ => self,
            },
            Action::JoinGroup { .. } => match event {
                Event::Done | Event::Failed => State { grouped: true, ..self }.settle(),
                _ => self,
            },
            Action::Close(_) => match event {
                Event::Done | Event::Failed => self.without(self.closing()->0).settle(),
                _ => self,
            },
            Action::Wait(_) => match event {
                Event::Done | Event::Failed => State { reaped: self.reaped + 1, ..self },
                _ => self,
            },
            Action::Finished => self,
        }
    }

    /// What holds of every state that the engine reaches.
    pub open spec fn wf(self) -> bool {
        &&& 1 <= self.stages <= usize::MAX
        &&& self.stage <= self.stages
        &&& self.spawned ==> self.stage < self.stages && !self.failed
        &&& self.grouped ==> self.spawned
        &&& self.spawned && self.grouped ==> self.closing() is Some
        &&& self.records.len() == self.stage + if self.spawned {
            1nat
        } else {
            0nat
        }
        &&& self.reaped <= self.records.len()
        &&& self.reaped > 0 ==> self.winding_down() && self.closing() is None
        &&& self.group is Some <==> self.records.len() > 0
        &&& self.records.len() > 0 ==> self.group == Some(self.records[0].pid)
        &&& forall|k: int|
            0 <= k < self.records.len() ==> (#[trigger] self.records[k]).stage_index == k
        &&& self.input is Some ==> 0 < self.stage < self.stages
        &&& !self.failed && 0 < self.stage < self.stages ==> self.input is Some
        &&& self.pipe_write is Some ==> self.pipe_read is Some
        &&& self.pipe_read is Some ==> self.stage + 1 < self.stages
        &&& self.spawned && self.stage + 1 < self.stages ==> self.pipe_read is Some
        &&& !self.failed && self.pipe_read is Some && !(self.spawned && self.grouped)
            ==> self.pipe_write is Some
    }
}

/// A step leads from a valid state to a valid state.
pub proof fn lemma_step_wf(s: State, event: Event)
    requires
        s.wf(),
    ensures
        s.step(event).wf(),
{
}

/// The invocations that the segments of a pipeline encode; `None` where there
/// is no segment, or where one of them encodes nothing.
pub open spec fn parsed_all(segments: Seq<Seq<char>>) -> Option<Seq<CommandView>> {
    if segments.len() > 0 && forall|i: int|
        0 <= i < segments.len() ==> parsed(#[trigger] segments[i]) is Some {
        Some(Seq::new(segments.len(), |i: int| parsed(segments[i])->0))
    } else {
        None
    }
}

/// The engine of one pipeline.
#[derive(Debug)]
pub struct Pipeline {
    commands: Vec<UserCommand>,
    stage: usize,
    spawned: bool,
    grouped: bool,
    failed: bool,
    input: Option<i32>,
    pipe_read: Option<i32>,
    pipe_write: Option<i32>,
    group: Option<i32>,
    records: Vec<ProcessRecord>,
    reaped: usize,
}

impl View for Pipeline {
    type V = State;

    closed spec fn view(&self) -> State {
        State {
            stages: self.commands.len() as nat,
            stage: self.stage as nat,
            spawned: self.spawned,
            grouped: self.grouped,
            failed: self.failed,
            input: self.input,
            pipe_read: self.pipe_read,
            pipe_write: self.pipe_write,
            group: self.group,
            records: self.records@,
            reaped: self.reaped as nat,
        }
    }
}

impl Pipeline {
    /// The invocations of the stages, in order.
    pub closed spec fn commands(&self) -> Seq<CommandView> {
        self.commands.deep_view()
    }

    /// Whether the engine is in a valid state.
    pub open spec fn wf(&self) -> bool {
        self@.wf() && self@.stages == self.commands().len()
    }

    /// Number of stages.
    pub fn stages(&self) -> (n: usize)
        ensures
            n == self@.stages,
    {
        self.commands.len()
    }

    /// The invocation of stage `index`.
    pub fn command(&self, index: usize) -> (r: Option<&UserCommand>)
        ensures
            match r {
                Some(c) => index < self.commands().len() && c@ == self.commands()[index as int],
                None => index >= self.commands().len(),
            },
    {
        if index < self.commands.len() {
            Some(&self.commands[index])
        } else {
            None
        }
    }

    /// The processes spawned so far, in stage order.
    pub fn records(&self) -> (r: &Vec<ProcessRecord>)
        ensures
            r@ == self@.records,
    {
        &self.records
    }

    fn closing(&self) -> (slot: Option<Slot>)
        ensures
            slot == self@.closing(),
    {
        if self.failed {
            if self.pipe_write.is_some() {
                Some(Slot::PipeWrite)
            } else if self.pipe_read.is_some() {
                Some(Slot::PipeRead)
            } else if self.input.is_some() {
                Some(Slot::Input)
            } else {
                None
            }
        } else if self.spawned && self.grouped {
            if self.pipe_write.is_some() {
                Some(Slot::PipeWrite)
            } else if self.input.is_some() {
                Some(Slot::Input)
            } else {
                None
            }
        } else {
            None
        }
    }

    fn context(&self) -> (c: StageContext)
        requires
            self.wf(),
        ensures
            c == self@.context(),
    {
        StageContext {
            index: self.stage,
            is_first: self.stage == 0,
            is_last: self.commands.len() - self.stage == 1,
            input: self.input,
            output: self.pipe_write,
            group: self.group,
            spare: self.pipe_read,
        }
    }

    /// The action that the engine waits for.
    pub fn pending(&self) -> (action: Action)
        requires
            self.wf(),
        ensures
            action == self@.pending(),
    {
        match self.closing() {
            Some(Slot::PipeWrite) => Action::Close(self.pipe_write.unwrap()),
            Some(Slot::PipeRead) => Action::Close(self.pipe_read.unwrap()),
            Some(Slot::Input) => Action::Close(self.input.unwrap()),
            None => {
                if self.failed || self.stage >= self.commands.len() {
                    if self.reaped < self.records.len() {
                        Action::Wait(self.records[self.reaped].pid)
                    } else {
                        Action::Finished
                    }
                } else if !self.spawned {
                    if self.commands.len() - self.stage > 1 && self.pipe_read.is_none() {
                        Action::OpenPipe
                    } else {
                        Action::Spawn(self.context())
                    }
                } else {
                    Action::JoinGroup {
                        pid: self.records[self.records.len() - 1].pid,
                        group: self.group.unwrap(),
                    }
                }
            },
        }
    }

    fn settle(&mut self)
        requires
            old(self)@.spawned ==> old(self)@.stage < old(self)@.stages,
        ensures
            final(self)@ == old(self)@.settle(),
            final(self).commands() == old(self).commands(),
    {
        if !self.failed && self.spawned && self.grouped && self.closing().is_none() {
            self.stage = self.stage + 1;
            self.spawned = false;
            self.grouped = false;
            self.input = self.pipe_read;
            self.pipe_read = None;
        }
    }

    /// Takes in what came of the pending action and says what to do next.
    ///
    /// An event that does not answer the pending action changes nothing: the
    /// same action is handed out again.
    pub fn step(&mut self, event: Event) -> (next: Action)
        requires
            old(self).wf(),
        ensures
            final(self).wf(),
            final(self)@ == old(self)@.step(event),
            final(self).commands() == old(self).commands(),
            next == final(self)@.pending(),
    {
        proof {
            lemma_step_wf(self@, event);
        }
        match self.pending() {
            Action::OpenPipe => match event {
                Event::PipeOpened { read, write } => {
                    self.pipe_read = Some(read);
                    self.pipe_write = Some(write);
                },
                Event::Failed => {
                    self.failed = true;
                },
                _ => {},
            },
            Action::Spawn(context) => match event {
                Event::Spawned { pid } => {
                    self.spawned = true;
                    if self.stage == 0 {
                        self.group = Some(pid);
                    }
                    self.records.push(ProcessRecord { pid, stage_index: context.index });
                },
                Event::Failed => {
                    self.failed = true;
                },
                _ => {},
            },
            Action::JoinGroup { .. } => match event {
                Event::Done | Event::Failed => {
                    self.grouped = true;
                    self.settle();
                },
                _ => {},
            },
            Action::Close(_) => match event {
                Event::Done | Event::Failed => {
                    match self.closing() {
                        Some(Slot::PipeWrite) => {
                            self.pipe_write = None;
                        },
                        Some(Slot::PipeRead) => {
                            self.pipe_read = None;
                        },
                        Some(Slot::Input) => {
                            self.input = None;
                        },
                        None => {},
                    }
                    self.settle();
                },
                _ => {},
            },
            Action::Wait(_) => match event {
                Event::Done | Event::Failed => {
                    self.reaped = self.reaped + 1;
                },
                _ => {},
            },
            Action::Finished => {},
        }
        self.pending()
    }
}

/// Makes the engine for a pipeline from the text of its stages.
///
/// There is no engine for a pipeline without stages, nor for one with a stage
/// that holds no word: there is nothing to run then. A built-in command is
/// accepted as a stage like any other; it then runs in the process of its
/// stage, and what it does to that process (`cd`, `exit`) ends with it.
pub fn run_pipeline(segments: Vec<&str>) -> (r: Option<Pipeline>)
    ensures
        match r {
            Some(p) => {
                &&& p.wf()
                &&& p@ == State::start(segments.len() as nat)
                &&& Some(p.commands()) == parsed_all(segments.deep_view())
            },
            None => parsed_all(segments.deep_view()) is None,
        },
{
    if segments.len() == 0 {
        return None;
    }
    let mut commands: Vec<UserCommand> = Vec::new();
    let mut i: usize = 0;
    while i < segments.len()
        invariant
            i <= segments.len(),
            commands.len() == i,
            forall|k: int|
                0 <= k < i ==> parsed(#[trigger] segments.deep_view()[k]) == Some(
                    commands.deep_view()[k],
                ),
        decreases segments.len() - i,
    {
        match parse(segments[i]) {
            Some(command) => {
                let ghost before = commands.deep_view();
                commands.push(command);
                assert(commands.deep_view() == before.push(command@));
            },
            None => {
                assert(parsed(segments.deep_view()[i as int]) is None);
                return None;
            },
        }
        i += 1;
    }
    assert(commands.deep_view() == parsed_all(segments.deep_view())->0);
    Some(
        Pipeline {
            commands,
            stage: 0,
            spawned: false,
            grouped: false,
            failed: false,
            input: None,
            pipe_read: None,
            pipe_write: None,
            group: None,
            records: Vec::new(),
            reaped: 0,
        },
    )
}

/// How a single command is run.
#[derive(Debug)]
pub enum Dispatch {
    /// The line holds no command.
    Nothing,
    /// A built-in: it runs in the interpreter's own process.
    Builtin(UserCommand),
    /// An external program: it runs in a process of its own, which the
    /// interpreter waits for.
    External(UserCommand),
}

impl Dispatch {
    /// Number of processes that are created for the command.
    pub open spec fn processes(self) -> nat {
        match self {
            Dispatch::External(_) => 1,
            _ => 0,
        }
    }
}

/// Whether `d` is how the single command of `input` is run: a built-in in the
/// interpreter's own process, any other command in a process of its own.
pub open spec fn dispatches(d: Dispatch, input: Seq<char>) -> bool {
    match d {
        Dispatch::Nothing => parsed(input) is None,
        Dispatch::Builtin(c) => parsed(input) == Some(c@) && is_builtin(c@.cmd),
        Dispatch::External(c) => parsed(input) == Some(c@) && !is_builtin(c@.cmd),
    }
}

/// Decides how a line that holds a single command is run.
///
/// No process is created for a built-in: it runs in the process that goes on
/// with the session, where a change of the working directory lasts.
pub fn run(input: &str) -> (d: Dispatch)
    ensures
        dispatches(d, input@),
        parsed(input@) is Some && is_builtin(parsed(input@)->0.cmd) ==> d.processes() == 0,
{
    match parse(input) {
        None => Dispatch::Nothing,
        Some(command) => {
            if builtin_check(command.cmd.as_str()) {
                Dispatch::Builtin(command)
            } else {
                Dispatch::External(command)
            }
        },
    }
}

/// What is to be done about a line of input.
#[derive(Debug)]
pub enum Plan {
    /// Nothing: the line is blank, or one of its stages holds no command.
    Nothing,
    /// The line holds one command.
    Single(Dispatch),
    /// The line holds a pipeline of two stages or more.
    Piped(Pipeline),
}

/// Whether `plan` is what is to be done about `line`.
pub open spec fn plans(plan: Plan, line: Seq<char>) -> bool {
    let texts = stage_texts(line);
    match plan {
        Plan::Nothing => parsed_all(texts) is None,
        Plan::Single(d) => texts.len() == 1 && parsed(texts[0]) is Some && dispatches(d, texts[0]),
        Plan::Piped(p) => {
            &&& texts.len() >= 2
            &&& p.wf()
            &&& p@ == State::start(texts.len())
            &&& Some(p.commands()) == parsed_all(texts)
        },
    }
}

/// Decides what is to be done about a line of input: it is split into its
/// stages at the pipe characters; a single stage is run as a single command,
/// two or more as a pipeline.
pub fn interpret(line: &str) -> (plan: Plan)
    ensures
        plans(plan, line@),
        plan matches Plan::Single(d) ==> (is_builtin(parsed(stage_texts(line@)[0])->0.cmd)
            ==> d.processes() == 0),
{
    let stages = split_stages(line);
    if stages.len() == 1 {
        assert(stages.deep_view()[0] == stages[0]@);
        match run(stages[0]) {
            Dispatch::Nothing => Plan::Nothing,
            d => Plan::Single(d),
        }
    } else {
        match run_pipeline(stages) {
            Some(pipeline) => Plan::Piped(pipeline),
            None => Plan::Nothing,
        }
    }
}

} // verus!
