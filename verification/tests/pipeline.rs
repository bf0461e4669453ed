use rune::child::{child_setup, Setup, STAGE_DONE, STDIN, STDOUT};
use rune::pipeline::{Action, Dispatch, Event, Pipeline, Plan, ProcessRecord, StageContext};
use rune::{interpret, run, run_pipeline};
use std::collections::BTreeMap;

/// What a descriptor refers to.
#[derive(Clone, Copy, Debug, PartialEq, Eq)]
enum Stream {
    Terminal,
    PipeRead(usize),
    PipeWrite(usize),
}

/// A process that the stand-in system created.
#[derive(Debug)]
struct Child {
    pid: i32,
    context: StageContext,
    /// The child's descriptors after its set-up.
    table: BTreeMap<i32, Stream>,
    /// The group that the child put itself into.
    entered: i32,
}

/// A stand-in for the operating system: it keeps the interpreter's table of
/// descriptors, hands out the lowest free descriptors for a pipe, and lets a
/// child inherit the table and run its set-up on its own copy.
struct System {
    table: BTreeMap<i32, Stream>,
    pipes: usize,
    next_pid: i32,
    children: Vec<Child>,
    groups: BTreeMap<i32, i32>,
    waited: Vec<i32>,
    closed: Vec<i32>,
    fail_pipe: Option<usize>,
    fail_spawn: Option<usize>,
}

impl System {
    fn new() -> System {
        let mut table = BTreeMap::new();
        table.insert(0, Stream::Terminal);
        table.insert(1, Stream::Terminal);
        table.insert(2, Stream::Terminal);
        System {
            table,
            pipes: 0,
            next_pid: 100,
            children: Vec::new(),
            groups: BTreeMap::new(),
            waited: Vec::new(),
            closed: Vec::new(),
            fail_pipe: None,
            fail_spawn: None,
        }
    }

    fn lowest_free(&self) -> i32 {
        let mut fd = 0;
        while self.table.contains_key(&fd) {
            fd += 1;
        }
        fd
    }

    fn perform(&mut self, action: Action) -> Event {
        match action {
            Action::OpenPipe => {
                if self.fail_pipe == Some(self.pipes) {
                    return Event::Failed;
                }
                let read = self.lowest_free();
                self.table.insert(read, Stream::PipeRead(self.pipes));
                let write = self.lowest_free();
                self.table.insert(write, Stream::PipeWrite(self.pipes));
                self.pipes += 1;
                Event::PipeOpened { read, write }
            },
            Action::Spawn(context) => {
                if self.fail_spawn == Some(self.children.len()) {
                    return Event::Failed;
                }
                let pid = self.next_pid;
                self.next_pid += 1;
                let mut table = self.table.clone();
                let mut entered = 0;
                for step in child_setup(&context) {
                    match step {
                        Setup::EnterGroup(group) => {
                            entered = group.unwrap_or(pid);
                        },
                        Setup::Duplicate { from, to } => {
                            let stream = *table.get(&from).expect("duplicating a closed descriptor");
                            table.insert(to, stream);
                        },
                        Setup::Close(fd) => {
                            table.remove(&fd).expect("closing a closed descriptor in the child");
                        },
                    }
                }
                self.children.push(Child { pid, context, table, entered });
                Event::Spawned { pid }
            },
            Action::JoinGroup { pid, group } => {
                self.groups.insert(pid, group);
                Event::Done
            },
            Action::Close(fd) => {
                assert!(fd > 2, "closing a standard descriptor");
                self.table.remove(&fd).expect("closing a closed descriptor");
                self.closed.push(fd);
                Event::Done
            },
            Action::Wait(pid) => {
                self.waited.push(pid);
                Event::Done
            },
            Action::Finished => unreachable!(),
        }
    }
}

fn pipeline_of(stages: usize) -> Pipeline {
    let names = ["first", "second", "third", "fourth", "fifth", "sixth", "seventh", "eighth"];
    let segments: Vec<&str> = names[..stages].to_vec();
    run_pipeline(segments).expect("a pipeline")
}

/// Runs the engine against the stand-in system to its end, and returns the
/// actions that it asked for.
fn drive(pipeline: &mut Pipeline, system: &mut System) -> Vec<Action> {
    let mut log = Vec::new();
    let mut action = pipeline.pending();
    while action != Action::Finished {
        assert!(log.len() < 10_000, "the engine does not come to an end");
        log.push(action);
        let event = system.perform(action);
        action = pipeline.step(event);
    }
    log
}

fn initial_table() -> BTreeMap<i32, Stream> {
    System::new().table
}

#[test]
fn two_stages_step_by_step() {
    let mut p = run_pipeline(vec!["ls -l", "wc -l"]).unwrap();
    assert_eq!(p.pending(), Action::OpenPipe);
    let first = StageContext {
        index: 0,
        is_first: true,
        is_last: false,
        input: None,
        output: Some(4),
        group: None,
        spare: Some(3),
    };
    assert_eq!(p.step(Event::PipeOpened { read: 3, write: 4 }), Action::Spawn(first));
    assert_eq!(p.step(Event::Spawned { pid: 100 }), Action::JoinGroup { pid: 100, group: 100 });
    assert_eq!(p.step(Event::Done), Action::Close(4));
    let second = StageContext {
        index: 1,
        is_first: false,
        is_last: true,
        input: Some(3),
        output: None,
        group: Some(100),
        spare: None,
    };
    assert_eq!(p.step(Event::Done), Action::Spawn(second));
    assert_eq!(p.step(Event::Spawned { pid: 101 }), Action::JoinGroup { pid: 101, group: 100 });
    assert_eq!(p.step(Event::Done), Action::Close(3));
    assert_eq!(p.step(Event::Done), Action::Wait(100));
    assert_eq!(p.step(Event::Done), Action::Wait(101));
    assert_eq!(p.step(Event::Done), Action::Finished);
    assert_eq!(p.pending(), Action::Finished);
    assert_eq!(p.step(Event::Done), Action::Finished);
    assert_eq!(
        p.records(),
        &vec![
            ProcessRecord { pid: 100, stage_index: 0 },
            ProcessRecord { pid: 101, stage_index: 1 },
        ]
    );
}

#[test]
fn three_stages_step_by_step() {
    let mut p = pipeline_of(3);
    let mut system = System::new();
    let log = drive(&mut p, &mut system);
    let first = StageContext {
        index: 0,
        is_first: true,
        is_last: false,
        input: None,
        output: Some(4),
        group: None,
        spare: Some(3),
    };
    let second = StageContext {
        index: 1,
        is_first: false,
        is_last: false,
        input: Some(3),
        output: Some(5),
        group: Some(100),
        spare: Some(4),
    };
    let third = StageContext {
        index: 2,
        is_first: false,
        is_last: true,
        input: Some(4),
        output: None,
        group: Some(100),
        spare: None,
    };
    assert_eq!(
        log,
        vec![
            Action::OpenPipe,
            Action::Spawn(first),
            Action::JoinGroup { pid: 100, group: 100 },
            Action::Close(4),
            Action::OpenPipe,
            Action::Spawn(second),
            Action::JoinGroup { pid: 101, group: 100 },
            Action::Close(5),
            Action::Close(3),
            Action::Spawn(third),
            Action::JoinGroup { pid: 102, group: 100 },
            Action::Close(4),
            Action::Wait(100),
            Action::Wait(101),
            Action::Wait(102),
        ]
    );
}

#[test]
fn a_single_stage_needs_no_pipe() {
    let mut p = pipeline_of(1);
    let only = StageContext {
        index: 0,
        is_first: true,
        is_last: true,
        input: None,
        output: None,
        group: None,
        spare: None,
    };
    assert_eq!(p.pending(), Action::Spawn(only));
    assert_eq!(p.step(Event::Spawned { pid: 7 }), Action::JoinGroup { pid: 7, group: 7 });
    assert_eq!(p.step(Event::Done), Action::Wait(7));
    assert_eq!(p.step(Event::Done), Action::Finished);
}

#[test]
fn n_stages_take_n_minus_one_pipes_and_n_processes() {
    for n in 1..=8 {
        let mut p = pipeline_of(n);
        let mut system = System::new();
        let log = drive(&mut p, &mut system);
        assert_eq!(system.pipes, n - 1);
        assert_eq!(system.children.len(), n);
        assert_eq!(log.iter().filter(|a| **a == Action::OpenPipe).count(), n - 1);
        assert_eq!(log.iter().filter(|a| matches!(a, Action::Spawn(_))).count(), n);
        assert_eq!(p.records().len(), n);
    }
}

#[test]
fn the_descriptors_after_a_pipeline_are_those_before_it() {
    for n in 1..=8 {
        let mut p = pipeline_of(n);
        let mut system = System::new();
        drive(&mut p, &mut system);
        assert_eq!(system.table, initial_table());
        assert_eq!(system.closed.len(), 2 * (n - 1));
    }
}

#[test]
fn descriptors_open_before_are_left_alone() {
    let mut p = pipeline_of(3);
    let mut system = System::new();
    system.table.insert(3, Stream::Terminal);
    system.table.insert(5, Stream::Terminal);
    let mut before = initial_table();
    before.insert(3, Stream::Terminal);
    before.insert(5, Stream::Terminal);
    drive(&mut p, &mut system);
    assert_eq!(system.table, before);
    assert!(!system.closed.contains(&3));
    assert!(!system.closed.contains(&5));
}

#[test]
fn every_process_is_waited_for_once_in_stage_order() {
    for n in 1..=8 {
        let mut p = pipeline_of(n);
        let mut system = System::new();
        drive(&mut p, &mut system);
        let pids: Vec<i32> = system.children.iter().map(|c| c.pid).collect();
        assert_eq!(system.waited, pids);
    }
}

#[test]
fn all_stages_share_the_group_of_the_first() {
    for n in 1..=8 {
        let mut p = pipeline_of(n);
        let mut system = System::new();
        drive(&mut p, &mut system);
        let leader = system.children[0].pid;
        for child in &system.children {
            assert_eq!(system.groups.get(&child.pid), Some(&leader));
            assert_eq!(child.entered, leader);
            assert_eq!(child.context.group.is_none(), child.context.index == 0);
        }
    }
}

#[test]
fn each_stage_reads_the_pipe_that_the_stage_before_it_writes() {
    for n in 1..=8 {
        let mut p = pipeline_of(n);
        let mut system = System::new();
        drive(&mut p, &mut system);
        for (i, child) in system.children.iter().enumerate() {
            let input = if i == 0 { Stream::Terminal } else { Stream::PipeRead(i - 1) };
            let output = if i + 1 == n { Stream::Terminal } else { Stream::PipeWrite(i) };
            assert_eq!(child.table.get(&STDIN), Some(&input));
            assert_eq!(child.table.get(&STDOUT), Some(&output));
            assert_eq!(child.table.get(&2), Some(&Stream::Terminal));
            assert_eq!(child.table.len(), 3, "stage {} keeps {:?}", i, child.table);
        }
    }
}

#[test]
fn stage_contexts_are_wired_to_each_other() {
    let mut p = pipeline_of(5);
    let mut system = System::new();
    drive(&mut p, &mut system);
    for pair in system.children.windows(2) {
        assert!(pair[0].context.output.is_some());
        assert!(pair[0].context.spare.is_some());
        assert_eq!(pair[1].context.input, pair[0].context.spare);
        assert_eq!(pair[1].context.index, pair[0].context.index + 1);
    }
    let first = &system.children[0].context;
    let last = &system.children[4].context;
    assert!(first.is_first && first.input.is_none() && first.group.is_none());
    assert!(last.is_last && last.output.is_none() && last.spare.is_none());
    for child in &system.children[1..4] {
        assert!(!child.context.is_first && !child.context.is_last);
    }
}

#[test]
fn a_process_that_cannot_be_created_ends_the_set_up() {
    for n in 1..=6 {
        for k in 0..n {
            let mut p = pipeline_of(n);
            let mut system = System::new();
            system.fail_spawn = Some(k);
            let log = drive(&mut p, &mut system);
            assert_eq!(system.children.len(), k, "{} stages, failure at {}", n, k);
            assert_eq!(system.table, initial_table(), "{} stages, failure at {}", n, k);
            let pids: Vec<i32> = system.children.iter().map(|c| c.pid).collect();
            assert_eq!(system.waited, pids);
            assert_eq!(log.iter().filter(|a| matches!(a, Action::Spawn(_))).count(), k + 1);
            assert_eq!(system.pipes, if k + 1 < n { k + 1 } else { n - 1 });
        }
    }
}

#[test]
fn a_pipe_that_cannot_be_created_ends_the_set_up() {
    for n in 2..=6 {
        for k in 0..n - 1 {
            let mut p = pipeline_of(n);
            let mut system = System::new();
            system.fail_pipe = Some(k);
            let log = drive(&mut p, &mut system);
            assert_eq!(system.pipes, k);
            assert_eq!(system.children.len(), k);
            assert_eq!(system.table, initial_table(), "{} stages, failure at {}", n, k);
            let pids: Vec<i32> = system.children.iter().map(|c| c.pid).collect();
            assert_eq!(system.waited, pids);
            assert_eq!(log.iter().filter(|a| matches!(a, Action::Spawn(_))).count(), k);
        }
    }
}

#[test]
fn a_failed_spawn_closes_both_ends_of_the_new_pipe_and_the_input() {
    let mut p = pipeline_of(3);
    assert_eq!(p.step(Event::PipeOpened { read: 3, write: 4 }), p.pending());
    p.step(Event::Spawned { pid: 100 });
    p.step(Event::Done);
    assert_eq!(p.step(Event::Done), Action::OpenPipe);
    assert!(matches!(p.step(Event::PipeOpened { read: 4, write: 5 }), Action::Spawn(_)));
    assert_eq!(p.step(Event::Failed), Action::Close(5));
    assert_eq!(p.step(Event::Done), Action::Close(4));
    assert_eq!(p.step(Event::Done), Action::Close(3));
    assert_eq!(p.step(Event::Done), Action::Wait(100));
    assert_eq!(p.step(Event::Done), Action::Finished);
    assert_eq!(p.records().len(), 1);
}

#[test]
fn an_event_that_answers_nothing_changes_nothing() {
    let mut p = pipeline_of(2);
    assert_eq!(p.step(Event::Done), Action::OpenPipe);
    assert_eq!(p.step(Event::Spawned { pid: 1 }), Action::OpenPipe);
    let spawn = p.step(Event::PipeOpened { read: 3, write: 4 });
    assert!(matches!(spawn, Action::Spawn(_)));
    assert_eq!(p.step(Event::Done), spawn);
    assert_eq!(p.step(Event::PipeOpened { read: 8, write: 9 }), spawn);
    let join = p.step(Event::Spawned { pid: 100 });
    assert_eq!(join, Action::JoinGroup { pid: 100, group: 100 });
    assert_eq!(p.step(Event::Spawned { pid: 200 }), join);
    assert_eq!(p.step(Event::PipeOpened { read: 8, write: 9 }), join);
    assert_eq!(p.records().len(), 1);
}

#[test]
fn a_group_or_a_close_that_fails_is_passed_over() {
    let mut p = pipeline_of(2);
    p.step(Event::PipeOpened { read: 3, write: 4 });
    p.step(Event::Spawned { pid: 100 });
    assert_eq!(p.step(Event::Failed), Action::Close(4));
    assert!(matches!(p.step(Event::Failed), Action::Spawn(_)));
    p.step(Event::Spawned { pid: 101 });
    assert_eq!(p.step(Event::Failed), Action::Close(3));
    assert_eq!(p.step(Event::Failed), Action::Wait(100));
    assert_eq!(p.step(Event::Failed), Action::Wait(101));
    assert_eq!(p.step(Event::Failed), Action::Finished);
}

#[test]
fn the_engine_keeps_the_commands_of_its_stages() {
    let p = run_pipeline(vec!["ls -l /tmp", "grep x", "wc"]).unwrap();
    assert_eq!(p.stages(), 3);
    let first = p.command(0).unwrap();
    assert_eq!(first.cmd, "ls");
    assert_eq!(first.args, vec!["-l".to_string(), "/tmp".to_string()]);
    let second = p.command(1).unwrap();
    assert_eq!(second.cmd, "grep");
    assert_eq!(second.args, vec!["x".to_string()]);
    let third = p.command(2).unwrap();
    assert_eq!(third.cmd, "wc");
    assert!(third.args.is_empty());
    assert!(p.command(3).is_none());
    assert!(p.records().is_empty());
}

#[test]
fn there_is_no_pipeline_without_stages_or_with_an_empty_stage() {
    assert!(run_pipeline(Vec::new()).is_none());
    assert!(run_pipeline(vec![""]).is_none());
    assert!(run_pipeline(vec!["ls", ""]).is_none());
    assert!(run_pipeline(vec!["", "wc"]).is_none());
    assert!(run_pipeline(vec!["ls", "  ", "wc"]).is_none());
    assert!(run_pipeline(vec!["ls"]).is_some());
}

#[test]
fn builtins_are_accepted_as_stages() {
    let mut p = run_pipeline(vec!["cd /tmp", "exit 3", "echo x"]).unwrap();
    let mut system = System::new();
    drive(&mut p, &mut system);
    assert_eq!(system.children.len(), 3);
}

#[test]
fn a_single_builtin_runs_in_the_interpreter() {
    for line in ["cd /tmp", "pwd", "echo a b", "exit 7", "  exit  "] {
        match run(line) {
            Dispatch::Builtin(c) => assert!(rune::builtin_check(&c.cmd)),
            other => panic!("{:?} gave {:?}", line, other),
        }
    }
    match run("echo -n a b") {
        Dispatch::Builtin(c) => {
            assert_eq!(c.cmd, "echo");
            assert_eq!(c.args, vec!["-n".to_string(), "a".to_string(), "b".to_string()]);
        },
        other => panic!("gave {:?}", other),
    }
}

#[test]
fn a_single_external_command_runs_in_a_process_of_its_own() {
    match run("ls -l") {
        Dispatch::External(c) => {
            assert_eq!(c.cmd, "ls");
            assert_eq!(c.args, vec!["-l".to_string()]);
        },
        other => panic!("gave {:?}", other),
    }
    assert!(matches!(run("./cd"), Dispatch::External(_)));
    assert!(matches!(run("CD"), Dispatch::External(_)));
}

#[test]
fn a_blank_line_runs_nothing() {
    assert!(matches!(run(""), Dispatch::Nothing));
    assert!(matches!(run("   "), Dispatch::Nothing));
    assert!(matches!(interpret(""), Plan::Nothing));
    assert!(matches!(interpret(" \t "), Plan::Nothing));
}

#[test]
fn a_line_is_a_single_command_or_a_pipeline() {
    assert!(matches!(interpret("cd /tmp"), Plan::Single(Dispatch::Builtin(_))));
    assert!(matches!(interpret("  ls -l  "), Plan::Single(Dispatch::External(_))));
    match interpret("ls -l | grep x | wc") {
        Plan::Piped(p) => {
            assert_eq!(p.stages(), 3);
            assert_eq!(p.command(1).unwrap().cmd, "grep");
            assert_eq!(p.pending(), Action::OpenPipe);
        },
        other => panic!("gave {:?}", other),
    }
    match interpret("cd /tmp | pwd") {
        Plan::Piped(p) => assert_eq!(p.stages(), 2),
        other => panic!("gave {:?}", other),
    }
}

#[test]
fn a_line_with_an_empty_stage_runs_nothing() {
    assert!(matches!(interpret("ls | | wc"), Plan::Nothing));
    assert!(matches!(interpret("| wc"), Plan::Nothing));
    assert!(matches!(interpret("ls |"), Plan::Nothing));
    assert!(matches!(interpret("|"), Plan::Nothing));
}

#[test]
fn the_set_up_of_the_first_stage() {
    let context = StageContext {
        index: 0,
        is_first: true,
        is_last: false,
        input: None,
        output: Some(4),
        group: None,
        spare: Some(3),
    };
    assert_eq!(
        child_setup(&context),
        vec![
            Setup::EnterGroup(None),
            Setup::Duplicate { from: 4, to: 1 },
            Setup::Close(4),
            Setup::Close(3),
        ]
    );
}

#[test]
fn the_set_up_of_a_middle_stage() {
    let context = StageContext {
        index: 1,
        is_first: false,
        is_last: false,
        input: Some(3),
        output: Some(5),
        group: Some(100),
        spare: Some(4),
    };
    assert_eq!(
        child_setup(&context),
        vec![
            Setup::EnterGroup(Some(100)),
            Setup::Duplicate { from: 3, to: 0 },
            Setup::Close(3),
            Setup::Duplicate { from: 5, to: 1 },
            Setup::Close(5),
            Setup::Close(4),
        ]
    );
}

#[test]
fn the_set_up_of_the_last_stage() {
    let context = StageContext {
        index: 2,
        is_first: false,
        is_last: true,
        input: Some(3),
        output: None,
        group: Some(100),
        spare: None,
    };
    assert_eq!(
        child_setup(&context),
        vec![Setup::EnterGroup(Some(100)), Setup::Duplicate { from: 3, to: 0 }, Setup::Close(3)]
    );
}

#[test]
fn the_set_up_of_an_only_stage() {
    let context = StageContext {
        index: 0,
        is_first: true,
        is_last: true,
        input: None,
        output: None,
        group: None,
        spare: None,
    };
    assert_eq!(child_setup(&context), vec![Setup::EnterGroup(None)]);
}

#[test]
fn the_standard_descriptors() {
    assert_eq!(STDIN, 0);
    assert_eq!(STDOUT, 1);
}

#[test]
fn a_builtin_stage_ends_with_status_zero() {
    assert_eq!(STAGE_DONE, 0);
}
