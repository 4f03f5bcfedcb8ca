use meanwhile::orchestrator::{
    Action, Event, Fatal, KillOutcome, Orchestrator, Phase, Source, TaskStatus,
};
use meanwhile::task::{Stream, Suffixes, TaskSpec};

fn sfx(o: Option<&str>, e: Option<&str>) -> Suffixes {
    Suffixes { stdout: o.map(|s| s.to_string()), stderr: e.map(|s| s.to_string()) }
}

fn task(cmd: &str, args: &[&str], o: Option<&str>, e: Option<&str>) -> TaskSpec {
    TaskSpec {
        cmd: cmd.to_string(),
        args: args.iter().map(|a| a.to_string()).collect(),
        suffixes: sfx(o, e),
    }
}

fn write(source: Source, stream: Stream, name: &str) -> Action {
    Action::Write { source, stream, file_name: name.to_string() }
}

/// Drives the machine through every background task killed and collected.
fn to_prefix(m: &mut Orchestrator, n: usize) {
    for i in 0..n {
        assert_eq!(m.step(Event::Spawned(true)), if i + 1 < n { Action::Spawn(i + 1) } else { Action::Settle });
    }
    assert_eq!(m.step(Event::Slept), Action::RunPrimary);
    m.step(Event::PrimaryExited(true));
    for _ in 0..n {
        m.step(Event::Interrupted(true));
    }
    m.step(Event::Slept);
    for _ in 0..n {
        m.step(Event::KillDone(KillOutcome::Killed));
        m.step(Event::Waited(true));
    }
    assert_eq!(m.action(), Action::ResolvePrefix);
}

#[test]
fn scenario_sleep_background_echo_primary() {
    let tasks = vec![task("sleep", &["5"], Some(".bg.out"), None)];
    let mut m = Orchestrator::new(&tasks, sfx(Some(".out"), None));
    assert_eq!(m.action(), Action::Spawn(0));
    assert_eq!(m.step(Event::Spawned(true)), Action::Settle);
    assert_eq!(m.step(Event::Slept), Action::RunPrimary);
    assert_eq!(m.step(Event::PrimaryExited(true)), Action::Interrupt(0));
    assert_eq!(m.step(Event::Interrupted(true)), Action::Grace);
    assert_eq!(m.step(Event::Slept), Action::Kill(0));
    assert_eq!(m.step(Event::KillDone(KillOutcome::AlreadyExited)), Action::Wait(0));
    assert_eq!(m.step(Event::Waited(true)), Action::ResolvePrefix);
    assert_eq!(m.step(Event::PrefixChosen(Some("run".to_string()))), Action::CreateOutdir);
    assert_eq!(
        m.step(Event::OutdirReady(true)),
        write(Source::Primary, Stream::Stdout, "run.out")
    );
    assert_eq!(
        m.step(Event::Written(true)),
        write(Source::Background(0), Stream::Stdout, "run.bg.out")
    );
    assert_eq!(m.step(Event::Written(true)), Action::Finish);
    assert_eq!(m.record(0), Some(TaskStatus::Collected));
}

#[test]
fn scenario_missing_executable_aborts_before_primary() {
    let tasks = vec![
        task("sleep", &["5"], Some(".a"), None),
        task("does-not-exist", &[], Some(".b"), None),
    ];
    let mut m = Orchestrator::new(&tasks, sfx(Some(".out"), Some(".err")));
    assert_eq!(m.step(Event::Spawned(true)), Action::Spawn(1));
    assert_eq!(m.step(Event::Spawned(false)), Action::Abort(Fatal::Spawn(1)));
    assert_eq!(m.phase(), Phase::Aborted(Fatal::Spawn(1)));
    // nothing moves an aborted run on
    assert_eq!(m.step(Event::Slept), Action::Abort(Fatal::Spawn(1)));
    assert_eq!(m.step(Event::PrimaryExited(true)), Action::Abort(Fatal::Spawn(1)));
    assert_eq!(m.step(Event::OutdirReady(true)), Action::Abort(Fatal::Spawn(1)));
}

#[test]
fn scenario_interrupt_ignored_then_force_killed() {
    let tasks = vec![task("stubborn", &[], Some(".bg.out"), Some(".bg.err"))];
    let mut m = Orchestrator::new(&tasks, sfx(None, None));
    m.step(Event::Spawned(true));
    m.step(Event::Slept);
    m.step(Event::PrimaryExited(true));
    assert_eq!(m.step(Event::Interrupted(true)), Action::Grace);
    assert_eq!(m.record(0), Some(TaskStatus::Interrupted));
    assert_eq!(m.step(Event::Slept), Action::Kill(0));
    assert_eq!(m.step(Event::KillDone(KillOutcome::Killed)), Action::Wait(0));
    assert_eq!(m.record(0), Some(TaskStatus::Killed));
    assert_eq!(m.step(Event::Waited(true)), Action::ResolvePrefix);
    m.step(Event::PrefixChosen(Some("x".to_string())));
    assert_eq!(
        m.step(Event::OutdirReady(true)),
        write(Source::Background(0), Stream::Stdout, "x.bg.out")
    );
    assert_eq!(
        m.step(Event::Written(true)),
        write(Source::Background(0), Stream::Stderr, "x.bg.err")
    );
    assert_eq!(m.step(Event::Written(true)), Action::Finish);
}

#[test]
fn every_spawned_task_is_interrupted() {
    let tasks = vec![
        task("a", &[], None, None),
        task("b", &[], None, None),
        task("c", &[], None, None),
    ];
    let mut m = Orchestrator::new(&tasks, sfx(None, None));
    assert_eq!(m.task_count(), 3);
    m.step(Event::Spawned(true));
    m.step(Event::Spawned(true));
    m.step(Event::Spawned(true));
    m.step(Event::Slept);
    assert_eq!(m.step(Event::PrimaryExited(true)), Action::Interrupt(0));
    for i in 0..3 {
        assert_eq!(m.record(i), Some(TaskStatus::Running));
    }
    assert_eq!(m.record(3), None);
    assert_eq!(m.step(Event::Interrupted(true)), Action::Interrupt(1));
    assert_eq!(m.step(Event::Interrupted(true)), Action::Interrupt(2));
    assert_eq!(m.step(Event::Interrupted(true)), Action::Grace);
}

#[test]
fn already_exited_counts_as_killed() {
    let tasks = vec![task("quick", &[], Some(".q"), None)];
    let mut a = Orchestrator::new(&tasks, sfx(None, None));
    let mut b = Orchestrator::new(&tasks, sfx(None, None));
    for m in [&mut a, &mut b] {
        m.step(Event::Spawned(true));
        m.step(Event::Slept);
        m.step(Event::PrimaryExited(true));
        m.step(Event::Interrupted(true));
        m.step(Event::Slept);
    }
    assert_eq!(a.step(Event::KillDone(KillOutcome::AlreadyExited)), Action::Wait(0));
    assert_eq!(b.step(Event::KillDone(KillOutcome::Killed)), Action::Wait(0));
    assert_eq!(a.record(0), b.record(0));
    a.step(Event::Waited(true));
    assert_eq!(a.record(0), Some(TaskStatus::Collected));
}

#[test]
fn no_interrupt_before_primary_exits() {
    let tasks = vec![task("a", &[], None, None), task("b", &[], None, None)];
    let mut m = Orchestrator::new(&tasks, sfx(None, None));
    let before = [Event::Spawned(true), Event::Spawned(true), Event::Slept];
    for e in before {
        let a = m.step(e);
        assert!(!matches!(a, Action::Interrupt(_)));
    }
    assert_eq!(m.action(), Action::RunPrimary);
    // events that do not answer the pending action change nothing
    assert_eq!(m.step(Event::Interrupted(true)), Action::RunPrimary);
    assert_eq!(m.step(Event::Slept), Action::RunPrimary);
    assert_eq!(m.step(Event::PrimaryExited(true)), Action::Interrupt(0));
}

#[test]
fn failed_kill_is_never_written() {
    let tasks = vec![
        task("a", &[], Some(".a.out"), Some(".a.err")),
        task("b", &[], Some(".b.out"), None),
    ];
    let mut m = Orchestrator::new(&tasks, sfx(Some(".out"), None));
    m.step(Event::Spawned(true));
    m.step(Event::Spawned(true));
    m.step(Event::Slept);
    m.step(Event::PrimaryExited(true));
    m.step(Event::Interrupted(true));
    m.step(Event::Interrupted(true));
    assert_eq!(m.step(Event::Slept), Action::Kill(0));
    assert_eq!(m.step(Event::KillDone(KillOutcome::Failed)), Action::Kill(1));
    assert_eq!(m.record(0), Some(TaskStatus::CollectionFailed));
    assert_eq!(m.step(Event::KillDone(KillOutcome::Killed)), Action::Wait(1));
    assert_eq!(m.step(Event::Waited(true)), Action::ResolvePrefix);
    m.step(Event::PrefixChosen(Some("p".to_string())));
    let mut writes = vec![m.step(Event::OutdirReady(true))];
    while writes.last() != Some(&Action::Finish) {
        writes.push(m.step(Event::Written(true)));
    }
    assert_eq!(
        writes,
        vec![
            write(Source::Primary, Stream::Stdout, "p.out"),
            write(Source::Background(1), Stream::Stdout, "p.b.out"),
            Action::Finish,
        ]
    );
}

#[test]
fn failed_wait_is_never_written() {
    let tasks = vec![task("a", &[], Some(".a"), None)];
    let mut m = Orchestrator::new(&tasks, sfx(None, None));
    to_prefix_with_wait(&mut m, false);
    assert_eq!(m.record(0), Some(TaskStatus::CollectionFailed));
    m.step(Event::PrefixChosen(Some(String::new())));
    assert_eq!(m.step(Event::OutdirReady(true)), Action::Finish);
}

fn to_prefix_with_wait(m: &mut Orchestrator, ok: bool) {
    m.step(Event::Spawned(true));
    m.step(Event::Slept);
    m.step(Event::PrimaryExited(true));
    m.step(Event::Interrupted(true));
    m.step(Event::Slept);
    m.step(Event::KillDone(KillOutcome::Killed));
    assert_eq!(m.step(Event::Waited(ok)), Action::ResolvePrefix);
}

#[test]
fn stream_without_suffix_is_not_written() {
    let tasks = vec![task("a", &[], None, Some(".a.err"))];
    let mut m = Orchestrator::new(&tasks, sfx(None, Some(".err")));
    to_prefix(&mut m, 1);
    m.step(Event::PrefixChosen(Some("n".to_string())));
    assert_eq!(
        m.step(Event::OutdirReady(true)),
        write(Source::Primary, Stream::Stderr, "n.err")
    );
    assert_eq!(
        m.step(Event::Written(false)),
        write(Source::Background(0), Stream::Stderr, "n.a.err")
    );
    assert_eq!(m.step(Event::Written(true)), Action::Finish);
}

#[test]
fn failed_interrupt_still_killed_and_collected() {
    let tasks = vec![task("a", &[], Some(".a"), None)];
    let mut m = Orchestrator::new(&tasks, sfx(None, None));
    m.step(Event::Spawned(true));
    m.step(Event::Slept);
    m.step(Event::PrimaryExited(true));
    assert_eq!(m.step(Event::Interrupted(false)), Action::Grace);
    assert_eq!(m.record(0), Some(TaskStatus::NotInterrupted));
    assert_eq!(m.step(Event::Slept), Action::Kill(0));
    m.step(Event::KillDone(KillOutcome::Killed));
    m.step(Event::Waited(true));
    assert_eq!(m.record(0), Some(TaskStatus::Collected));
}

#[test]
fn primary_failure_aborts() {
    let tasks = vec![task("a", &[], Some(".a"), None)];
    let mut m = Orchestrator::new(&tasks, sfx(Some(".out"), None));
    m.step(Event::Spawned(true));
    m.step(Event::Slept);
    assert_eq!(m.step(Event::PrimaryExited(false)), Action::Abort(Fatal::Primary));
}

#[test]
fn prefix_and_outdir_failures_abort() {
    let tasks: Vec<TaskSpec> = Vec::new();
    let mut m = Orchestrator::new(&tasks, sfx(Some(".out"), None));
    to_prefix(&mut m, 0);
    assert_eq!(m.step(Event::PrefixChosen(None)), Action::Abort(Fatal::Prefix));

    let mut m = Orchestrator::new(&tasks, sfx(Some(".out"), None));
    to_prefix(&mut m, 0);
    m.step(Event::PrefixChosen(Some("p".to_string())));
    assert_eq!(m.step(Event::OutdirReady(false)), Action::Abort(Fatal::Outdir));
}

#[test]
fn no_background_tasks() {
    let tasks: Vec<TaskSpec> = Vec::new();
    let mut m = Orchestrator::new(&tasks, sfx(Some(".out"), Some(".err")));
    assert_eq!(m.task_count(), 0);
    assert_eq!(m.action(), Action::Settle);
    assert_eq!(m.step(Event::Slept), Action::RunPrimary);
    assert_eq!(m.step(Event::PrimaryExited(true)), Action::Grace);
    assert_eq!(m.step(Event::Slept), Action::ResolvePrefix);
    m.step(Event::PrefixChosen(Some(String::new())));
    assert_eq!(m.step(Event::OutdirReady(true)), write(Source::Primary, Stream::Stdout, ".out"));
    assert_eq!(m.step(Event::Written(true)), write(Source::Primary, Stream::Stderr, ".err"));
    assert_eq!(m.step(Event::Written(true)), Action::Finish);
    assert_eq!(m.phase(), Phase::Finished);
}

#[test]
fn same_suffix_twice_names_same_file() {
    let tasks = vec![task("a", &[], Some(".log"), None)];
    let mut m = Orchestrator::new(&tasks, sfx(Some(".log"), None));
    to_prefix(&mut m, 1);
    m.step(Event::PrefixChosen(Some("s".to_string())));
    assert_eq!(m.step(Event::OutdirReady(true)), write(Source::Primary, Stream::Stdout, "s.log"));
    assert_eq!(
        m.step(Event::Written(true)),
        write(Source::Background(0), Stream::Stdout, "s.log")
    );
}
