//! The life cycle of one run, as a state machine.
//!
//! A run spawns every background task, waits a settling delay, runs the
//! primary task to completion, interrupts every background task, waits a
//! grace delay, then kills and reaps each background task in turn, resolves
//! the shared name prefix, makes sure the output directory exists and saves
//! every stream that has a suffix. The machine only decides: a driver
//! performs each [`Action`] and reports what happened as an [`Event`].
use vstd::prelude::*;

use crate::output::output_file_name;
use crate::task::{opt_view, suffix_for, Stream, Suffixes, TaskSpec};

verus! {

/// What came of a forced termination.
#[derive(Clone, Copy, Debug, PartialEq, Eq, Structural)]
pub enum KillOutcome {
    /// The process was killed.
    Killed,
    /// The process had already exited on its own: a benign race.
    AlreadyExited,
    /// The kill failed for another reason.
    Failed,
}

/// Where one background task stands.
#[derive(Clone, Copy, Debug, PartialEq, Eq, Structural)]
pub enum TaskStatus {
    /// Spawned, not yet signalled.
    Running,
    /// The interrupt was delivered.
    Interrupted,
    /// The interrupt could not be delivered; the task is killed all the same.
    NotInterrupted,
    /// Killed (or found already exited); its output is being collected.
    Killed,
    /// Its output was collected and may be saved.
    Collected,
    /// Its kill or its collection failed; it has no output to save.
    CollectionFailed,
}

/// Why a run stopped early.
#[derive(Clone, Copy, Debug, PartialEq, Eq, Structural)]
pub enum Fatal {
    /// The background task with this index could not be spawned.
    Spawn(usize),
    /// The primary task could not be executed.
    Primary,
    /// No name prefix could be obtained.
    Prefix,
    /// The output directory could not be created.
    Outdir,
}

/// The step a run is at. A stream slot `Writing(j, stream)` names the
/// primary task for `j == 0` and background task `j - 1` otherwise.
#[derive(Clone, Copy, Debug, PartialEq, Eq, Structural)]
pub enum Phase {
    Spawning(usize),
    Settling,
    RunningPrimary,
    Interrupting(usize),
    Grace,
    Killing(usize),
    Collecting(usize),
    ResolvingPrefix,
    CreatingOutdir,
    Writing(usize, Stream),
    Finished,
    Aborted(Fatal),
}

/// The process whose stream is saved.
#[derive(Clone, Copy, Debug, PartialEq, Eq, Structural)]
pub enum Source {
    Primary,
    Background(usize),
}

/// What the driver is asked to do next.
#[derive(Clone, Debug, PartialEq, Eq)]
pub enum Action {
    /// Spawn background task `i`; answer with `Event::Spawned`.
    Spawn(usize),
    /// Sleep the settling delay; answer with `Event::Slept`.
    Settle,
    /// Run the primary task to completion; answer with `Event::PrimaryExited`.
    RunPrimary,
    /// Send an interrupt to background task `i`; answer with `Event::Interrupted`.
    Interrupt(usize),
    /// Sleep the grace delay; answer with `Event::Slept`.
    Grace,
    /// Force background task `i` to terminate; answer with `Event::KillDone`.
    Kill(usize),
    /// Wait for background task `i` and take its output; answer with `Event::Waited`.
    Wait(usize),
    /// Obtain the shared name prefix; answer with `Event::PrefixChosen`.
    ResolvePrefix,
    /// Create the output directory if absent; answer with `Event::OutdirReady`.
    CreateOutdir,
    /// Save a stream of a process into the file of this name in the output
    /// directory; answer with `Event::Written`.
    Write { source: Source, stream: Stream, file_name: String },
    /// The run is complete.
    Finish,
    /// The run stops with a failure.
    Abort(Fatal),
}

/// What the driver reports after performing an action.
#[derive(Clone, Debug, PartialEq, Eq)]
pub enum Event {
    Spawned(bool),
    Slept,
    PrimaryExited(bool),
    Interrupted(bool),
    KillDone(KillOutcome),
    Waited(bool),
    /// The prefix, or `None` where it could not be obtained.
    PrefixChosen(Option<String>),
    OutdirReady(bool),
    /// A failed write is reported and the run goes on.
    Written(bool),
}

/// The suffixes of one task, as plain sequences.
pub type SuffixPair = (Option<Seq<char>>, Option<Seq<char>>);

/// The state of a run.
pub ghost struct OrchestratorView {
    /// The suffixes of each declared background task, by index.
    pub tasks: Seq<SuffixPair>,
    /// The suffixes of the primary task.
    pub primary: SuffixPair,
    /// One record for each background task spawned so far, by index.
    pub records: Seq<TaskStatus>,
    pub phase: Phase,
    pub prefix: Seq<char>,
}

/// The state of a run that is about to start.
pub open spec fn initial(tasks: Seq<SuffixPair>, primary: SuffixPair) -> OrchestratorView {
    OrchestratorView {
        tasks,
        primary,
        records: Seq::empty(),
        phase: enter_spawning(tasks.len(), 0),
        prefix: Seq::empty(),
    }
}

pub open spec fn enter_spawning(n: nat, i: nat) -> Phase {
    if i < n {
        Phase::Spawning(i as usize)
    } else {
        Phase::Settling
    }
}

pub open spec fn enter_interrupting(n: nat, i: nat) -> Phase {
    if i < n {
        Phase::Interrupting(i as usize)
    } else {
        Phase::Grace
    }
}

pub open spec fn enter_killing(n: nat, i: nat) -> Phase {
    if i < n {
        Phase::Killing(i as usize)
    } else {
        Phase::ResolvingPrefix
    }
}

/// The suffix configured for a stream of the process in slot `j`.
pub open spec fn slot_suffix(s: OrchestratorView, j: nat, stream: Stream) -> Option<Seq<char>> {
    if j == 0 {
        suffix_for(s.primary, stream)
    } else {
        suffix_for(s.tasks[j - 1], stream)
    }
}

/// The process in slot `j`.
pub open spec fn slot_source(j: nat) -> Source {
    if j == 0 {
        Source::Primary
    } else {
        Source::Background((j - 1) as usize)
    }
}

/// A stream is saved when it has a suffix and its process has output: the
/// primary task always does, a background task only once collected.
pub open spec fn writable(s: OrchestratorView, j: nat, stream: Stream) -> bool {
    &&& slot_suffix(s, j, stream) is Some
    &&& (j == 0 || s.records[j - 1] == TaskStatus::Collected)
}

pub open spec fn slot_rank(j: nat, stream: Stream) -> nat {
    2 * j + if stream == Stream::Stdout { 0nat } else { 1nat }
}

/// The first stream slot at or after `(j, stream)` that is saved, or
/// `Finished` where none is left. Slots go in order: the primary task's
/// stdout and stderr, then those of each background task by index.
pub open spec fn seek(s: OrchestratorView, j: nat, stream: Stream) -> Phase
    decreases 2 * (s.tasks.len() + 1) - slot_rank(j, stream),
{
    if j > s.tasks.len() {
        Phase::Finished
    } else if writable(s, j, stream) {
        Phase::Writing(j as usize, stream)
    } else if stream == Stream::Stdout {
        seek(s, j, Stream::Stderr)
    } else {
        seek(s, (j + 1) as nat, Stream::Stdout)
    }
}

/// The slot after `(j, stream)`.
pub open spec fn seek_after(s: OrchestratorView, j: nat, stream: Stream) -> Phase {
    if stream == Stream::Stdout {
        seek(s, j, Stream::Stderr)
    } else {
        seek(s, (j + 1) as nat, Stream::Stdout)
    }
}

/// The state after an event. An event that does not answer the pending
/// action leaves the state unchanged.
pub open spec fn next(s: OrchestratorView, e: Event) -> OrchestratorView {
    let n = s.tasks.len();
    match (s.phase, e) {
        (Phase::Spawning(i), Event::Spawned(ok)) => if ok {
            OrchestratorView {
                records: s.records.push(TaskStatus::Running),
                phase: enter_spawning(n, (i + 1) as nat),
                ..s
            }
        } else {
            OrchestratorView { phase: Phase::Aborted(Fatal::Spawn(i)), ..s }
        },
        (Phase::Settling, Event::Slept) => OrchestratorView { phase: Phase::RunningPrimary, ..s },
        (Phase::RunningPrimary, Event::PrimaryExited(ok)) => if ok {
            OrchestratorView { phase: enter_interrupting(n, 0), ..s }
        } else {
            OrchestratorView { phase: Phase::Aborted(Fatal::Primary), ..s }
        },
        (Phase::Interrupting(i), Event::Interrupted(ok)) => OrchestratorView {
            records: s.records.update(
                i as int,
                if ok {
                    TaskStatus::Interrupted
                } else {
                    TaskStatus::NotInterrupted
                },
            ),
            phase: enter_interrupting(n, (i + 1) as nat),
            ..s
        },
        (Phase::Grace, Event::Slept) => OrchestratorView { phase: enter_killing(n, 0), ..s },
        (Phase::Killing(i), Event::KillDone(outcome)) => if outcome == KillOutcome::Failed {
            OrchestratorView {
                records: s.records.update(i as int, TaskStatus::CollectionFailed),
                phase: enter_killing(n, (i + 1) as nat),
                ..s
            }
        } else {
            OrchestratorView {
                records: s.records.update(i as int, TaskStatus::Killed),
                phase: Phase::Collecting(i),
                ..s
            }
        },
        (Phase::Collecting(i), Event::Waited(ok)) => OrchestratorView {
            records: s.records.update(
                i as int,
                if ok {
                    TaskStatus::Collected
                } else {
                    TaskStatus::CollectionFailed
                },
            ),
            phase: enter_killing(n, (i + 1) as nat),
            ..s
        },
        (Phase::ResolvingPrefix, Event::PrefixChosen(p)) => match p {
            Some(p) => OrchestratorView { prefix: p@, phase: Phase::CreatingOutdir, ..s },
            None => OrchestratorView { phase: Phase::Aborted(Fatal::Prefix), ..s },
        },
        (Phase::CreatingOutdir, Event::OutdirReady(ok)) => if ok {
            OrchestratorView { phase: seek(s, 0, Stream::Stdout), ..s }
        } else {
            OrchestratorView { phase: Phase::Aborted(Fatal::Outdir), ..s }
        },
        (Phase::Writing(j, stream), Event::Written(_)) => OrchestratorView {
            phase: seek_after(s, j as nat, stream),
            ..s
        },
        _ => s,
    }
}

/// `a` is the action that state `s` asks for.
pub open spec fn is_action_of(a: Action, s: OrchestratorView) -> bool {
    match s.phase {
        Phase::Spawning(i) => a == Action::Spawn(i),
        Phase::Settling => a == Action::Settle,
        Phase::RunningPrimary => a == Action::RunPrimary,
        Phase::Interrupting(i) => a == Action::Interrupt(i),
        Phase::Grace => a == Action::Grace,
        Phase::Killing(i) => a == Action::Kill(i),
        Phase::Collecting(i) => a == Action::Wait(i),
        Phase::ResolvingPrefix => a == Action::ResolvePrefix,
        Phase::CreatingOutdir => a == Action::CreateOutdir,
        Phase::Writing(j, st) => match a {
            Action::Write { source, stream, file_name } => {
                &&& source == slot_source(j as nat)
                &&& stream == st
                &&& file_name@ == s.prefix + slot_suffix(s, j as nat, st).unwrap()
            },
            _ => false,
        },
        Phase::Finished => a == Action::Finish,
        Phase::Aborted(f) => a == Action::Abort(f),
    }
}

pub open spec fn signaled(t: TaskStatus) -> bool {
    t == TaskStatus::Interrupted || t == TaskStatus::NotInterrupted
}

pub open spec fn settled(t: TaskStatus) -> bool {
    t == TaskStatus::Collected || t == TaskStatus::CollectionFailed
}

impl OrchestratorView {
    pub open spec fn all_running(self, upto: nat) -> bool {
        forall|k: int| 0 <= k < upto ==> self.records[k] == TaskStatus::Running
    }

    pub open spec fn all_settled(self) -> bool {
        &&& self.records.len() == self.tasks.len()
        &&& forall|k: int| 0 <= k < self.records.len() ==> settled(#[trigger] self.records[k])
    }

    /// Records before `i` are settled, records from `i` on have been signalled.
    pub open spec fn killed_upto(self, i: nat) -> bool {
        &&& self.records.len() == self.tasks.len()
        &&& forall|k: int| 0 <= k < i ==> settled(#[trigger] self.records[k])
        &&& forall|k: int| i < k < self.records.len() ==> signaled(#[trigger] self.records[k])
    }

    /// The invariant of a run: which records exist and where each stands,
    /// by phase.
    pub open spec fn wf(self) -> bool {
        let n = self.tasks.len();
        &&& n <= usize::MAX
        &&& self.phase_wf()
    }

    pub open spec fn phase_wf(self) -> bool {
        let n = self.tasks.len();
        match self.phase {
            Phase::Spawning(i) => i < n && self.records.len() == i && self.all_running(i as nat),
            Phase::Settling | Phase::RunningPrimary => self.records.len() == n && self.all_running(n),
            Phase::Interrupting(i) => {
                &&& i < n
                &&& self.records.len() == n
                &&& forall|k: int| 0 <= k < i ==> signaled(#[trigger] self.records[k])
                &&& forall|k: int| i <= k < n ==> #[trigger] self.records[k] == TaskStatus::Running
            },
            Phase::Grace => {
                &&& self.records.len() == n
                &&& forall|k: int| 0 <= k < n ==> signaled(#[trigger] self.records[k])
            },
            Phase::Killing(i) => i < n && self.killed_upto(i as nat) && signaled(self.records[i as int]),
            Phase::Collecting(i) => {
                &&& i < n
                &&& self.killed_upto(i as nat)
                &&& self.records[i as int] == TaskStatus::Killed
            },
            Phase::ResolvingPrefix | Phase::CreatingOutdir | Phase::Finished => self.all_settled(),
            Phase::Writing(j, st) => self.all_settled() && j <= n && writable(self, j as nat, st),
            Phase::Aborted(_) => self.records.len() <= n,
        }
    }
}

/// A run in progress: the declared suffixes, one record per spawned
/// background task, the current phase and the chosen name prefix.
pub struct Orchestrator {
    tasks: Vec<Suffixes>,
    primary: Suffixes,
    records: Vec<TaskStatus>,
    phase: Phase,
    prefix: String,
}

impl View for Orchestrator {
    type V = OrchestratorView;

    closed spec fn view(&self) -> OrchestratorView {
        OrchestratorView {
            tasks: self.tasks@.map_values(|t: Suffixes| t.view()),
            primary: self.primary.view(),
            records: self.records@,
            phase: self.phase,
            prefix: self.prefix@,
        }
    }
}

/// The suffixes of each declaration, by index.
pub open spec fn suffixes_of(tasks: Seq<TaskSpec>) -> Seq<SuffixPair> {
    tasks.map_values(|t: TaskSpec| t.suffixes.view())
}

impl Orchestrator {
    /// A run of the declared background tasks around a primary task whose
    /// streams go to `primary`'s suffixes.
    pub fn new(tasks: &Vec<TaskSpec>, primary: Suffixes) -> (r: Orchestrator)
        ensures
            r@ == initial(suffixes_of(tasks@), primary.view()),
            r@.wf(),
    {
        let mut kept: Vec<Suffixes> = Vec::new();
        let mut i: usize = 0;
        while i < tasks.len()
            invariant
                i <= tasks.len(),
                kept@.len() == i,
                forall|k: int| 0 <= k < i ==> #[trigger] kept@[k].view() == tasks@[k].suffixes.view(),
            decreases tasks.len() - i,
        {
            kept.push(tasks[i].suffixes.copy());
            i = i + 1;
        }
        assert(kept@.map_values(|t: Suffixes| t.view()) =~= suffixes_of(tasks@));
        let phase = if tasks.len() > 0 {
            Phase::Spawning(0)
        } else {
            Phase::Settling
        };
        Orchestrator { tasks: kept, primary, records: Vec::new(), phase, prefix: String::new() }
    }

    /// The current phase.
    pub fn phase(&self) -> (r: Phase)
        ensures
            r == self@.phase,
    {
        self.phase
    }

    /// The record of background task `i`, if it was spawned.
    pub fn record(&self, i: usize) -> (r: Option<TaskStatus>)
        ensures
            r == (if i < self@.records.len() {
                Some(self@.records[i as int])
            } else {
                None
            }),
    {
        if i < self.records.len() {
            Some(self.records[i])
        } else {
            None
        }
    }

    /// The number of declared background tasks.
    pub fn task_count(&self) -> (r: usize)
        ensures
            r == self@.tasks.len(),
    {
        self.tasks.len()
    }

    fn suffix_at(&self, j: usize, stream: Stream) -> (r: &Option<String>)
        requires
            j <= self@.tasks.len(),
        ensures
            opt_view(*r) == slot_suffix(self@, j as nat, stream),
    {
        if j == 0 {
            self.primary.of(stream)
        } else {
            self.tasks[j - 1].of(stream)
        }
    }

    fn is_writable(&self, j: usize, stream: Stream) -> (r: bool)
        requires
            j <= self@.tasks.len(),
            self@.records.len() == self@.tasks.len(),
        ensures
            r == writable(self@, j as nat, stream),
    {
        self.suffix_at(j, stream).is_some() && (j == 0 || self.records[j - 1]
            == TaskStatus::Collected)
    }

    /// The first saved slot at or after `(j, stream)`.
    fn seek_from(&self, from: usize, stream: Stream) -> (r: Phase)
        requires
            from <= self@.tasks.len(),
            self@.records.len() == self@.tasks.len(),
        ensures
            r == seek(self@, from as nat, stream),
    {
        let n = self.tasks.len();
        let mut j = from;
        let mut st = stream;
        let ghost start = seek(self@, from as nat, stream);
        loop
            invariant
                j <= n,
                n == self@.tasks.len(),
                self@.records.len() == n,
                seek(self@, j as nat, st) == start,
                start == seek(self@, from as nat, stream),
            decreases 2 * (n + 1) - slot_rank(j as nat, st),
        {
            if self.is_writable(j, st) {
                assert(seek(self@, j as nat, st) == Phase::Writing(j, st));
                return Phase::Writing(j, st);
            }
            match st {
                Stream::Stdout => {
                    st = Stream::Stderr;
                },
                Stream::Stderr => {
                    if j == n {
                        assert(seek(self@, (j + 1) as nat, Stream::Stdout) == Phase::Finished);
                        return Phase::Finished;
                    }
                    j = j + 1;
                    st = Stream::Stdout;
                },
            }
        }
    }

    /// Takes in the outcome of the pending action, moves to the next state
    /// and returns the action that this state asks for.
    pub fn step(&mut self, e: Event) -> (a: Action)
        requires
            old(self)@.wf(),
        ensures
            final(self)@ == next(old(self)@, e),
            final(self)@.wf(),
            is_action_of(a, final(self)@),
    {
        proof {
            lemma_next_wf(self@, e);
        }
        let n = self.tasks.len();
        match (self.phase, e) {
            (Phase::Spawning(i), Event::Spawned(ok)) => {
                if ok {
                    self.records.push(TaskStatus::Running);
                    self.phase = if i + 1 < n {
                        Phase::Spawning(i + 1)
                    } else {
                        Phase::Settling
                    };
                } else {
                    self.phase = Phase::Aborted(Fatal::Spawn(i));
                }
            },
            (Phase::Settling, Event::Slept) => {
                self.phase = Phase::RunningPrimary;
            },
            (Phase::RunningPrimary, Event::PrimaryExited(ok)) => {
                self.phase = if !ok {
                    Phase::Aborted(Fatal::Primary)
                } else if 0 < n {
                    Phase::Interrupting(0)
                } else {
                    Phase::Grace
                };
            },
            (Phase::Interrupting(i), Event::Interrupted(ok)) => {
                let status = if ok {
                    TaskStatus::Interrupted
                } else {
                    TaskStatus::NotInterrupted
                };
                self.records.set(i, status);
                self.phase = if i + 1 < n {
                    Phase::Interrupting(i + 1)
                } else {
                    Phase::Grace
                };
            },
            (Phase::Grace, Event::Slept) => {
                self.phase = if 0 < n {
                    Phase::Killing(0)
                } else {
                    Phase::ResolvingPrefix
                };
            },
            (Phase::Killing(i), Event::KillDone(outcome)) => {
                if outcome == KillOutcome::Failed {
                    self.records.set(i, TaskStatus::CollectionFailed);
                    self.phase = if i + 1 < n {
                        Phase::Killing(i + 1)
                    } else {
                        Phase::ResolvingPrefix
                    };
                } else {
                    self.records.set(i, TaskStatus::Killed);
                    self.phase = Phase::Collecting(i);
                }
            },
            (Phase::Collecting(i), Event::Waited(ok)) => {
                let status = if ok {
                    TaskStatus::Collected
                } else {
                    TaskStatus::CollectionFailed
                };
                self.records.set(i, status);
                self.phase = if i + 1 < n {
                    Phase::Killing(i + 1)
                } else {
                    Phase::ResolvingPrefix
                };
            },
            (Phase::ResolvingPrefix, Event::PrefixChosen(p)) => {
                match p {
                    Some(p) => {
                        self.prefix = p;
                        self.phase = Phase::CreatingOutdir;
                    },
                    None => {
                        self.phase = Phase::Aborted(Fatal::Prefix);
                    },
                }
            },
            (Phase::CreatingOutdir, Event::OutdirReady(ok)) => {
                self.phase = if ok {
                    self.seek_from(0, Stream::Stdout)
                } else {
                    Phase::Aborted(Fatal::Outdir)
                };
            },
            (Phase::Writing(j, stream), Event::Written(_)) => {
                self.phase = match stream {
                    Stream::Stdout => self.seek_from(j, Stream::Stderr),
                    Stream::Stderr => if j < n {
                        self.seek_from(j + 1, Stream::Stdout)
                    } else {
                        proof {
                            assert(seek(self@, (j + 1) as nat, Stream::Stdout) == Phase::Finished);
                        }
                        Phase::Finished
                    },
                };
            },
            _ => {},
        }
        proof {
            assert(self@.tasks == old(self)@.tasks);
            assert(self@.records =~= next(old(self)@, e).records);
        }
        self.action()
    }

    /// The action that the current state asks for.
    pub fn action(&self) -> (a: Action)
        requires
            self@.wf(),
        ensures
            is_action_of(a, self@),
    {
        match self.phase {
            Phase::Spawning(i) => Action::Spawn(i),
            Phase::Settling => Action::Settle,
            Phase::RunningPrimary => Action::RunPrimary,
            Phase::Interrupting(i) => Action::Interrupt(i),
            Phase::Grace => Action::Grace,
            Phase::Killing(i) => Action::Kill(i),
            Phase::Collecting(i) => Action::Wait(i),
            Phase::ResolvingPrefix => Action::ResolvePrefix,
            Phase::CreatingOutdir => Action::CreateOutdir,
            Phase::Writing(j, stream) => {
                let source = if j == 0 {
                    Source::Primary
                } else {
                    Source::Background(j - 1)
                };
                let file_name = match self.suffix_at(j, stream) {
                    Some(sfx) => output_file_name(self.prefix.as_str(), sfx.as_str()),
                    None => String::new(),
                };
                Action::Write { source, stream, file_name }
            },
            Phase::Finished => Action::Finish,
            Phase::Aborted(f) => Action::Abort(f),
        }
    }
}

/// Where `seek` lands: on a saved slot no earlier than where it started,
/// or past the last slot.
pub proof fn lemma_seek(s: OrchestratorView, j: nat, stream: Stream)
    requires
        s.tasks.len() <= usize::MAX,
    ensures
        match seek(s, j, stream) {
            Phase::Writing(j2, st2) => {
                &&& j2 <= s.tasks.len()
                &&& writable(s, j2 as nat, st2)
                &&& slot_rank(j2 as nat, st2) >= slot_rank(j, stream)
            },
            Phase::Finished => true,
            _ => false,
        },
    decreases 2 * (s.tasks.len() + 1) - slot_rank(j, stream),
{
    if j > s.tasks.len() {
    } else if writable(s, j, stream) {
    } else if stream == Stream::Stdout {
        lemma_seek(s, j, Stream::Stderr);
    } else {
        lemma_seek(s, (j + 1) as nat, Stream::Stdout);
    }
}

/// Every transition keeps the invariant of a run.
pub proof fn lemma_next_wf(s: OrchestratorView, e: Event)
    requires
        s.wf(),
    ensures
        next(s, e).wf(),
{
    let t = next(s, e);
    match (s.phase, e) {
        (Phase::CreatingOutdir, Event::OutdirReady(true)) => {
            lemma_seek(s, 0, Stream::Stdout);
        },
        (Phase::Writing(j, stream), Event::Written(_)) => {
            if stream == Stream::Stdout {
                lemma_seek(s, j as nat, Stream::Stderr);
            } else {
                lemma_seek(s, (j + 1) as nat, Stream::Stdout);
            }
        },
        (Phase::Interrupting(i), Event::Interrupted(_)) => {
            assert(forall|k: int| 0 <= k < i + 1 ==> signaled(#[trigger] t.records[k]));
        },
        _ => {},
    }
}

/// The state after a sequence of events, taken in order.
pub open spec fn run(s: OrchestratorView, evs: Seq<Event>) -> OrchestratorView
    decreases evs.len(),
{
    if evs.len() == 0 {
        s
    } else {
        next(run(s, evs.drop_last()), evs.last())
    }
}

/// Every sequence of events keeps the invariant of a run.
pub proof fn lemma_run_wf(s: OrchestratorView, evs: Seq<Event>)
    requires
        s.wf(),
    ensures
        run(s, evs).wf(),
        run(s, evs).tasks == s.tasks,
        run(s, evs).primary == s.primary,
    decreases evs.len(),
{
    if evs.len() > 0 {
        lemma_run_wf(s, evs.drop_last());
        lemma_next_wf(run(s, evs.drop_last()), evs.last());
    }
}

/// A run starts in a state that satisfies its invariant.
pub proof fn lemma_initial_wf(tasks: Seq<SuffixPair>, primary: SuffixPair)
    requires
        tasks.len() <= usize::MAX,
    ensures
        initial(tasks, primary).wf(),
{
}

/// Whatever the events, once a run reaches the interrupt phase it tracks
/// one record for each declared background task, and on entering that
/// phase every one of them is still running: no task is lost between
/// spawning and interrupting.
pub proof fn lemma_all_tracked_at_interrupt(
    tasks: Seq<SuffixPair>,
    primary: SuffixPair,
    evs: Seq<Event>,
)
    requires
        tasks.len() <= usize::MAX,
        run(initial(tasks, primary), evs).phase is Interrupting,
    ensures
        run(initial(tasks, primary), evs).records.len() == tasks.len(),
        run(initial(tasks, primary), evs).phase == Phase::Interrupting(0) ==> forall|k: int|
            0 <= k < tasks.len() ==> run(initial(tasks, primary), evs).records[k]
                == TaskStatus::Running,
{
    lemma_initial_wf(tasks, primary);
    lemma_run_wf(initial(tasks, primary), evs);
}

/// `k` reports of a successful spawn.
pub open spec fn spawn_successes(k: nat) -> Seq<Event> {
    Seq::new(k, |_i: int| Event::Spawned(true))
}

proof fn lemma_spawning_prefix(tasks: Seq<SuffixPair>, primary: SuffixPair, k: nat)
    requires
        tasks.len() <= usize::MAX,
        k <= tasks.len(),
    ensures
        run(initial(tasks, primary), spawn_successes(k)).records.len() == k,
        run(initial(tasks, primary), spawn_successes(k)).phase == enter_spawning(tasks.len(), k),
        run(initial(tasks, primary), spawn_successes(k)).tasks == tasks,
    decreases k,
{
    if k > 0 {
        assert(spawn_successes(k).drop_last() =~= spawn_successes((k - 1) as nat));
        lemma_spawning_prefix(tasks, primary, (k - 1) as nat);
    }
}

/// When every declared background task spawns and the primary task runs,
/// the run enters the interrupt phase (or, with no background task, the
/// grace delay) holding exactly one running record per declared task.
pub proof fn lemma_spawned_all_reach_interrupt(tasks: Seq<SuffixPair>, primary: SuffixPair)
    requires
        tasks.len() <= usize::MAX,
    ensures
        ({
            let evs = spawn_successes(tasks.len()) + seq![Event::Slept, Event::PrimaryExited(true)];
            let t = run(initial(tasks, primary), evs);
            &&& t.phase == (if tasks.len() > 0 {
                Phase::Interrupting(0)
            } else {
                Phase::Grace
            })
            &&& t.records.len() == tasks.len()
            &&& forall|k: int| 0 <= k < tasks.len() ==> t.records[k] == TaskStatus::Running
        }),
{
    let s0 = initial(tasks, primary);
    let sp = spawn_successes(tasks.len());
    let evs = sp + seq![Event::Slept, Event::PrimaryExited(true)];
    lemma_spawning_prefix(tasks, primary, tasks.len());
    lemma_initial_wf(tasks, primary);
    lemma_run_wf(s0, sp);
    assert(evs.drop_last().drop_last() =~= sp);
    assert(evs.drop_last().last() == Event::Slept);
    assert(evs.last() == Event::PrimaryExited(true));
    let t1 = run(s0, sp);
    assert(run(s0, evs.drop_last()) == next(t1, Event::Slept));
    assert(run(s0, evs) == next(next(t1, Event::Slept), Event::PrimaryExited(true)));
}

/// The phases that come only after the primary task has exited.
pub open spec fn after_primary(phase: Phase) -> bool {
    match phase {
        Phase::Spawning(_) | Phase::Settling | Phase::RunningPrimary => false,
        Phase::Aborted(f) => f == Fatal::Prefix || f == Fatal::Outdir,
        _ => true,
    }
}

proof fn lemma_after_primary_needs_exit(tasks: Seq<SuffixPair>, primary: SuffixPair, evs: Seq<Event>)
    requires
        after_primary(run(initial(tasks, primary), evs).phase),
    ensures
        exists|k: int| 0 <= k < evs.len() && evs[k] == Event::PrimaryExited(true),
    decreases evs.len(),
{
    if evs.len() > 0 {
        let prev = evs.drop_last();
        if after_primary(run(initial(tasks, primary), prev).phase) {
            lemma_after_primary_needs_exit(tasks, primary, prev);
            let k = choose|k: int| 0 <= k < prev.len() && prev[k] == Event::PrimaryExited(true);
            assert(evs[k] == prev[k]);
        } else {
            assert(evs[evs.len() - 1] == Event::PrimaryExited(true));
        }
    }
}

/// No background task is interrupted before the primary task has exited:
/// whenever a run asks for an interrupt, the events so far include the
/// report that the primary task ran to completion.
pub proof fn lemma_interrupt_after_primary(
    tasks: Seq<SuffixPair>,
    primary: SuffixPair,
    evs: Seq<Event>,
    a: Action,
)
    requires
        is_action_of(a, run(initial(tasks, primary), evs)),
        a is Interrupt,
    ensures
        exists|k: int| 0 <= k < evs.len() && evs[k] == Event::PrimaryExited(true),
{
    lemma_after_primary_needs_exit(tasks, primary, evs);
}

/// A kill that finds the process already exited counts as a successful
/// kill: the run goes on exactly as after one, to waiting on the task, and
/// a successful wait then leaves the task collected.
pub proof fn lemma_already_exited_is_killed(s: OrchestratorView, i: usize)
    requires
        s.wf(),
        s.phase == Phase::Killing(i),
    ensures
        next(s, Event::KillDone(KillOutcome::AlreadyExited)) == next(
            s,
            Event::KillDone(KillOutcome::Killed),
        ),
        next(s, Event::KillDone(KillOutcome::AlreadyExited)).phase == Phase::Collecting(i),
        next(next(s, Event::KillDone(KillOutcome::AlreadyExited)), Event::Waited(true)).records[i as int]
            == TaskStatus::Collected,
{
}

/// The phases past the kill and collection of background task `i`.
pub open spec fn past_task(phase: Phase, i: nat) -> bool {
    match phase {
        Phase::Killing(k) => k > i,
        Phase::Collecting(k) => k > i,
        Phase::ResolvingPrefix | Phase::CreatingOutdir | Phase::Writing(_, _) | Phase::Finished => true,
        Phase::Aborted(f) => f == Fatal::Prefix || f == Fatal::Outdir,
        _ => false,
    }
}

/// An action that saves a stream of `src`.
pub open spec fn writes_for(a: Action, src: Source) -> bool {
    match a {
        Action::Write { source, .. } => source == src,
        _ => false,
    }
}

proof fn lemma_next_keeps_past(s: OrchestratorView, i: nat, e: Event)
    requires
        s.wf(),
        past_task(s.phase, i),
    ensures
        past_task(next(s, e).phase, i),
{
    match (s.phase, e) {
        (Phase::CreatingOutdir, Event::OutdirReady(true)) => {
            lemma_seek(s, 0, Stream::Stdout);
        },
        (Phase::Writing(j, stream), Event::Written(_)) => {
            if stream == Stream::Stdout {
                lemma_seek(s, j as nat, Stream::Stderr);
            } else {
                lemma_seek(s, (j + 1) as nat, Stream::Stdout);
            }
        },
        _ => {},
    }
}

proof fn lemma_record_kept(s: OrchestratorView, i: nat, evs: Seq<Event>)
    requires
        s.wf(),
        past_task(s.phase, i),
        i < s.records.len(),
    ensures
        past_task(run(s, evs).phase, i),
        run(s, evs).records.len() == s.records.len(),
        run(s, evs).records[i as int] == s.records[i as int],
    decreases evs.len(),
{
    if evs.len() > 0 {
        lemma_record_kept(s, i, evs.drop_last());
        lemma_run_wf(s, evs.drop_last());
        lemma_next_keeps_past(run(s, evs.drop_last()), i, evs.last());
    }
}

/// A background task whose kill fails is never saved: whatever happens
/// afterwards, no action writes a stream of it.
pub proof fn lemma_kill_failure_never_written(
    s: OrchestratorView,
    i: usize,
    evs: Seq<Event>,
    a: Action,
)
    requires
        s.wf(),
        s.phase == Phase::Killing(i),
        is_action_of(a, run(next(s, Event::KillDone(KillOutcome::Failed)), evs)),
    ensures
        !writes_for(a, Source::Background(i)),
{
    let t = next(s, Event::KillDone(KillOutcome::Failed));
    lemma_next_wf(s, Event::KillDone(KillOutcome::Failed));
    lemma_record_kept(t, i as nat, evs);
    lemma_run_wf(t, evs);
}

/// A stream is saved only under a configured suffix: a write that a run
/// asks for names a stream that has a suffix, and its file name is the
/// shared prefix followed by that suffix. A background task's stream is
/// saved only once the task was collected.
pub proof fn lemma_write_needs_suffix(s: OrchestratorView, a: Action)
    requires
        s.wf(),
        is_action_of(a, s),
        a is Write,
    ensures
        match a {
            Action::Write { source, stream, file_name } => match source {
                Source::Primary => {
                    &&& suffix_for(s.primary, stream) is Some
                    &&& file_name@ == s.prefix + suffix_for(s.primary, stream).unwrap()
                },
                Source::Background(i) => {
                    &&& i < s.tasks.len()
                    &&& s.records[i as int] == TaskStatus::Collected
                    &&& suffix_for(s.tasks[i as int], stream) is Some
                    &&& file_name@ == s.prefix + suffix_for(s.tasks[i as int], stream).unwrap()
                },
            },
            _ => false,
        },
{
}

} // verus!
