//! The life of one pipeline, from the making of its log directory to the
//! removal of its registry entry, as a machine of states. The machine says
//! what is to be done next; its caller does it and reports what came of it.
//!
//! A chain is started from the first stage to the last and is made known in
//! the registry as soon as its first stage runs. While it runs, its last
//! stage and the shutdown signal are watched. The chain is left to end on its
//! own, or, on a shutdown, its first stage alone is asked to end: the later
//! stages then work off what is under way, and nothing written so far is
//! lost. Either way every stage is awaited, in stage order, before the
//! registry entry goes.

use crate::pipeline::{
    InputSource, LaunchView, OutputSink, Pipeline, PipelineView, StageLaunch, RUNNING_DIR,
};
use crate::registry::{
    entry_of, register, removals_of, unregister, EntryView, RegistryEntry, Removal, RemovalView,
};
use crate::text::views;
use vstd::prelude::*;

verus! {

/// Where a pipeline stands in its life.
#[derive(Debug, Clone, Copy, PartialEq, Eq, Structural)]
pub enum Phase {
    /// Nothing runs yet: the log directory is to be made.
    Preparing,
    /// The stages are being started, and the chain is being made known.
    Spawning,
    /// Every stage runs.
    Running,
    /// The shutdown signal was seen: the first stage is to be asked to end.
    ShutdownRequested,
    /// The last stage was seen to have ended by itself: nobody is asked to end.
    LastStageExited,
    /// A stage could not be started: the first stage is to be asked to end.
    SpawnFailed,
    /// The chain could not be made known: the first stage is to be asked to end.
    RegisterFailed,
    /// The stages are awaited, in stage order.
    Draining,
    /// Every stage that was started has been awaited.
    Terminated,
}

/// How a stage ended.
#[derive(Debug, Clone, Copy, PartialEq, Eq, Structural)]
pub enum StageExit {
    /// It ended by itself with this exit code.
    Code(i32),
    /// A signal ended it.
    Signalled,
    /// Waiting for it failed: how it ended is not known.
    WaitFailed,
}

/// Why a pipeline did not come to run.
#[derive(Debug, Clone, Copy, PartialEq, Eq, Structural)]
pub enum Failure {
    /// Its log directory could not be made, or its registry entry could not
    /// be written.
    Io,
    /// One of its stages could not be started.
    Spawn,
}

/// What the caller reports.
#[derive(Debug, Clone, Copy, PartialEq, Eq, Structural)]
pub enum Event {
    /// The log directory was made, or could not be made.
    Prepared { ok: bool },
    /// The stage asked for runs as process `pid`.
    Spawned { pid: u32 },
    /// The stage asked for could not be started.
    SpawnFailed,
    /// The registry entry was written.
    Registered,
    /// The registry entry could not be written, or not all of it.
    RegisterFailed,
    /// One look at the last stage and at the shutdown signal.
    Polled { last_stage_exited: bool, shutdown_requested: bool },
    /// The request to end was sent.
    TerminationSent,
    /// The stage asked for was awaited.
    Reaped(StageExit),
    /// The registry entry was removed, as far as it could be.
    Unregistered,
}

/// What the caller is to do next.
#[derive(Debug, PartialEq)]
pub enum Action {
    /// Make the directory for the log files, then report `Prepared`.
    Prepare { log_dir: String },
    /// Start this stage, then report `Spawned` or `SpawnFailed`.
    Spawn(StageLaunch),
    /// Write this registry entry, then report `Registered` or `RegisterFailed`.
    Register(RegistryEntry),
    /// Look whether the last stage has ended and whether shutdown is
    /// requested, then report `Polled`.
    Poll,
    /// Ask this stage to end, then report `TerminationSent`.
    Terminate { stage: usize, pid: u32 },
    /// Wait for this stage to end, then report `Reaped`.
    Reap { stage: usize, pid: u32 },
    /// Remove these, in this order, then report `Unregistered`.
    Unregister(Vec<Removal>),
    /// Nothing is left to do.
    Done,
}

/// An action as plain values.
pub enum ActionView {
    Prepare { log_dir: Seq<char> },
    Spawn(LaunchView),
    Register(EntryView),
    Poll,
    Terminate { stage: nat, pid: u32 },
    Reap { stage: nat, pid: u32 },
    Unregister(Seq<RemovalView>),
    Done,
}

impl View for Action {
    type V = ActionView;

    open spec fn view(&self) -> ActionView {
        match self {
            Action::Prepare { log_dir } => ActionView::Prepare { log_dir: log_dir@ },
            Action::Spawn(launch) => ActionView::Spawn(launch@),
            Action::Register(entry) => ActionView::Register(entry@),
            Action::Poll => ActionView::Poll,
            Action::Terminate { stage, pid } => ActionView::Terminate { stage: *stage as nat, pid: *pid },
            Action::Reap { stage, pid } => ActionView::Reap { stage: *stage as nat, pid: *pid },
            Action::Unregister(removals) => ActionView::Unregister(views(removals@)),
            Action::Done => ActionView::Done,
        }
    }
}

/// The one who sees a pipeline through its life.
pub struct Supervisor {
    pipeline: Pipeline,
    input: InputSource,
    output: OutputSink,
    registry_root: String,
    phase: Phase,
    registered: bool,
    exits: Vec<StageExit>,
    failure: Option<Failure>,
}

/// A supervisor as plain values.
pub struct SupervisorView {
    pub pipeline: PipelineView,
    pub input: InputSource,
    pub output: OutputSink,
    pub registry_root: Seq<char>,
    pub phase: Phase,
    /// Whether the registry entry, or a part of it, may be on disk: writing
    /// it was tried and removing it was not.
    pub registered: bool,
    /// How the stages awaited so far ended: `exits[i]` is the end of stage `i`.
    pub exits: Seq<StageExit>,
    pub failure: Option<Failure>,
}

impl SupervisorView {
    /// Whether the first stage runs and the chain is not yet made known.
    pub open spec fn awaits_registration(self) -> bool {
        self.pipeline.jobs.len() >= 1 && !self.registered
    }

    /// What holds of a supervisor at every moment.
    pub open spec fn wf(self) -> bool {
        let started = self.pipeline.jobs.len();
        let stages = self.pipeline.commands.len();
        &&& self.pipeline.wf()
        &&& stages > 0
        &&& self.exits.len() <= started
        &&& self.registered ==> started >= 1
        &&& match self.phase {
            Phase::Preparing => started == 0 && !self.registered && self.failure is None,
            Phase::Spawning => self.exits.len() == 0 && self.failure is None && if self.registered {
                1 <= started < stages
            } else {
                started <= 1
            },
            Phase::Running | Phase::ShutdownRequested | Phase::LastStageExited => self.registered
                && started == stages && self.exits.len() == 0 && self.failure is None,
            Phase::SpawnFailed => self.registered && started >= 1 && self.exits.len() == 0
                && self.failure == Some(Failure::Spawn),
            Phase::RegisterFailed => self.registered && started == 1 && self.exits.len() == 0
                && self.failure == Some(Failure::Io),
            Phase::Draining => self.registered && self.exits.len() < started,
            Phase::Terminated => self.exits.len() == started,
        }
    }

    /// What the caller is to do next.
    pub open spec fn pending(self) -> ActionView {
        let name = self.pipeline.name;
        let jobs = self.pipeline.jobs;
        match self.phase {
            Phase::Preparing => ActionView::Prepare { log_dir: self.pipeline.logging_dir },
            Phase::Spawning => if self.awaits_registration() {
                ActionView::Register(entry_of(self.registry_root, name, jobs[0]))
            } else {
                ActionView::Spawn(self.pipeline.launch(jobs.len() as int, self.input, self.output))
            },
            Phase::Running => ActionView::Poll,
            Phase::ShutdownRequested | Phase::SpawnFailed | Phase::RegisterFailed => ActionView::Terminate {
                stage: 0,
                pid: jobs[0],
            },
            Phase::LastStageExited | Phase::Draining => ActionView::Reap {
                stage: self.exits.len(),
                pid: jobs[self.exits.len() as int],
            },
            Phase::Terminated => if self.registered {
                ActionView::Unregister(removals_of(self.registry_root, name))
            } else {
                ActionView::Done
            },
        }
    }

    /// The supervisor after one more stage was awaited.
    pub open spec fn awaited(self, exit: StageExit) -> SupervisorView {
        SupervisorView {
            exits: self.exits.push(exit),
            phase: if self.exits.len() + 1 == self.pipeline.jobs.len() {
                Phase::Terminated
            } else {
                Phase::Draining
            },
            ..self
        }
    }

    /// The supervisor after the caller's report `event`. Only the report that
    /// answers the pending action changes anything.
    pub open spec fn next(self, event: Event) -> SupervisorView {
        match (self.phase, event) {
            (Phase::Preparing, Event::Prepared { ok }) => if ok {
                SupervisorView { phase: Phase::Spawning, ..self }
            } else {
                SupervisorView { phase: Phase::Terminated, failure: Some(Failure::Io), ..self }
            },
            (Phase::Spawning, Event::Spawned { pid }) => if self.awaits_registration() {
                self
            } else {
                let pipeline = PipelineView { jobs: self.pipeline.jobs.push(pid), ..self.pipeline };
                SupervisorView {
                    pipeline,
                    phase: if pipeline.fully_spawned() && self.registered {
                        Phase::Running
                    } else {
                        Phase::Spawning
                    },
                    ..self
                }
            },
            (Phase::Spawning, Event::SpawnFailed) => if self.awaits_registration() {
                self
            } else {
                SupervisorView {
                    failure: Some(Failure::Spawn),
                    phase: if self.pipeline.jobs.len() == 0 {
                        Phase::Terminated
                    } else {
                        Phase::SpawnFailed
                    },
                    ..self
                }
            },
            (Phase::Spawning, Event::Registered) => if self.awaits_registration() {
                SupervisorView {
                    registered: true,
                    phase: if self.pipeline.fully_spawned() {
                        Phase::Running
                    } else {
                        Phase::Spawning
                    },
                    ..self
                }
            } else {
                self
            },
            (Phase::Spawning, Event::RegisterFailed) => if self.awaits_registration() {
                SupervisorView {
                    registered: true,
                    failure: Some(Failure::Io),
                    phase: Phase::RegisterFailed,
                    ..self
                }
            } else {
                self
            },
            (Phase::Running, Event::Polled { last_stage_exited, shutdown_requested }) => if shutdown_requested {
                SupervisorView { phase: Phase::ShutdownRequested, ..self }
            } else if last_stage_exited {
                SupervisorView { phase: Phase::LastStageExited, ..self }
            } else {
                self
            },
            (Phase::ShutdownRequested, Event::TerminationSent) => SupervisorView { phase: Phase::Draining, ..self },
            (Phase::SpawnFailed, Event::TerminationSent) => SupervisorView { phase: Phase::Draining, ..self },
            (Phase::RegisterFailed, Event::TerminationSent) => SupervisorView { phase: Phase::Draining, ..self },
            (Phase::LastStageExited, Event::Reaped(exit)) => self.awaited(exit),
            (Phase::Draining, Event::Reaped(exit)) => self.awaited(exit),
            (Phase::Terminated, Event::Unregistered) => SupervisorView { registered: false, ..self },
            _ => self,
        }
    }

    /// Whether every stage ended by itself with exit code 0.
    pub open spec fn all_succeeded(self) -> bool {
        forall|i: int| 0 <= i < self.exits.len() ==> #[trigger] self.exits[i] == StageExit::Code(0)
    }

    /// How the last stage ended, once the pipeline has ended after it came to run.
    pub open spec fn last_exit(self) -> Option<StageExit> {
        if self.phase == Phase::Terminated && self.failure is None && self.exits.len() > 0 {
            Some(self.exits.last())
        } else {
            None
        }
    }

    /// How the pipeline ended, once it has: whether every stage succeeded,
    /// or why it did not come to run.
    pub open spec fn outcome(self) -> Option<Result<bool, Failure>> {
        if self.phase != Phase::Terminated {
            None
        } else {
            match self.failure {
                Some(failure) => Some(Err(failure)),
                None => Some(Ok(self.all_succeeded())),
            }
        }
    }
}

impl View for Supervisor {
    type V = SupervisorView;

    closed spec fn view(&self) -> SupervisorView {
        SupervisorView {
            pipeline: self.pipeline@,
            input: self.input,
            output: self.output,
            registry_root: self.registry_root@,
            phase: self.phase,
            registered: self.registered,
            exits: self.exits@,
            failure: self.failure,
        }
    }
}

/// The supervisor of a pipeline of which nothing runs yet.
pub open spec fn start_of(pipeline: PipelineView, registry_root: Seq<char>, input: InputSource, output: OutputSink) -> SupervisorView {
    SupervisorView {
        pipeline,
        input,
        output,
        registry_root,
        phase: Phase::Preparing,
        registered: false,
        exits: Seq::empty(),
        failure: None,
    }
}

impl SupervisorView {
    /// The supervisor after the reports `events`, taken in order.
    pub open spec fn after(self, events: Seq<Event>) -> SupervisorView
        decreases events.len(),
    {
        if events.len() == 0 {
            self
        } else {
            self.after(events.drop_last()).next(events.last())
        }
    }

    /// Whether a request to end a stage is pending.
    pub open spec fn asks_to_end(self) -> bool {
        self.pending() is Terminate
    }

    /// Whether the time for requests to end is over: the stages are being
    /// awaited, or have been.
    pub open spec fn winding_down(self) -> bool {
        self.phase == Phase::LastStageExited || self.phase == Phase::Draining || self.phase
            == Phase::Terminated
    }
}

/// The reports that the processes `pids` were started, one stage after the other.
pub open spec fn spawned(pids: Seq<u32>) -> Seq<Event> {
    pids.map_values(|pid: u32| Event::Spawned { pid })
}

/// The reports that stages were awaited and ended as `exits` say.
pub open spec fn reaped(exits: Seq<StageExit>) -> Seq<Event> {
    exits.map_values(|exit: StageExit| Event::Reaped(exit))
}

/// `looks` looks that saw the last stage at work and no shutdown signal.
pub open spec fn quiet_looks(looks: nat) -> Seq<Event> {
    Seq::new(looks, |i: int| Event::Polled { last_stage_exited: false, shutdown_requested: false })
}

/// The reports of a chain that comes up, runs for a while and ends by
/// itself: its stages run as `pids` and end as `exits` say.
pub open spec fn natural_run(pids: Seq<u32>, looks: nat, exits: Seq<StageExit>) -> Seq<Event> {
    seq![Event::Prepared { ok: true }, Event::Spawned { pid: pids[0] }, Event::Registered]
        + spawned(pids.skip(1)) + quiet_looks(looks)
        + seq![Event::Polled { last_stage_exited: true, shutdown_requested: false }]
        + reaped(exits) + seq![Event::Unregistered]
}

/// No report leads out of what holds of a supervisor at every moment.
pub proof fn lemma_next_keeps_wf(s: SupervisorView, event: Event)
    requires
        s.wf(),
    ensures
        s.next(event).wf(),
{
}

/// Taking one report after the other is taking them all.
pub proof fn lemma_after_concat(s: SupervisorView, first: Seq<Event>, then: Seq<Event>)
    ensures
        s.after(first + then) == s.after(first).after(then),
    decreases then.len(),
{
    if then.len() == 0 {
        assert(first + then =~= first);
    } else {
        lemma_after_concat(s, first, then.drop_last());
        assert((first + then).drop_last() =~= first + then.drop_last());
    }
}

/// One report taken alone.
pub proof fn lemma_after_one(s: SupervisorView, event: Event)
    ensures
        s.after(seq![event]) == s.next(event),
{
    assert(seq![event].drop_last() =~= Seq::<Event>::empty());
    assert(s.after(seq![event].drop_last()) == s);
}

/// Whatever is reported, what holds of a supervisor at every moment holds.
pub proof fn lemma_after_keeps_wf(s: SupervisorView, events: Seq<Event>)
    requires
        s.wf(),
    ensures
        s.after(events).wf(),
    decreases events.len(),
{
    if events.len() > 0 {
        lemma_after_keeps_wf(s, events.drop_last());
        lemma_next_keeps_wf(s.after(events.drop_last()), events.last());
    }
}

/// A request to end a stage goes to the first stage and to no other,
/// whatever was reported before; and it is made only on a shutdown signal or
/// when the chain did not come up or could not be made known.
pub proof fn lemma_only_the_first_stage_is_asked_to_end(s: SupervisorView, events: Seq<Event>)
    requires
        s.wf(),
    ensures
        s.after(events).pending() matches ActionView::Terminate { stage, pid } ==> stage == 0
            && pid == s.after(events).pipeline.jobs[0] && s.after(events).pipeline.jobs.len() > 0 && (
        s.after(events).phase == Phase::ShutdownRequested || s.after(events).phase
            == Phase::SpawnFailed || s.after(events).phase == Phase::RegisterFailed),
{
    lemma_after_keeps_wf(s, events);
}

/// The registry entry brackets the run: it is written when the first stage
/// runs and before any other stage is started or anything is watched, asked
/// or awaited; it is removed only after every stage that was started has been
/// awaited; and when nothing is left to do it is gone.
pub proof fn lemma_entry_brackets_the_run(s: SupervisorView)
    requires
        s.wf(),
    ensures
        s.pending() is Register ==> s.pipeline.jobs.len() == 1 && !s.registered,
        s.pending() is Spawn ==> (s.pipeline.jobs.len() >= 1 ==> s.registered),
        s.pending() is Poll || s.pending() is Terminate || s.pending() is Reap ==> s.registered,
        s.pending() is Unregister ==> s.registered && s.exits.len() == s.pipeline.jobs.len(),
        s.pending() is Done ==> !s.registered && s.exits.len() == s.pipeline.jobs.len(),
{
}

/// When the shutdown signal is seen while the chain runs, the first stage is
/// asked to end, whether or not the last stage has ended too.
pub proof fn lemma_shutdown_asks_the_first_stage(s: SupervisorView, last_stage_exited: bool)
    requires
        s.wf(),
        s.phase == Phase::Running,
    ensures
        s.next(Event::Polled { last_stage_exited, shutdown_requested: true }).pending()
            == (ActionView::Terminate { stage: 0, pid: s.pipeline.jobs[0] }),
        s.next(Event::Polled { last_stage_exited, shutdown_requested: true }).next(
            Event::TerminationSent,
        ).phase == Phase::Draining,
{
}

/// Once the stages are being awaited nobody is asked to end any more: a
/// chain whose last stage ended by itself is never asked, and a chain that
/// was asked is asked once.
pub proof fn lemma_winding_down_asks_nobody(s: SupervisorView, events: Seq<Event>)
    requires
        s.wf(),
        s.winding_down(),
    ensures
        s.after(events).winding_down(),
        !s.after(events).asks_to_end(),
    decreases events.len(),
{
    if events.len() > 0 {
        lemma_winding_down_asks_nobody(s, events.drop_last());
    }
}

/// The last stage ending by itself starts the waiting with no request to
/// anybody.
pub proof fn lemma_natural_exit_asks_nobody(s: SupervisorView, events: Seq<Event>)
    requires
        s.wf(),
        s.phase == Phase::Running,
    ensures
        !s.next(Event::Polled { last_stage_exited: true, shutdown_requested: false }).after(
            events,
        ).asks_to_end(),
{
    let t = s.next(Event::Polled { last_stage_exited: true, shutdown_requested: false });
    lemma_next_keeps_wf(s, Event::Polled { last_stage_exited: true, shutdown_requested: false });
    lemma_winding_down_asks_nobody(t, events);
}

/// Every stage that was started is awaited, in stage order, however the
/// stages before it ended and whether or not waiting for them failed: after
/// as many reports as stages were left, all are awaited.
pub proof fn lemma_every_stage_is_awaited(s: SupervisorView, exits: Seq<StageExit>)
    requires
        s.wf(),
        s.phase == Phase::LastStageExited || s.phase == Phase::Draining,
        s.exits.len() + exits.len() <= s.pipeline.jobs.len(),
    ensures
        s.after(reaped(exits)) == (SupervisorView {
            exits: s.exits + exits,
            phase: if s.exits.len() + exits.len() == s.pipeline.jobs.len() {
                Phase::Terminated
            } else if exits.len() == 0 {
                s.phase
            } else {
                Phase::Draining
            },
            ..s
        }),
        s.exits.len() + exits.len() < s.pipeline.jobs.len() ==> s.after(reaped(exits)).pending()
            == (ActionView::Reap {
            stage: s.exits.len() + exits.len(),
            pid: s.pipeline.jobs[(s.exits.len() + exits.len()) as int],
        }),
    decreases exits.len(),
{
    if exits.len() == 0 {
        assert(s.exits + exits =~= s.exits);
    } else {
        let before = exits.drop_last();
        lemma_every_stage_is_awaited(s, before);
        assert(reaped(exits).drop_last() =~= reaped(before));
        assert(reaped(exits).last() == Event::Reaped(exits.last()));
        assert((s.exits + before).push(exits.last()) =~= s.exits + exits);
    }
}

/// Looks that see nothing new change nothing.
pub proof fn lemma_quiet_looks_change_nothing(s: SupervisorView, looks: nat)
    requires
        s.phase == Phase::Running,
    ensures
        s.after(quiet_looks(looks)) == s,
    decreases looks,
{
    if looks > 0 {
        lemma_quiet_looks_change_nothing(s, (looks - 1) as nat);
        assert(quiet_looks(looks).drop_last() =~= quiet_looks((looks - 1) as nat));
    }
}

/// Once the chain is made known, the stages left are started one after the
/// other, and the chain runs when the last of them does.
pub proof fn lemma_stages_are_started_in_order(s: SupervisorView, pids: Seq<u32>)
    requires
        s.wf(),
        s.registered,
        s.phase == Phase::Spawning || s.phase == Phase::Running,
        s.pipeline.jobs.len() + pids.len() <= s.pipeline.commands.len(),
    ensures
        s.after(spawned(pids)) == (SupervisorView {
            pipeline: PipelineView { jobs: s.pipeline.jobs + pids, ..s.pipeline },
            phase: if s.pipeline.jobs.len() + pids.len() == s.pipeline.commands.len() {
                Phase::Running
            } else {
                Phase::Spawning
            },
            ..s
        }),
    decreases pids.len(),
{
    if pids.len() == 0 {
        assert(s.pipeline.jobs + pids =~= s.pipeline.jobs);
    } else {
        let before = pids.drop_last();
        lemma_stages_are_started_in_order(s, before);
        assert(spawned(pids).drop_last() =~= spawned(before));
        assert(spawned(pids).last() == Event::Spawned { pid: pids.last() });
        assert((s.pipeline.jobs + before).push(pids.last()) =~= s.pipeline.jobs + pids);
    }
}

/// A shutdown while the chain runs asks the first stage to end and then
/// awaits every stage, however each of them ends; after that the registry
/// entry goes and nothing is left to do.
pub proof fn lemma_shutdown_awaits_every_stage(
    s: SupervisorView,
    last_stage_exited: bool,
    exits: Seq<StageExit>,
)
    requires
        s.wf(),
        s.phase == Phase::Running,
        exits.len() == s.pipeline.jobs.len(),
    ensures
        ({
            let asked = s.next(Event::Polled { last_stage_exited, shutdown_requested: true });
            let end = asked.next(Event::TerminationSent).after(reaped(exits)).next(
                Event::Unregistered,
            );
            &&& asked.pending() == (ActionView::Terminate { stage: 0, pid: s.pipeline.jobs[0] })
            &&& end.phase == Phase::Terminated
            &&& end.exits == exits
            &&& end.pipeline == s.pipeline
            &&& !end.registered
            &&& end.pending() == ActionView::Done
        }),
{
    let asked = s.next(Event::Polled { last_stage_exited, shutdown_requested: true });
    let draining = asked.next(Event::TerminationSent);
    lemma_every_stage_is_awaited(draining, exits);
    assert(draining.exits + exits =~= exits);
}

/// A chain that does not come up leaves no process behind: when a stage
/// cannot be started, the first stage is asked to end and every stage
/// started before is awaited, in stage order, before the failure is final.
pub proof fn lemma_failed_spawn_leaves_no_process(s: SupervisorView, exits: Seq<StageExit>)
    requires
        s.wf(),
        s.phase == Phase::Spawning,
        s.registered,
        exits.len() == s.pipeline.jobs.len(),
    ensures
        s.next(Event::SpawnFailed).pending() == (ActionView::Terminate { stage: 0, pid: s.pipeline.jobs[0] }),
        ({
            let end = s.next(Event::SpawnFailed).next(Event::TerminationSent).after(reaped(exits));
            &&& end.phase == Phase::Terminated
            &&& end.exits == exits
            &&& end.pipeline == s.pipeline
            &&& end.outcome() == Some(Err::<bool, Failure>(Failure::Spawn))
        }),
{
    let failed = s.next(Event::SpawnFailed);
    let draining = failed.next(Event::TerminationSent);
    lemma_every_stage_is_awaited(draining, exits);
    assert(draining.exits + exits =~= exits);
}

/// A chain that cannot be made known does not run on unknown: when the
/// registry entry cannot be written, no further stage is started, the first
/// stage is asked to end and is awaited, what was written of the entry is
/// removed, and the pipeline counts as failed.
pub proof fn lemma_failed_registration_stops_the_chain(s: SupervisorView, exit: StageExit)
    requires
        s.wf(),
        s.pending() is Register,
    ensures
        s.next(Event::RegisterFailed).pending() == (ActionView::Terminate {
            stage: 0,
            pid: s.pipeline.jobs[0],
        }),
        ({
            let end = s.next(Event::RegisterFailed).next(Event::TerminationSent).next(
                Event::Reaped(exit),
            );
            &&& end.phase == Phase::Terminated
            &&& end.pipeline == s.pipeline
            &&& end.exits == seq![exit]
            &&& end.outcome() == Some(Err::<bool, Failure>(Failure::Io))
            &&& end.pending() is Unregister
            &&& end.next(Event::Unregistered).pending() == ActionView::Done
        }),
{
    let failed = s.next(Event::RegisterFailed);
    let draining = failed.next(Event::TerminationSent);
    let end = draining.next(Event::Reaped(exit));
    assert(end.exits =~= seq![exit]);
}

/// A chain that comes up and ends by itself leaves nothing behind: every
/// stage has been started and awaited, the registry entry is gone, nothing
/// is left to do, and nobody was asked to end.
pub proof fn lemma_natural_run_leaves_nothing(
    pipeline: PipelineView,
    registry_root: Seq<char>,
    input: InputSource,
    output: OutputSink,
    pids: Seq<u32>,
    looks: nat,
    exits: Seq<StageExit>,
)
    requires
        pipeline.wf(),
        pipeline.jobs.len() == 0,
        pids.len() == pipeline.commands.len(),
        exits.len() == pipeline.commands.len(),
    ensures
        ({
            let end = start_of(pipeline, registry_root, input, output).after(
                natural_run(pids, looks, exits),
            );
            &&& end.phase == Phase::Terminated
            &&& end.pipeline.jobs == pids
            &&& end.exits == exits
            &&& !end.registered
            &&& end.failure is None
            &&& end.pending() == ActionView::Done
        }),
{
    crate::pipeline::lemma_parsed_stages(pipeline.raw_pipeline);
    let s0 = start_of(pipeline, registry_root, input, output);
    let e1 = Event::Prepared { ok: true };
    let e2 = Event::Spawned { pid: pids[0] };
    let e3 = Event::Registered;
    let e4 = Event::Polled { last_stage_exited: true, shutdown_requested: false };
    let e5 = Event::Unregistered;
    let s1 = s0.next(e1);
    let s2 = s1.next(e2);
    let s3 = s2.next(e3);
    assert(s0.wf());
    assert(s3.wf());
    let head = seq![e1, e2, e3];
    assert(s0.after(head) == s3) by {
        lemma_after_one(s0, e1);
        lemma_after_one(s1, e2);
        lemma_after_one(s2, e3);
        lemma_after_concat(s0, seq![e1], seq![e2]);
        lemma_after_concat(s0, seq![e1] + seq![e2], seq![e3]);
        assert(seq![e1] + seq![e2] + seq![e3] =~= head);
    }
    let rest = pids.skip(1);
    let s4 = s3.after(spawned(rest));
    lemma_stages_are_started_in_order(s3, rest);
    assert(s3.pipeline.jobs + rest =~= pids);
    assert(s4.phase == Phase::Running);
    lemma_after_keeps_wf(s3, spawned(rest));
    lemma_quiet_looks_change_nothing(s4, looks);
    let s5 = s4.next(e4);
    lemma_every_stage_is_awaited(s5, exits);
    let s6 = s5.after(reaped(exits));
    assert(s5.exits + exits =~= exits);
    let s7 = s6.next(e5);
    lemma_after_concat(s0, head, spawned(rest));
    lemma_after_concat(s0, head + spawned(rest), quiet_looks(looks));
    lemma_after_one(s4, e4);
    lemma_after_concat(s0, head + spawned(rest) + quiet_looks(looks), seq![e4]);
    lemma_after_concat(s0, head + spawned(rest) + quiet_looks(looks) + seq![e4], reaped(exits));
    lemma_after_one(s6, e5);
    lemma_after_concat(
        s0,
        head + spawned(rest) + quiet_looks(looks) + seq![e4] + reaped(exits),
        seq![e5],
    );
    assert(s0.after(natural_run(pids, looks, exits)) == s7);
}

impl Supervisor {
    #[verifier::type_invariant]
    spec fn inv(self) -> bool {
        self@.wf()
    }

    /// The supervisor of `pipeline`, of which nothing runs yet, with the
    /// registry at `registry_root`.
    pub fn new(pipeline: Pipeline, registry_root: String, input: InputSource, output: OutputSink) -> (supervisor: Supervisor)
        ensures
            supervisor@ == start_of(
                PipelineView { jobs: Seq::empty(), ..pipeline@ },
                registry_root@,
                input,
                output,
            ),
            supervisor@.wf(),
    {
        let mut pipeline = pipeline;
        pipeline.clear_jobs();
        let _ = pipeline.commands();
        Supervisor {
            pipeline,
            input,
            output,
            registry_root,
            phase: Phase::Preparing,
            registered: false,
            exits: Vec::new(),
            failure: None,
        }
    }

    /// The pipeline under supervision.
    pub fn pipeline(&self) -> (pipeline: &Pipeline)
        ensures
            pipeline@ == self@.pipeline,
            self@.wf(),
    {
        proof {
            use_type_invariant(self);
        }
        &self.pipeline
    }

    pub fn phase(&self) -> (phase: Phase)
        ensures
            phase == self@.phase,
    {
        self.phase
    }

    /// How the stages awaited so far ended, in stage order.
    pub fn exits(&self) -> (exits: &Vec<StageExit>)
        ensures
            exits@ == self@.exits,
            self@.wf(),
    {
        proof {
            use_type_invariant(self);
        }
        &self.exits
    }

    /// How the pipeline ended, once it has: whether every stage succeeded,
    /// or why it did not come to run.
    pub fn outcome(&self) -> (outcome: Option<Result<bool, Failure>>)
        ensures
            outcome == self@.outcome(),
    {
        if self.phase != Phase::Terminated {
            return None;
        }
        if let Some(failure) = self.failure {
            return Some(Err(failure));
        }
        let mut i: usize = 0;
        while i < self.exits.len()
            invariant
                i <= self.exits.len(),
                self.phase == Phase::Terminated,
                self.failure is None,
                forall|j: int| 0 <= j < i ==> #[trigger] self.exits@[j] == StageExit::Code(0),
            decreases self.exits.len() - i,
        {
            if self.exits[i] != StageExit::Code(0) {
                return Some(Ok(false));
            }
            i += 1;
        }
        Some(Ok(true))
    }

    /// How the last stage ended, once the pipeline has ended after it came to run.
    pub fn last_exit(&self) -> (exit: Option<StageExit>)
        ensures
            exit == self@.last_exit(),
    {
        if self.phase == Phase::Terminated && self.failure.is_none() && self.exits.len() > 0 {
            Some(self.exits[self.exits.len() - 1])
        } else {
            None
        }
    }

    /// What the caller is to do next.
    pub fn action(&self) -> (action: Action)
        ensures
            action@ == self@.pending(),
            self@.wf(),
    {
        proof {
            use_type_invariant(self);
        }
        let jobs = self.pipeline.jobs();
        match self.phase {
            Phase::Preparing => Action::Prepare { log_dir: self.pipeline.logging_dir().to_owned() },
            Phase::Spawning => {
                if jobs.len() >= 1 && !self.registered {
                    let name = self.pipeline.get_name();
                    Action::Register(register(self.registry_root.as_str(), name.as_str(), jobs[0]))
                } else {
                    match self.pipeline.next_spawn(self.input, self.output) {
                        Some(launch) => Action::Spawn(launch),
                        None => {
                            assert(false);
                            Action::Done
                        },
                    }
                }
            },
            Phase::Running => Action::Poll,
            Phase::ShutdownRequested | Phase::SpawnFailed | Phase::RegisterFailed => Action::Terminate {
                stage: 0,
                pid: jobs[0],
            },
            Phase::LastStageExited | Phase::Draining => {
                let stage = self.exits.len();
                Action::Reap { stage, pid: jobs[stage] }
            },
            Phase::Terminated => {
                if self.registered {
                    let name = self.pipeline.get_name();
                    Action::Unregister(unregister(self.registry_root.as_str(), name.as_str()))
                } else {
                    Action::Done
                }
            },
        }
    }

    /// Takes the caller's report of what came of the pending action.
    pub fn step(self, event: Event) -> (next: Supervisor)
        ensures
            next@ == self@.next(event),
            next@.wf(),
    {
        proof {
            use_type_invariant(&self);
        }
        let ghost before = self@;
        let Supervisor {
            mut pipeline,
            input,
            output,
            registry_root,
            mut phase,
            mut registered,
            mut exits,
            mut failure,
        } = self;
        let started = pipeline.jobs().len();
        let awaits_registration = started >= 1 && !registered;
        match (phase, event) {
            (Phase::Preparing, Event::Prepared { ok }) => {
                if ok {
                    phase = Phase::Spawning;
                } else {
                    phase = Phase::Terminated;
                    failure = Some(Failure::Io);
                }
            },
            (Phase::Spawning, Event::Spawned { pid }) => {
                if !awaits_registration {
                    let recorded = pipeline.record_spawn(pid);
                    assert(recorded);
                    if pipeline.is_fully_spawned() && registered {
                        phase = Phase::Running;
                    }
                }
            },
            (Phase::Spawning, Event::SpawnFailed) => {
                if !awaits_registration {
                    failure = Some(Failure::Spawn);
                    phase = if started == 0 {
                        Phase::Terminated
                    } else {
                        Phase::SpawnFailed
                    };
                }
            },
            (Phase::Spawning, Event::Registered) => {
                if awaits_registration {
                    registered = true;
                    if pipeline.is_fully_spawned() {
                        phase = Phase::Running;
                    }
                }
            },
            (Phase::Spawning, Event::RegisterFailed) => {
                if awaits_registration {
                    registered = true;
                    failure = Some(Failure::Io);
                    phase = Phase::RegisterFailed;
                }
            },
            (Phase::Running, Event::Polled { last_stage_exited, shutdown_requested }) => {
                if shutdown_requested {
                    phase = Phase::ShutdownRequested;
                } else if last_stage_exited {
                    phase = Phase::LastStageExited;
                }
            },
            (Phase::ShutdownRequested, Event::TerminationSent) => {
                phase = Phase::Draining;
            },
            (Phase::SpawnFailed, Event::TerminationSent) => {
                phase = Phase::Draining;
            },
            (Phase::RegisterFailed, Event::TerminationSent) => {
                phase = Phase::Draining;
            },
            (Phase::LastStageExited, Event::Reaped(exit)) => {
                exits.push(exit);
                phase = if exits.len() == started {
                    Phase::Terminated
                } else {
                    Phase::Draining
                };
            },
            (Phase::Draining, Event::Reaped(exit)) => {
                exits.push(exit);
                phase = if exits.len() == started {
                    Phase::Terminated
                } else {
                    Phase::Draining
                };
            },
            (Phase::Terminated, Event::Unregistered) => {
                registered = false;
            },
            _ => {},
        }
        let next = Supervisor { pipeline, input, output, registry_root, phase, registered, exits, failure };
        assert(next@ == before.next(event));
        next
    }
}

impl Pipeline {
    /// Runs a pipeline that comes from a pipeline file: its first stage
    /// reads from nothing, its last stage writes where the caller writes.
    pub fn run_from_file(self) -> (supervisor: Supervisor)
        ensures
            supervisor@ == start_of(
                PipelineView { jobs: Seq::empty(), ..self@ },
                RUNNING_DIR@,
                InputSource::Null,
                OutputSink::Inherit,
            ),
    {
        self.run(InputSource::Null, OutputSink::Inherit)
    }

    /// Runs a pipeline that was typed in: its first stage reads what the
    /// caller reads, its last stage writes where the caller writes.
    pub fn run_interactive(self) -> (supervisor: Supervisor)
        ensures
            supervisor@ == start_of(
                PipelineView { jobs: Seq::empty(), ..self@ },
                RUNNING_DIR@,
                InputSource::Inherit,
                OutputSink::Inherit,
            ),
    {
        self.run(InputSource::Inherit, OutputSink::Inherit)
    }

    /// Runs the pipeline: gives the supervisor that sees it through, with
    /// the registry at `RUNNING_DIR`. Nothing runs yet.
    pub fn run(self, input: InputSource, output: OutputSink) -> (supervisor: Supervisor)
        ensures
            supervisor@ == start_of(
                PipelineView { jobs: Seq::empty(), ..self@ },
                RUNNING_DIR@,
                input,
                output,
            ),
    {
        Supervisor::new(self, RUNNING_DIR.to_owned(), input, output)
    }
}

} // verus!
