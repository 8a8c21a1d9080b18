//! The worker of one target: a mailbox actor that runs the target's command
//! once for every burst of triggers.
//!
//! The worker is written as a state machine. Its driver performs the action
//! that a step asks for (wait for a message, look whether another one is
//! there, run the command, stop) and hands back what came of it as the next
//! event. The worker never looks at its mailbox while a command runs.

use crate::hook_configuration::{
    clone_slack, key_of, slack_view, HookAction, HookActionView, HookConfig, HookConfigView,
    SlackConfiguration, SlackConfigurationView,
};
use crate::notifier::{notice_view, notification_for, Notification, NotificationView};
use crate::outcome::{DeployOutcome, DeployOutcomeView, ExitKind};
use crate::text::{decimal, render_decimal};
use crate::tools::{log_line, log_line_text};
use vstd::prelude::*;
use vstd::string::*;

verus! {

/// What a mailbox carries: a request to deploy, with a snapshot of the target
/// it was resolved to, or the request to stop.
#[derive(Debug, PartialEq, Eq)]
pub enum DeployMessage {
    Deploy(HookConfig),
    Exit,
}

/// The mathematical content of a [`DeployMessage`].
pub enum DeployMessageView {
    Deploy(HookConfigView),
    Exit,
}

impl View for DeployMessage {
    type V = DeployMessageView;

    open spec fn view(&self) -> DeployMessageView {
        match self {
            DeployMessage::Deploy(target) => DeployMessageView::Deploy(target@),
            DeployMessage::Exit => DeployMessageView::Exit,
        }
    }
}

impl Clone for DeployMessage {
    fn clone(&self) -> (copy: Self)
        ensures
            copy@ == self@,
    {
        match self {
            DeployMessage::Deploy(target) => DeployMessage::Deploy(target.clone()),
            DeployMessage::Exit => DeployMessage::Exit,
        }
    }
}

/// Where a worker stands in its cycle.
#[derive(Clone, Copy, PartialEq, Eq, Debug, Structural)]
pub enum WorkerState {
    /// Waiting for a message.
    Idle,
    /// Holding one request to deploy and emptying the mailbox of the requests
    /// that came with it.
    Draining,
    /// The command is running. `stop_after` is set when the request to stop
    /// was found while draining: the run in hand is finished first.
    Running { stop_after: bool },
    /// The worker has stopped and takes no more messages.
    Stopped,
}

/// What a driver can report to the worker, without the payload.
#[derive(Clone, Copy, PartialEq, Eq, Debug, Structural)]
pub enum EventKind {
    /// A request to deploy was taken from the mailbox.
    Deploy,
    /// The request to stop was taken from the mailbox.
    Exit,
    /// The mailbox was looked at and held nothing.
    Empty,
    /// Nobody can send to the mailbox any more.
    Closed,
    /// The command has exited and both its output streams were read to
    /// their end.
    Finished,
    /// The command could not be started.
    SpawnFailed,
}

/// What the worker asks its driver to do next.
#[derive(Clone, Copy, PartialEq, Eq, Debug, Structural)]
pub enum WorkerAction {
    /// Wait until a message arrives.
    Receive,
    /// Look into the mailbox without waiting.
    Poll,
    /// Run the target's command and wait for it.
    Run,
    /// End the worker.
    Stop,
    /// Nothing new: the event was not an answer to what the worker had asked
    /// for, and what it had asked for still stands.
    Wait,
}

/// The worker's transition function.
pub open spec fn transition(state: WorkerState, event: EventKind) -> (WorkerState, WorkerAction) {
    match state {
        WorkerState::Idle => match event {
            EventKind::Deploy => (WorkerState::Draining, WorkerAction::Poll),
            EventKind::Exit | EventKind::Closed => (WorkerState::Stopped, WorkerAction::Stop),
            _ => (WorkerState::Idle, WorkerAction::Wait),
        },
        WorkerState::Draining => match event {
            EventKind::Deploy => (WorkerState::Draining, WorkerAction::Poll),
            EventKind::Exit => (WorkerState::Running { stop_after: true }, WorkerAction::Run),
            EventKind::Empty | EventKind::Closed => (
                WorkerState::Running { stop_after: false },
                WorkerAction::Run,
            ),
            _ => (WorkerState::Draining, WorkerAction::Wait),
        },
        WorkerState::Running { stop_after } => match event {
            EventKind::Finished | EventKind::SpawnFailed => if stop_after {
                (WorkerState::Stopped, WorkerAction::Stop)
            } else {
                (WorkerState::Idle, WorkerAction::Receive)
            },
            _ => (state, WorkerAction::Wait),
        },
        WorkerState::Stopped => (WorkerState::Stopped, WorkerAction::Stop),
    }
}

/// The state of a worker that started in `state` and has taken the given
/// events, one after the other.
pub open spec fn state_after(state: WorkerState, events: Seq<EventKind>) -> WorkerState
    decreases events.len(),
{
    if events.len() == 0 {
        state
    } else {
        transition(state_after(state, events.drop_last()), events.last()).0
    }
}

/// How often a worker that started in `state` has been told to run its
/// command while it took the given events.
pub open spec fn runs_started(state: WorkerState, events: Seq<EventKind>) -> nat
    decreases events.len(),
{
    if events.len() == 0 {
        0
    } else {
        let before = state_after(state, events.drop_last());
        let run: nat = if transition(before, events.last()).1 == WorkerAction::Run {
            1
        } else {
            0
        };
        runs_started(state, events.drop_last()) + run
    }
}

/// How often a worker that started in `state` has left idleness for a burst
/// of requests while it took the given events.
pub open spec fn bursts_begun(state: WorkerState, events: Seq<EventKind>) -> nat
    decreases events.len(),
{
    if events.len() == 0 {
        0
    } else {
        let before = state_after(state, events.drop_last());
        let begun: nat = if before == WorkerState::Idle && transition(before, events.last()).0
            == WorkerState::Draining {
            1
        } else {
            0
        };
        bursts_begun(state, events.drop_last()) + begun
    }
}

/// How many runs of a worker that started in `state` have come to their end
/// while it took the given events.
pub open spec fn runs_ended(state: WorkerState, events: Seq<EventKind>) -> nat
    decreases events.len(),
{
    if events.len() == 0 {
        0
    } else {
        let before = state_after(state, events.drop_last());
        let ended: nat = if before is Running && !(transition(before, events.last()).0 is Running) {
            1
        } else {
            0
        };
        runs_ended(state, events.drop_last()) + ended
    }
}

/// A burst of `count` requests to deploy, followed by the sight of an empty
/// mailbox.
pub open spec fn burst(count: nat) -> Seq<EventKind> {
    Seq::new(count, |i: int| EventKind::Deploy).push(EventKind::Empty)
}

/// One run for each burst: whatever events an idle worker takes, in whatever
/// order, it starts its command once for each burst of requests that pulled
/// it out of idleness, and not before the burst's mailbox has been emptied.
pub proof fn lemma_one_run_per_burst(events: Seq<EventKind>)
    ensures
        runs_started(WorkerState::Idle, events) <= bursts_begun(WorkerState::Idle, events),
        bursts_begun(WorkerState::Idle, events) == runs_started(WorkerState::Idle, events) + (
        if state_after(WorkerState::Idle, events) == WorkerState::Draining {
            1nat
        } else {
            0nat
        }),
    decreases events.len(),
{
    if events.len() > 0 {
        lemma_one_run_per_burst(events.drop_last());
    }
}

/// Runs follow each other: whatever events an idle worker takes, every run
/// that it has started has also ended, but for the one that is running now.
/// So a run starts only after the run before it is over.
pub proof fn lemma_runs_are_serialized(events: Seq<EventKind>)
    ensures
        runs_started(WorkerState::Idle, events) == runs_ended(WorkerState::Idle, events) + (
        if state_after(WorkerState::Idle, events) is Running {
            1nat
        } else {
            0nat
        }),
    decreases events.len(),
{
    if events.len() > 0 {
        lemma_runs_are_serialized(events.drop_last());
    }
}

/// Requests coalesce: however many requests to deploy arrive before the
/// worker has found its mailbox empty, the command is started once.
pub proof fn lemma_burst_runs_once(count: nat)
    requires
        count >= 1,
    ensures
        state_after(WorkerState::Idle, burst(count)) == (WorkerState::Running { stop_after: false }),
        runs_started(WorkerState::Idle, burst(count)) == 1,
{
    let requests = Seq::new(count, |i: int| EventKind::Deploy);
    lemma_requests_only_drain(count);
    assert(burst(count).drop_last() =~= requests);
}

proof fn lemma_requests_only_drain(count: nat)
    requires
        count >= 1,
    ensures
        state_after(WorkerState::Idle, Seq::new(count, |i: int| EventKind::Deploy))
            == WorkerState::Draining,
        runs_started(WorkerState::Idle, Seq::new(count, |i: int| EventKind::Deploy)) == 0,
    decreases count,
{
    let requests = Seq::new(count, |i: int| EventKind::Deploy);
    let fewer = Seq::new((count - 1) as nat, |i: int| EventKind::Deploy);
    assert(requests.drop_last() =~= fewer);
    if count > 1 {
        lemma_requests_only_drain((count - 1) as nat);
    } else {
        assert(runs_started(WorkerState::Idle, fewer) == 0);
    }
}

/// A worker becomes idle again only when its run is over: the command has
/// exited and its output was read to the end, or it could not be started.
pub proof fn lemma_idle_follows_completion(state: WorkerState, event: EventKind)
    requires
        state != WorkerState::Idle,
        transition(state, event).0 == WorkerState::Idle,
    ensures
        state == (WorkerState::Running { stop_after: false }),
        event == EventKind::Finished || event == EventKind::SpawnFailed,
{
}

/// The command is started only by a worker that has emptied its mailbox, and
/// a worker whose command runs starts nothing until the run is over.
pub proof fn lemma_runs_do_not_overlap(state: WorkerState, event: EventKind)
    ensures
        transition(state, event).1 == WorkerAction::Run ==> state == WorkerState::Draining
            && transition(state, event).0 is Running,
        state is Running ==> transition(state, event).1 != WorkerAction::Run,
{
}

/// Events taken one after the other compose: taking `first` and then `then`
/// is taking `then` from where `first` has led, and the runs add up.
pub proof fn lemma_events_compose(state: WorkerState, first: Seq<EventKind>, then: Seq<EventKind>)
    ensures
        state_after(state, first + then) == state_after(state_after(state, first), then),
        runs_started(state, first + then) == runs_started(state, first) + runs_started(
            state_after(state, first),
            then,
        ),
    decreases then.len(),
{
    if then.len() > 0 {
        assert((first + then).drop_last() =~= first + then.drop_last());
        lemma_events_compose(state, first, then.drop_last());
    }
}

/// A command that cannot be started costs the worker nothing but that run:
/// the worker is idle again, and the next burst of requests starts the
/// command once more.
pub proof fn lemma_spawn_failure_is_survived(earlier: Seq<EventKind>, count: nat)
    requires
        state_after(WorkerState::Idle, earlier) == (WorkerState::Running { stop_after: false }),
        count >= 1,
    ensures
        state_after(WorkerState::Idle, earlier.push(EventKind::SpawnFailed)) == WorkerState::Idle,
        state_after(WorkerState::Idle, earlier.push(EventKind::SpawnFailed) + burst(count)) == (
        WorkerState::Running { stop_after: false }),
        runs_started(WorkerState::Idle, earlier.push(EventKind::SpawnFailed) + burst(count))
            == runs_started(WorkerState::Idle, earlier) + 1,
{
    let failed = earlier.push(EventKind::SpawnFailed);
    assert(failed.drop_last() =~= earlier);
    lemma_burst_runs_once(count);
    lemma_events_compose(WorkerState::Idle, failed, burst(count));
}

/// A request to stop that is found while draining does not cancel the
/// request in hand: however many requests came before it, the command is run
/// once, and when that run is over, however it ends, the worker stops.
pub proof fn lemma_stop_waits_for_the_run_in_hand(count: nat, ending: EventKind)
    requires
        count >= 1,
        ending == EventKind::Finished || ending == EventKind::SpawnFailed,
    ensures
        state_after(
            WorkerState::Idle,
            Seq::new(count, |i: int| EventKind::Deploy).push(EventKind::Exit),
        ) == (WorkerState::Running { stop_after: true }),
        state_after(
            WorkerState::Idle,
            Seq::new(count, |i: int| EventKind::Deploy).push(EventKind::Exit).push(ending),
        ) == WorkerState::Stopped,
        runs_started(
            WorkerState::Idle,
            Seq::new(count, |i: int| EventKind::Deploy).push(EventKind::Exit).push(ending),
        ) == 1,
{
    let requests = Seq::new(count, |i: int| EventKind::Deploy);
    lemma_requests_only_drain(count);
    assert(requests.push(EventKind::Exit).drop_last() =~= requests);
    assert(requests.push(EventKind::Exit).push(ending).drop_last() =~= requests.push(
        EventKind::Exit,
    ));
    assert(runs_started(WorkerState::Idle, requests.push(EventKind::Exit)) == 1);
}

/// A stopped worker stays stopped and starts nothing.
pub proof fn lemma_stopped_is_final(events: Seq<EventKind>)
    ensures
        state_after(WorkerState::Stopped, events) == WorkerState::Stopped,
        runs_started(WorkerState::Stopped, events) == 0,
    decreases events.len(),
{
    if events.len() > 0 {
        lemma_stopped_is_final(events.drop_last());
    }
}

/// What a driver reports to the worker.
#[derive(Debug, PartialEq, Eq)]
pub enum WorkerEvent {
    /// A message was taken from the mailbox.
    Received(DeployMessage),
    /// The mailbox was looked at and held nothing.
    MailboxEmpty,
    /// Nobody can send to the mailbox any more.
    MailboxClosed,
    /// The command has exited and both its output streams were read to
    /// their end.
    Finished(DeployOutcome),
    /// The command could not be started, for the reason given.
    SpawnFailed(String),
}

/// The mathematical content of a [`WorkerEvent`].
pub enum WorkerEventView {
    Received(DeployMessageView),
    MailboxEmpty,
    MailboxClosed,
    Finished(DeployOutcomeView),
    SpawnFailed(Seq<char>),
}

impl WorkerEventView {
    /// The event without its payload.
    pub open spec fn kind(self) -> EventKind {
        match self {
            WorkerEventView::Received(DeployMessageView::Deploy(_)) => EventKind::Deploy,
            WorkerEventView::Received(DeployMessageView::Exit) => EventKind::Exit,
            WorkerEventView::MailboxEmpty => EventKind::Empty,
            WorkerEventView::MailboxClosed => EventKind::Closed,
            WorkerEventView::Finished(_) => EventKind::Finished,
            WorkerEventView::SpawnFailed(_) => EventKind::SpawnFailed,
        }
    }
}

impl View for WorkerEvent {
    type V = WorkerEventView;

    open spec fn view(&self) -> WorkerEventView {
        match self {
            WorkerEvent::Received(message) => WorkerEventView::Received(message@),
            WorkerEvent::MailboxEmpty => WorkerEventView::MailboxEmpty,
            WorkerEvent::MailboxClosed => WorkerEventView::MailboxClosed,
            WorkerEvent::Finished(outcome) => WorkerEventView::Finished(outcome@),
            WorkerEvent::SpawnFailed(reason) => WorkerEventView::SpawnFailed(reason@),
        }
    }
}

impl WorkerEvent {
    /// The event without its payload.
    pub fn kind(&self) -> (kind: EventKind)
        ensures
            kind == self@.kind(),
    {
        match self {
            WorkerEvent::Received(DeployMessage::Deploy(_)) => EventKind::Deploy,
            WorkerEvent::Received(DeployMessage::Exit) => EventKind::Exit,
            WorkerEvent::MailboxEmpty => EventKind::Empty,
            WorkerEvent::MailboxClosed => EventKind::Closed,
            WorkerEvent::Finished(_) => EventKind::Finished,
            WorkerEvent::SpawnFailed(_) => EventKind::SpawnFailed,
        }
    }
}

/// The worker of one target. It runs its own `conf`, whatever snapshot a
/// request carries.
#[derive(Debug, PartialEq, Eq)]
pub struct Deployer {
    pub name: String,
    pub conf: HookAction,
    pub slack: Option<SlackConfiguration>,
}

/// The mathematical content of a [`Deployer`].
pub struct DeployerView {
    pub name: Seq<char>,
    pub conf: HookActionView,
    pub slack: Option<SlackConfigurationView>,
}

impl View for Deployer {
    type V = DeployerView;

    open spec fn view(&self) -> DeployerView {
        DeployerView { name: self.name@, conf: self.conf@, slack: slack_view(self.slack) }
    }
}

/// The worker that serves `target` and reports to `slack`.
pub open spec fn worker_for(
    target: HookConfigView,
    slack: Option<SlackConfigurationView>,
) -> DeployerView {
    DeployerView { name: key_of(target), conf: target.action, slack }
}

/// The name under which a worker writes to the log.
pub open spec fn log_name_text(name: Seq<char>) -> Seq<char> {
    "deployer-"@ + name
}

/// Logged when a worker starts.
pub open spec fn started_text() -> Seq<char> {
    "Starting deployer."@
}

/// Logged when a worker stops.
pub open spec fn stopped_text() -> Seq<char> {
    "Stopping deployer."@
}

/// Logged when a worker finds its mailbox closed.
pub open spec fn closed_text() -> Seq<char> {
    "Error: receiving on a closed channel"@
}

/// Announces a deploy.
pub open spec fn starting_text(name: Seq<char>) -> Seq<char> {
    "Starting Deploy for "@ + name + "."@
}

/// Reports a deploy that succeeded after `seconds` seconds.
pub open spec fn success_text(name: Seq<char>, seconds: int) -> Seq<char> {
    ":sunny: "@ + name + " deployed successfully in "@ + decimal(seconds) + "s."@
}

/// Reports a deploy that did not succeed.
pub open spec fn failure_text(name: Seq<char>) -> Seq<char> {
    ":umbrella: "@ + name + " deployed failed."@
}

/// Logged for a command that exited with a code other than 0.
pub open spec fn failed_status_text(code: int) -> Seq<char> {
    "Deploy failed with status "@ + decimal(code) + "."@
}

/// Logged for a command that a signal killed.
pub open spec fn interrupted_text(signal: int) -> Seq<char> {
    "Deploy was interrupted with signal "@ + decimal(signal) + "."@
}

/// Logged for a command of which neither an exit code nor a signal is known.
pub open spec fn anomaly_text() -> Seq<char> {
    "This should never happen."@
}

/// Logged for a command that could not be started.
pub open spec fn spawn_failure_text(reason: Seq<char>) -> Seq<char> {
    "An error occured: "@ + reason
}

/// Logged after a message was delivered to the channel.
pub open spec fn delivered_text() -> Seq<char> {
    "Sent notification to slack."@
}

/// Logged after a message could not be delivered, with the reason.
pub open spec fn undelivered_text(reason: Seq<char>) -> Seq<char> {
    "ERR: "@ + reason
}

/// What the log says of an outcome.
pub open spec fn outcome_log(name: Seq<char>, outcome: DeployOutcomeView) -> Seq<char> {
    match outcome.kind() {
        ExitKind::Success => success_text(name, outcome.duration_seconds),
        ExitKind::Failed(code) => failed_status_text(code as int),
        ExitKind::Signaled(signal) => interrupted_text(signal as int),
        ExitKind::Unknown => anomaly_text(),
    }
}

/// What the channel is told of an outcome: the success message, or the
/// failure message for every other way of ending.
pub open spec fn outcome_message(name: Seq<char>, outcome: DeployOutcomeView) -> Seq<char> {
    match outcome.kind() {
        ExitKind::Success => success_text(name, outcome.duration_seconds),
        _ => failure_text(name),
    }
}

/// The message with `text` for the worker's channel, where it has one.
pub open spec fn message_for(worker: DeployerView, text: Seq<char>) -> Option<NotificationView> {
    match worker.slack {
        Some(slack) => Some(notification_for(slack, text)),
        None => None,
    }
}

/// The lines that a step writes to the log.
pub open spec fn step_logs(
    worker: DeployerView,
    state: WorkerState,
    event: WorkerEventView,
) -> Seq<Seq<char>> {
    let leaving = if transition(state, event.kind()).0 == WorkerState::Stopped {
        seq![stopped_text()]
    } else {
        Seq::empty()
    };
    match state {
        WorkerState::Idle => match event {
            WorkerEventView::MailboxClosed => seq![closed_text()] + leaving,
            _ => leaving,
        },
        WorkerState::Running { .. } => match event {
            WorkerEventView::Finished(outcome) => seq![outcome_log(worker.name, outcome)] + leaving,
            WorkerEventView::SpawnFailed(reason) => seq![spawn_failure_text(reason)] + leaving,
            _ => Seq::empty(),
        },
        _ => Seq::empty(),
    }
}

/// The message that a step has for the channel: the announcement when a run
/// starts, and the result when it has ended.
pub open spec fn step_notice(
    worker: DeployerView,
    state: WorkerState,
    event: WorkerEventView,
) -> Option<NotificationView> {
    match state {
        WorkerState::Draining => if transition(state, event.kind()).1 == WorkerAction::Run {
            message_for(worker, starting_text(worker.name))
        } else {
            None
        },
        WorkerState::Running { .. } => match event {
            WorkerEventView::Finished(outcome) => message_for(
                worker,
                outcome_message(worker.name, outcome),
            ),
            WorkerEventView::SpawnFailed(_) => message_for(worker, failure_text(worker.name)),
            _ => None,
        },
        _ => None,
    }
}

/// Every run is reported: when a run is over, the channel is told of its
/// success exactly when the command exited with code 0 and of its failure
/// otherwise, and the log has a line on how it ended, also where neither an
/// exit code nor a signal is known.
pub proof fn lemma_result_is_reported(
    worker: DeployerView,
    stop_after: bool,
    outcome: DeployOutcomeView,
)
    requires
        outcome.consistent(),
    ensures
        ({
            let step = step_of(
                worker,
                WorkerState::Running { stop_after },
                WorkerEventView::Finished(outcome),
            );
            &&& step.notification == message_for(
                worker,
                if outcome.succeeded {
                    success_text(worker.name, outcome.duration_seconds)
                } else {
                    failure_text(worker.name)
                },
            )
            &&& step.logs.len() >= 1
            &&& step.logs[0] == outcome_log(worker.name, outcome)
            &&& outcome.exit_code is None && outcome.terminating_signal is None ==> step.logs[0]
                == anomaly_text()
        }),
{
}

/// What one step of a worker comes to.
#[derive(Debug, PartialEq, Eq)]
pub struct Step {
    /// The state after the step.
    pub state: WorkerState,
    /// What the driver is to do next.
    pub action: WorkerAction,
    /// What the driver is to write to the log, in order.
    pub logs: Vec<String>,
    /// What the driver is to send to the channel, before it performs the
    /// action.
    pub notification: Option<Notification>,
}

/// The mathematical content of a [`Step`].
pub struct StepView {
    pub state: WorkerState,
    pub action: WorkerAction,
    pub logs: Seq<Seq<char>>,
    pub notification: Option<NotificationView>,
}

impl View for Step {
    type V = StepView;

    open spec fn view(&self) -> StepView {
        StepView {
            state: self.state,
            action: self.action,
            logs: self.logs.deep_view(),
            notification: notice_view(self.notification),
        }
    }
}

/// The step that a worker in `state` takes on `event`.
pub open spec fn step_of(worker: DeployerView, state: WorkerState, event: WorkerEventView) -> StepView {
    StepView {
        state: transition(state, event.kind()).0,
        action: transition(state, event.kind()).1,
        logs: step_logs(worker, state, event),
        notification: step_notice(worker, state, event),
    }
}

/// The next state and action for a state and an event.
pub fn next(state: WorkerState, event: EventKind) -> (to: (WorkerState, WorkerAction))
    ensures
        to == transition(state, event),
{
    match state {
        WorkerState::Idle => match event {
            EventKind::Deploy => (WorkerState::Draining, WorkerAction::Poll),
            EventKind::Exit | EventKind::Closed => (WorkerState::Stopped, WorkerAction::Stop),
            _ => (WorkerState::Idle, WorkerAction::Wait),
        },
        WorkerState::Draining => match event {
            EventKind::Deploy => (WorkerState::Draining, WorkerAction::Poll),
            EventKind::Exit => (WorkerState::Running { stop_after: true }, WorkerAction::Run),
            EventKind::Empty | EventKind::Closed => (
                WorkerState::Running { stop_after: false },
                WorkerAction::Run,
            ),
            _ => (WorkerState::Draining, WorkerAction::Wait),
        },
        WorkerState::Running { stop_after } => match event {
            EventKind::Finished | EventKind::SpawnFailed => if stop_after {
                (WorkerState::Stopped, WorkerAction::Stop)
            } else {
                (WorkerState::Idle, WorkerAction::Receive)
            },
            _ => (state, WorkerAction::Wait),
        },
        WorkerState::Stopped => (WorkerState::Stopped, WorkerAction::Stop),
    }
}

impl Deployer {
    /// The worker that serves `target` and reports to `slack`.
    pub fn new(target: &HookConfig, slack: &Option<SlackConfiguration>) -> (worker: Deployer)
        ensures
            worker@ == worker_for(target@, slack_view(*slack)),
    {
        Deployer { name: target.worker_name(), conf: target.action.clone(), slack: clone_slack(slack) }
    }

    /// The name under which this worker writes to the log.
    pub fn log_name(&self) -> (name: String)
        ensures
            name@ == log_name_text(self@.name),
    {
        let mut name = String::from_str("deployer-");
        name.append(self.name.as_str());
        name
    }

    /// A line of this worker in the system log.
    pub fn log(&self, stamp: &str, info: &str) -> (line: String)
        ensures
            line@ == log_line_text(stamp@, log_name_text(self@.name), info@),
    {
        let actor = self.log_name();
        log_line(stamp, actor.as_str(), info)
    }

    /// The message with the given text for this worker's channel, or `None`
    /// where no channel is configured.
    pub fn message(&self, message: String) -> (notification: Option<Notification>)
        ensures
            notice_view(notification) == message_for(self@, message@),
    {
        match &self.slack {
            Some(conf) => Some(Notification::new(conf, message)),
            None => None,
        }
    }

    /// What to write to the log once a message has been handed to the
    /// transport: that it was sent, or why it was not. Delivery changes
    /// nothing else.
    pub fn delivery_log(delivered: &Result<(), String>) -> (info: String)
        ensures
            info@ == match *delivered {
                Ok(_) => delivered_text(),
                Err(reason) => undelivered_text(reason@),
            },
    {
        match delivered {
            Ok(_) => String::from_str("Sent notification to slack."),
            Err(reason) => {
                let mut info = String::from_str("ERR: ");
                info.append(reason.as_str());
                info
            },
        }
    }

    fn success_message(&self, seconds: i64) -> (text: String)
        ensures
            text@ == success_text(self@.name, seconds as int),
    {
        let mut text = String::from_str(":sunny: ");
        text.append(self.name.as_str());
        text.append(" deployed successfully in ");
        let number = render_decimal(seconds);
        text.append(number.as_str());
        text.append("s.");
        text
    }

    fn failure_message(&self) -> (text: String)
        ensures
            text@ == failure_text(self@.name),
    {
        let mut text = String::from_str(":umbrella: ");
        text.append(self.name.as_str());
        text.append(" deployed failed.");
        text
    }

    fn starting_message(&self) -> (text: String)
        ensures
            text@ == starting_text(self@.name),
    {
        let mut text = String::from_str("Starting Deploy for ");
        text.append(self.name.as_str());
        text.append(".");
        text
    }

    /// What the log says of an outcome.
    pub fn outcome_log(&self, outcome: &DeployOutcome) -> (info: String)
        ensures
            info@ == outcome_log(self@.name, outcome@),
    {
        match outcome.kind() {
            ExitKind::Success => self.success_message(outcome.duration_seconds()),
            ExitKind::Failed(code) => {
                let mut info = String::from_str("Deploy failed with status ");
                let number = render_decimal(code as i64);
                info.append(number.as_str());
                info.append(".");
                info
            },
            ExitKind::Signaled(signal) => {
                let mut info = String::from_str("Deploy was interrupted with signal ");
                let number = render_decimal(signal as i64);
                info.append(number.as_str());
                info.append(".");
                info
            },
            ExitKind::Unknown => String::from_str("This should never happen."),
        }
    }

    /// What the channel is told of an outcome.
    pub fn outcome_message(&self, outcome: &DeployOutcome) -> (text: String)
        ensures
            text@ == outcome_message(self@.name, outcome@),
    {
        match outcome.kind() {
            ExitKind::Success => self.success_message(outcome.duration_seconds()),
            _ => self.failure_message(),
        }
    }

    /// The first step of a worker: it is idle, logs that it has started and
    /// waits for a message.
    pub fn start(&self) -> (step: Step)
        ensures
            step@ == (StepView {
                state: WorkerState::Idle,
                action: WorkerAction::Receive,
                logs: seq![started_text()],
                notification: None,
            }),
    {
        let mut logs: Vec<String> = Vec::new();
        logs.push(String::from_str("Starting deployer."));
        let step = Step {
            state: WorkerState::Idle,
            action: WorkerAction::Receive,
            logs,
            notification: None,
        };
        assert(step@.logs =~= seq![started_text()]);
        step
    }

    /// Takes one step: from `state`, on `event`, to the next state, with the
    /// action that the driver is to perform and what it is to log and send.
    pub fn step(&self, state: WorkerState, event: WorkerEvent) -> (step: Step)
        ensures
            step@ == step_of(self@, state, event@),
    {
        let (to, action) = next(state, event.kind());
        let mut logs: Vec<String> = Vec::new();
        let mut notification: Option<Notification> = None;
        match state {
            WorkerState::Idle => {
                if let WorkerEvent::MailboxClosed = event {
                    logs.push(String::from_str("Error: receiving on a closed channel"));
                }
                if to == WorkerState::Stopped {
                    logs.push(String::from_str("Stopping deployer."));
                }
            },
            WorkerState::Draining => {
                if action == WorkerAction::Run {
                    notification = self.message(self.starting_message());
                }
            },
            WorkerState::Running { .. } => {
                match event {
                    WorkerEvent::Finished(outcome) => {
                        logs.push(self.outcome_log(&outcome));
                        notification = self.message(self.outcome_message(&outcome));
                        if to == WorkerState::Stopped {
                            logs.push(String::from_str("Stopping deployer."));
                        }
                    },
                    WorkerEvent::SpawnFailed(reason) => {
                        let mut info = String::from_str("An error occured: ");
                        info.append(reason.as_str());
                        logs.push(info);
                        notification = self.message(self.failure_message());
                        if to == WorkerState::Stopped {
                            logs.push(String::from_str("Stopping deployer."));
                        }
                    },
                    _ => {},
                }
            },
            WorkerState::Stopped => {},
        }
        let step = Step { state: to, action, logs, notification };
        assert(step@.logs =~= step_logs(self@, state, event@));
        step
    }
}

} // verus!
