//! The dispatcher: one worker per target, and the table that routes a
//! request to the worker of its target.

use crate::deployer::{
    transition, worker_for, DeployMessage, DeployMessageView, Deployer, EventKind, WorkerAction,
    WorkerState,
};
use crate::git_hook::{Trigger, TriggerView};
use crate::hook_configuration::{
    first_match, is_first_clash, is_first_match, key_of, keys_distinct, keys_of,
    lemma_first_match, no_match, HookConfigView, HookConfiguration, HookConfigurationView,
};
use crate::text::{clone_opt, decimal, opt_view, push_decimal};
use crate::tools::{log_line, log_line_text};
use vstd::prelude::*;
use vstd::string::*;

verus! {

/// The configuration cannot be served.
#[derive(Debug, PartialEq, Eq)]
pub enum ConfigError {
    /// The targets at positions `first` and `second` resolve to the same
    /// worker key.
    DuplicateKey { first: usize, second: usize, key: String },
}

/// The mathematical content of a [`ConfigError`].
pub enum ConfigErrorView {
    DuplicateKey { first: int, second: int, key: Seq<char> },
}

impl View for ConfigError {
    type V = ConfigErrorView;

    open spec fn view(&self) -> ConfigErrorView {
        match self {
            ConfigError::DuplicateKey { first, second, key } => ConfigErrorView::DuplicateKey {
                first: *first as int,
                second: *second as int,
                key: key@,
            },
        }
    }
}

/// What is said of two targets that resolve to one key.
pub open spec fn duplicate_key_text(first: int, second: int, key: Seq<char>) -> Seq<char> {
    "Targets "@ + decimal(first) + " and "@ + decimal(second) + " share the worker key "@ + key
        + "."@
}

impl ConfigError {
    /// Says what is wrong with the configuration, for the operator.
    pub fn describe(&self) -> (text: String)
        ensures
            text@ == match self@ {
                ConfigErrorView::DuplicateKey { first, second, key } => duplicate_key_text(
                    first,
                    second,
                    key,
                ),
            },
    {
        match self {
            ConfigError::DuplicateKey { first, second, key } => {
                let mut text = String::from_str("Targets ");
                push_decimal(&mut text, *first as u64);
                text.append(" and ");
                push_decimal(&mut text, *second as u64);
                text.append(" share the worker key ");
                text.append(key.as_str());
                text.append(".");
                text
            },
        }
    }
}

/// The routing table: the worker keys, each at the position of its worker.
/// It is built once, when the dispatcher starts, and only read afterwards.
#[derive(Debug, PartialEq, Eq)]
pub struct RoutingTable {
    keys: Vec<String>,
}

impl View for RoutingTable {
    type V = Seq<Seq<char>>;

    closed spec fn view(&self) -> Seq<Seq<char>> {
        self.keys.deep_view()
    }
}

/// The content of an optional position.
pub open spec fn slot_view(slot: Option<usize>) -> Option<int> {
    match slot {
        Some(i) => Some(i as int),
        None => None,
    }
}

impl RoutingTable {
    #[verifier::type_invariant]
    spec fn well_formed(self) -> bool {
        self@.no_duplicates()
    }

    /// The number of workers.
    pub fn len(&self) -> (n: usize)
        ensures
            n == self@.len(),
            self@.no_duplicates(),
    {
        proof {
            use_type_invariant(self);
        }
        self.keys.len()
    }

    /// The position of the worker with the given key.
    pub fn slot(&self, key: &String) -> (slot: Option<usize>)
        ensures
            slot_view(slot) == self@.index_of_first(key@),
    {
        proof {
            self@.index_of_first_ensures(key@);
        }
        let mut i: usize = 0;
        while i < self.keys.len()
            invariant
                i <= self.keys.len(),
                self@.len() == self.keys.len(),
                forall|j: int| 0 <= j < i ==> self@[j] != key@,
            decreases self.keys.len() - i,
        {
            assert(self@[i as int] == self.keys[i as int]@);
            if self.keys[i] == *key {
                proof {
                    self@.index_of_first_ensures(key@);
                }
                return Some(i);
            }
            i += 1;
        }
        None
    }
}

/// Where a request goes.
#[derive(Debug, PartialEq, Eq)]
pub enum Routing {
    /// To the mailbox of the worker at position `worker`, whose key is `key`.
    Deliver { worker: usize, key: String, message: DeployMessage },
    /// Nowhere: no target answers the trigger.
    NoTarget { repository: String, branch: Option<String> },
    /// Nowhere: the table holds no worker with the key of the target.
    NoWorker { key: String },
    /// Nowhere: it was the request to stop, which the dispatcher notes and
    /// does not act on.
    ExitRequested,
}

/// The mathematical content of a [`Routing`].
pub enum RoutingView {
    Deliver { worker: int, key: Seq<char>, message: DeployMessageView },
    NoTarget { repository: Seq<char>, branch: Option<Seq<char>> },
    NoWorker { key: Seq<char> },
    ExitRequested,
}

impl View for Routing {
    type V = RoutingView;

    open spec fn view(&self) -> RoutingView {
        match self {
            Routing::Deliver { worker, key, message } => RoutingView::Deliver {
                worker: *worker as int,
                key: key@,
                message: message@,
            },
            Routing::NoTarget { repository, branch } => RoutingView::NoTarget {
                repository: repository@,
                branch: opt_view(*branch),
            },
            Routing::NoWorker { key } => RoutingView::NoWorker { key: key@ },
            Routing::ExitRequested => RoutingView::ExitRequested,
        }
    }
}

/// Where a message goes: a request to deploy goes to the worker that the
/// table holds under the key of its target.
pub open spec fn route_of(table: Seq<Seq<char>>, message: DeployMessageView) -> RoutingView {
    match message {
        DeployMessageView::Exit => RoutingView::ExitRequested,
        DeployMessageView::Deploy(target) => match table.index_of_first(key_of(target)) {
            Some(worker) => RoutingView::Deliver { worker, key: key_of(target), message },
            None => RoutingView::NoWorker { key: key_of(target) },
        },
    }
}

/// Where a trigger goes: to the worker of the first target that answers it.
pub open spec fn dispatch_of(
    hooks: Seq<HookConfigView>,
    table: Seq<Seq<char>>,
    trigger: TriggerView,
) -> RoutingView {
    match first_match(hooks, trigger) {
        Some(i) => route_of(table, DeployMessageView::Deploy(hooks[i])),
        None => RoutingView::NoTarget { repository: trigger.repository, branch: trigger.branch },
    }
}

/// Logged when the dispatcher starts routing.
pub open spec fn dispatcher_started_text() -> Seq<char> {
    "Starting dispatcher."@
}

/// Logged when the dispatcher's own mailbox has closed.
pub open spec fn dispatcher_stopped_text() -> Seq<char> {
    "Stopping dispatcher."@
}

/// Logged for a request that is handed to the worker with the given key.
pub open spec fn want_text(key: Seq<char>) -> Seq<char> {
    "Want to deploy "@ + key + "."@
}

/// Logged for a trigger that no target answers.
pub open spec fn no_target_text(repository: Seq<char>, branch: Option<Seq<char>>) -> Seq<char> {
    match branch {
        Some(b) => "No hook for "@ + repository + "/"@ + b,
        None => "No hook for "@ + repository,
    }
}

/// Logged for a request whose target has no worker.
pub open spec fn no_worker_text(key: Seq<char>) -> Seq<char> {
    "No deployer for "@ + key + "."@
}

/// Logged for the request to stop.
pub open spec fn exit_text() -> Seq<char> {
    "We should exit."@
}

/// Logged for a request that the worker's mailbox did not take.
pub open spec fn send_failure_text(key: Seq<char>, reason: Seq<char>) -> Seq<char> {
    "Send to deployer "@ + key + " failed: "@ + reason + "."@
}

/// What the log says of a routing.
pub open spec fn routing_text(routing: RoutingView) -> Seq<char> {
    match routing {
        RoutingView::Deliver { key, .. } => want_text(key),
        RoutingView::NoTarget { repository, branch } => no_target_text(repository, branch),
        RoutingView::NoWorker { key } => no_worker_text(key),
        RoutingView::ExitRequested => exit_text(),
    }
}

impl Routing {
    /// What to write to the log about this routing.
    pub fn log_text(&self) -> (info: String)
        ensures
            info@ == routing_text(self@),
    {
        match self {
            Routing::Deliver { key, .. } => {
                let mut info = String::from_str("Want to deploy ");
                info.append(key.as_str());
                info.append(".");
                info
            },
            Routing::NoTarget { repository, branch } => {
                let mut info = String::from_str("No hook for ");
                info.append(repository.as_str());
                match branch {
                    Some(b) => {
                        info.append("/");
                        info.append(b.as_str());
                    },
                    None => {},
                }
                info
            },
            Routing::NoWorker { key } => {
                let mut info = String::from_str("No deployer for ");
                info.append(key.as_str());
                info.append(".");
                info
            },
            Routing::ExitRequested => String::from_str("We should exit."),
        }
    }
}

/// What to write to the log when the mailbox of the worker with the given
/// key did not take a request. The failure is logged and goes no further.
pub fn send_failure(key: &str, reason: &str) -> (info: String)
    ensures
        info@ == send_failure_text(key@, reason@),
{
    let mut info = String::from_str("Send to deployer ");
    info.append(key);
    info.append(" failed: ");
    info.append(reason);
    info.append(".");
    info
}

/// The dispatcher. It owns the configuration.
#[derive(Debug, PartialEq, Eq)]
pub struct Dispatcher {
    pub config: HookConfiguration,
}

/// The name under which the dispatcher writes to the log.
pub open spec fn dispatcher_name() -> Seq<char> {
    "dispatcher"@
}

impl RoutingTable {
    /// Routes a message: a request to deploy to the worker of its target.
    pub fn route(&self, message: DeployMessage) -> (routing: Routing)
        ensures
            routing@ == route_of(self@, message@),
    {
        match message {
            DeployMessage::Exit => Routing::ExitRequested,
            DeployMessage::Deploy(target) => {
                let key = target.worker_name();
                match self.slot(&key) {
                    Some(worker) => Routing::Deliver {
                        worker,
                        key,
                        message: DeployMessage::Deploy(target),
                    },
                    None => Routing::NoWorker { key },
                }
            },
        }
    }
}

impl Dispatcher {
    /// The name under which the dispatcher writes to the log.
    pub fn name(&self) -> (name: String)
        ensures
            name@ == dispatcher_name(),
    {
        String::from_str("dispatcher")
    }

    /// What the dispatcher logs when it starts routing.
    pub fn started() -> (info: &'static str)
        ensures
            info@ == dispatcher_started_text(),
    {
        "Starting dispatcher."
    }

    /// What the dispatcher logs when its own mailbox has closed.
    pub fn stopped() -> (info: &'static str)
        ensures
            info@ == dispatcher_stopped_text(),
    {
        "Stopping dispatcher."
    }

    /// A line of the dispatcher in the system log.
    pub fn log(&self, stamp: &str, info: &str) -> (line: String)
        ensures
            line@ == log_line_text(stamp@, dispatcher_name(), info@),
    {
        let actor = self.name();
        log_line(stamp, actor.as_str(), info)
    }

    /// Builds one worker for each target, in the order of the configuration,
    /// and the table that routes to them. Two targets with the same key are a
    /// configuration error: nothing is built, and the error names the first
    /// clash.
    pub fn start(&self) -> (started: Result<(RoutingTable, Vec<Deployer>), ConfigError>)
        ensures
            started is Ok <==> keys_distinct(self@.config.hooks),
            match started {
                Ok((table, workers)) => {
                    &&& table@ == keys_of(self@.config.hooks)
                    &&& workers.len() == self@.config.hooks.len()
                    &&& forall|i: int|
                        0 <= i < workers.len() ==> (#[trigger] workers[i])@ == worker_for(
                            self@.config.hooks[i],
                            self@.config.slack,
                        )
                },
                Err(ConfigError::DuplicateKey { first, second, key }) => {
                    &&& is_first_clash(keys_of(self@.config.hooks), first as int, second as int)
                    &&& key@ == keys_of(self@.config.hooks)[second as int]
                },
            },
    {
        match self.config.duplicate_key() {
            Some((first, second)) => {
                let key = self.config.hooks[second].worker_name();
                Err(ConfigError::DuplicateKey { first, second, key })
            },
            None => {
                let keys = self.config.worker_names();
                let mut workers: Vec<Deployer> = Vec::new();
                let mut i: usize = 0;
                while i < self.config.hooks.len()
                    invariant
                        i <= self.config.hooks.len(),
                        workers.len() == i,
                        forall|k: int|
                            0 <= k < i ==> (#[trigger] workers[k])@ == worker_for(
                                self@.config.hooks[k],
                                self@.config.slack,
                            ),
                    decreases self.config.hooks.len() - i,
                {
                    workers.push(Deployer::new(&self.config.hooks[i], &self.config.slack));
                    i += 1;
                }
                Ok((RoutingTable { keys }, workers))
            },
        }
    }

    /// Resolves a trigger to the first target that answers it and routes a
    /// request to deploy, with a snapshot of that target, to its worker.
    pub fn dispatch(&self, table: &RoutingTable, trigger: &Trigger) -> (routing: Routing)
        ensures
            routing@ == dispatch_of(self@.config.hooks, table@, trigger@),
    {
        proof {
            lemma_first_match(self@.config.hooks, trigger@);
        }
        match self.config.resolve(trigger) {
            Some(i) => table.route(DeployMessage::Deploy(self.config.hooks[i].clone())),
            None => Routing::NoTarget {
                repository: trigger.repository.clone(),
                branch: clone_opt(&trigger.branch),
            },
        }
    }
}

/// Where the keys are distinct, every target has a worker of its own: a
/// request for the target at position `i` goes to the worker at position `i`.
pub proof fn lemma_target_reaches_its_worker(hooks: Seq<HookConfigView>, i: int)
    requires
        keys_distinct(hooks),
        0 <= i < hooks.len(),
    ensures
        route_of(keys_of(hooks), DeployMessageView::Deploy(hooks[i])) == (RoutingView::Deliver {
            worker: i,
            key: key_of(hooks[i]),
            message: DeployMessageView::Deploy(hooks[i]),
        }),
{
    let keys = keys_of(hooks);
    assert(keys[i] == key_of(hooks[i]));
    keys.index_of_first_ensures(key_of(hooks[i]));
}

/// Where the keys are distinct, a trigger goes to the worker of the first
/// target that answers it, with a snapshot of that target; it goes nowhere
/// exactly when no target answers.
pub proof fn lemma_dispatch_reaches_first_answer(hooks: Seq<HookConfigView>, trigger: TriggerView)
    requires
        keys_distinct(hooks),
    ensures
        match dispatch_of(hooks, keys_of(hooks), trigger) {
            RoutingView::Deliver { worker, key, message } => {
                &&& is_first_match(hooks, trigger, worker)
                &&& key == key_of(hooks[worker])
                &&& message == DeployMessageView::Deploy(hooks[worker])
            },
            RoutingView::NoTarget { repository, branch } => {
                &&& no_match(hooks, trigger)
                &&& repository == trigger.repository
                &&& branch == trigger.branch
            },
            _ => false,
        },
{
    lemma_first_match(hooks, trigger);
    match first_match(hooks, trigger) {
        Some(i) => lemma_target_reaches_its_worker(hooks, i),
        None => {},
    }
}

/// The states of all workers, each at the position of its worker.
pub open spec fn fleet_step(fleet: Seq<WorkerState>, worker: int, event: EventKind) -> Seq<
    WorkerState,
> {
    if 0 <= worker < fleet.len() {
        fleet.update(worker, transition(fleet[worker], event).0)
    } else {
        fleet
    }
}

/// Workers do not wait for each other: what one worker takes changes no
/// other worker's state, and steps of two workers can be taken in either
/// order.
pub proof fn lemma_workers_are_independent(
    fleet: Seq<WorkerState>,
    i: int,
    j: int,
    first: EventKind,
    second: EventKind,
)
    requires
        0 <= i < fleet.len(),
        0 <= j < fleet.len(),
        i != j,
    ensures
        fleet_step(fleet, i, first)[j] == fleet[j],
        fleet_step(fleet_step(fleet, i, first), j, second) == fleet_step(
            fleet_step(fleet, j, second),
            i,
            first,
        ),
{
}

/// Two targets can deploy at the same time: a worker starts its command
/// whether or not another worker's command is running.
pub proof fn lemma_workers_run_side_by_side(fleet: Seq<WorkerState>, i: int, j: int)
    requires
        0 <= i < fleet.len(),
        0 <= j < fleet.len(),
        i != j,
        fleet[i] is Running,
        fleet[j] == WorkerState::Draining,
    ensures
        transition(fleet[j], EventKind::Empty).1 == WorkerAction::Run,
        fleet_step(fleet, j, EventKind::Empty)[i] is Running,
        fleet_step(fleet, j, EventKind::Empty)[j] is Running,
{
}

/// The mathematical content of a [`Dispatcher`].
pub struct DispatcherView {
    pub config: HookConfigurationView,
}

impl View for Dispatcher {
    type V = DispatcherView;

    open spec fn view(&self) -> DispatcherView {
        DispatcherView { config: self.config@ }
    }
}

} // verus!
