//! The receiving end of the webhook: it decides what a request asks for.
//! Reading the request and answering it are the caller's business.

use crate::deployer::{DeployMessage, DeployMessageView};
use crate::git_hook::{branch_of, GitHook, GitHookView, TriggerView};
use crate::hook_configuration::{
    first_match, lemma_first_match, HookConfigView, HookConfiguration, HookConfigurationView,
};
use crate::text::opt_view;
use vstd::prelude::*;
use vstd::string::*;

verus! {

/// The webhook endpoint. It owns a copy of the configuration.
#[derive(Debug, PartialEq, Eq)]
pub struct Daemon {
    pub config: HookConfiguration,
}

/// The mathematical content of a [`Daemon`].
pub struct DaemonView {
    pub config: HookConfigurationView,
}

impl View for Daemon {
    type V = DaemonView;

    open spec fn view(&self) -> DaemonView {
        DaemonView { config: self.config@ }
    }
}

/// What a request came to.
#[derive(Debug, PartialEq, Eq)]
pub enum Handled {
    /// The request was not for the hook path: nothing is done.
    Ignored,
    /// The request was for the hook path, but its body holds no payload that
    /// names a repository and a reference.
    Unreadable,
    /// No target answers a push to `branch` of `repository`.
    NoHook { repository: String, branch: String },
    /// The message is to be handed to the dispatcher.
    Forward(DeployMessage),
}

/// The mathematical content of a [`Handled`].
pub enum HandledView {
    Ignored,
    Unreadable,
    NoHook { repository: Seq<char>, branch: Seq<char> },
    Forward(DeployMessageView),
}

impl View for Handled {
    type V = HandledView;

    open spec fn view(&self) -> HandledView {
        match self {
            Handled::Ignored => HandledView::Ignored,
            Handled::Unreadable => HandledView::Unreadable,
            Handled::NoHook { repository, branch } => HandledView::NoHook {
                repository: repository@,
                branch: branch@,
            },
            Handled::Forward(message) => HandledView::Forward(message@),
        }
    }
}

/// The one path that the endpoint serves.
pub open spec fn hook_path() -> Seq<char> {
    "/hook/"@
}

/// The body of every answer.
pub open spec fn reply_text() -> Seq<char> {
    "OK."@
}

/// Logged for a payload that no target answers.
pub open spec fn no_hook_text(repository: Seq<char>, branch: Seq<char>) -> Seq<char> {
    "No hook for "@ + repository + "/"@ + branch
}

/// The content of an optional payload.
pub open spec fn payload_view(payload: Option<GitHook>) -> Option<GitHookView> {
    match payload {
        Some(hook) => Some(hook@),
        None => None,
    }
}

/// What a request for `path` with the given payload comes to: a request to
/// deploy the first target that answers a push to the payload's branch of
/// the payload's repository.
pub open spec fn handled_of(
    hooks: Seq<HookConfigView>,
    path: Seq<char>,
    payload: Option<GitHookView>,
) -> HandledView {
    if path != hook_path() {
        HandledView::Ignored
    } else {
        match payload {
            None => HandledView::Unreadable,
            Some(hook) => {
                let branch = branch_of(hook.reference);
                let trigger = TriggerView { repository: hook.repository, branch: Some(branch) };
                match first_match(hooks, trigger) {
                    Some(i) => HandledView::Forward(DeployMessageView::Deploy(hooks[i])),
                    None => HandledView::NoHook { repository: hook.repository, branch },
                }
            },
        }
    }
}

impl Daemon {
    /// Whether requests for `path` are hook requests, whose body is worth
    /// reading.
    pub fn serves(path: &str) -> (served: bool)
        ensures
            served == (path@ == hook_path()),
    {
        String::from_str(path) == String::from_str("/hook/")
    }

    /// The body of the answer, which is the same for every request.
    pub fn reply() -> (body: &'static str)
        ensures
            body@ == reply_text(),
    {
        "OK."
    }

    /// Decides what a request asks for. `payload` is what the body of the
    /// request was read as, or `None` where it could not be read.
    pub fn handle(&self, path: &str, payload: Option<GitHook>) -> (handled: Handled)
        ensures
            handled@ == handled_of(self@.config.hooks, path@, payload_view(payload)),
    {
        if !Daemon::serves(path) {
            return Handled::Ignored;
        }
        match payload {
            None => Handled::Unreadable,
            Some(hook) => {
                let trigger = hook.trigger();
                proof {
                    lemma_first_match(self@.config.hooks, trigger@);
                }
                match self.config.resolve(&trigger) {
                    Some(i) => Handled::Forward(DeployMessage::Deploy(self.config.hooks[i].clone())),
                    None => {
                        let branch = hook.branch();
                        Handled::NoHook { repository: hook.repository, branch }
                    },
                }
            },
        }
    }
}

impl Handled {
    /// What to write to the log about a request, where there is anything to
    /// say: that no target answers.
    pub fn log_text(&self) -> (info: Option<String>)
        ensures
            opt_view(info) == match self@ {
                HandledView::NoHook { repository, branch } => Some(no_hook_text(repository, branch)),
                _ => None,
            },
    {
        match self {
            Handled::NoHook { repository, branch } => {
                let mut info = String::from_str("No hook for ");
                info.append(repository.as_str());
                info.append("/");
                info.append(branch.as_str());
                Some(info)
            },
            _ => None,
        }
    }
}

} // verus!
