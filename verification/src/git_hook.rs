//! What a webhook payload says, and the trigger that is read from it.

use crate::text::opt_view;
use crate::text::{strip_leading, without_leading};
use vstd::prelude::*;
use vstd::string::*;

verus! {

/// A request to deploy: the repository that changed and, where known, the
/// branch that changed.
#[derive(Debug, PartialEq, Eq)]
pub struct Trigger {
    pub repository: String,
    pub branch: Option<String>,
}

/// The mathematical content of a [`Trigger`].
pub struct TriggerView {
    pub repository: Seq<char>,
    pub branch: Option<Seq<char>>,
}

impl View for Trigger {
    type V = TriggerView;

    open spec fn view(&self) -> TriggerView {
        TriggerView { repository: self.repository@, branch: opt_view(self.branch) }
    }
}

/// The two fields of a push notification that the dispatcher reads: the name
/// of the repository and the full reference that was pushed.
#[derive(Debug, PartialEq, Eq)]
pub struct GitHook {
    pub repository: String,
    pub reference: String,
}

/// The mathematical content of a [`GitHook`].
pub struct GitHookView {
    pub repository: Seq<char>,
    pub reference: Seq<char>,
}

impl View for GitHook {
    type V = GitHookView;

    open spec fn view(&self) -> GitHookView {
        GitHookView { repository: self.repository@, reference: self.reference@ }
    }
}

/// The branch that a reference names: the reference without its leading
/// `refs/heads/`, however often that is repeated.
pub open spec fn branch_of(reference: Seq<char>) -> Seq<char> {
    without_leading(reference, "refs/heads/"@)
}

impl GitHook {
    /// A payload that names `repository` and `reference`.
    pub fn new(repository: String, reference: String) -> (hook: GitHook)
        ensures
            hook@ == (GitHookView { repository: repository@, reference: reference@ }),
    {
        GitHook { repository, reference }
    }

    /// The name of the repository that was pushed to.
    pub fn repository_name(&self) -> (name: &str)
        ensures
            name@ == self@.repository,
    {
        self.repository.as_str()
    }

    /// The reference that was pushed, as the payload gives it.
    pub fn reference(&self) -> (reference: &str)
        ensures
            reference@ == self@.reference,
    {
        self.reference.as_str()
    }

    /// The branch that was pushed.
    pub fn branch(&self) -> (branch: String)
        ensures
            branch@ == branch_of(self@.reference),
    {
        strip_leading(self.reference.as_str(), "refs/heads/")
    }

    /// The trigger that this payload stands for.
    pub fn trigger(&self) -> (trigger: Trigger)
        ensures
            trigger@ == (TriggerView {
                repository: self@.repository,
                branch: Some(branch_of(self@.reference)),
            }),
    {
        Trigger { repository: self.repository.clone(), branch: Some(self.branch()) }
    }
}

} // verus!
