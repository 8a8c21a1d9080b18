//! The static configuration: deployment targets and the notification channel.

use crate::git_hook::{Trigger, TriggerView};
use crate::text::{clone_opt, clone_strings, opt_view};
use vstd::prelude::*;
use vstd::string::*;

verus! {

/// What a target runs: a command, its arguments in order, and the directory
/// it runs in.
#[derive(Debug, PartialEq, Eq)]
pub struct HookAction {
    pub cmd: String,
    pub parms: Vec<String>,
    pub pwd: String,
}

/// The mathematical content of a [`HookAction`].
pub struct HookActionView {
    pub cmd: Seq<char>,
    pub parms: Seq<Seq<char>>,
    pub pwd: Seq<char>,
}

impl View for HookAction {
    type V = HookActionView;

    open spec fn view(&self) -> HookActionView {
        HookActionView { cmd: self.cmd@, parms: self.parms.deep_view(), pwd: self.pwd@ }
    }
}

impl Clone for HookAction {
    fn clone(&self) -> (copy: Self)
        ensures
            copy@ == self@,
    {
        HookAction {
            cmd: self.cmd.clone(),
            parms: clone_strings(&self.parms),
            pwd: self.pwd.clone(),
        }
    }
}

/// One deployment target: a repository name, an optional branch filter, and
/// the action to run. A target without a branch filter matches every branch
/// of its repository.
#[derive(Debug, PartialEq, Eq)]
pub struct HookConfig {
    pub name: String,
    pub branch: Option<String>,
    pub action: HookAction,
}

/// The mathematical content of a [`HookConfig`].
pub struct HookConfigView {
    pub name: Seq<char>,
    pub branch: Option<Seq<char>>,
    pub action: HookActionView,
}

impl View for HookConfig {
    type V = HookConfigView;

    open spec fn view(&self) -> HookConfigView {
        HookConfigView { name: self.name@, branch: opt_view(self.branch), action: self.action@ }
    }
}

impl Clone for HookConfig {
    fn clone(&self) -> (copy: Self)
        ensures
            copy@ == self@,
    {
        HookConfig {
            name: self.name.clone(),
            branch: clone_opt(&self.branch),
            action: self.action.clone(),
        }
    }
}

/// The key of the worker that serves a target: the repository name, a hyphen,
/// and the branch, where a missing branch reads `all`.
pub open spec fn worker_key(name: Seq<char>, branch: Option<Seq<char>>) -> Seq<char> {
    name + "-"@ + match branch {
        Some(b) => b,
        None => "all"@,
    }
}

impl HookConfig {
    /// The key under which this target's worker is registered.
    pub fn worker_name(&self) -> (key: String)
        ensures
            key@ == worker_key(self@.name, self@.branch),
    {
        let mut key = self.name.clone();
        key.append("-");
        match &self.branch {
            Some(b) => key.append(b.as_str()),
            None => key.append("all"),
        }
        key
    }
}

/// Where and as whom status messages are posted.
#[derive(Debug, PartialEq, Eq)]
pub struct SlackConfiguration {
    pub webhook_url: String,
    pub channel: String,
    pub username: String,
    pub icon_url: Option<String>,
    pub icon_emoji: Option<String>,
}

/// The mathematical content of a [`SlackConfiguration`].
pub struct SlackConfigurationView {
    pub webhook_url: Seq<char>,
    pub channel: Seq<char>,
    pub username: Seq<char>,
    pub icon_url: Option<Seq<char>>,
    pub icon_emoji: Option<Seq<char>>,
}

impl View for SlackConfiguration {
    type V = SlackConfigurationView;

    open spec fn view(&self) -> SlackConfigurationView {
        SlackConfigurationView {
            webhook_url: self.webhook_url@,
            channel: self.channel@,
            username: self.username@,
            icon_url: opt_view(self.icon_url),
            icon_emoji: opt_view(self.icon_emoji),
        }
    }
}

impl Clone for SlackConfiguration {
    fn clone(&self) -> (copy: Self)
        ensures
            copy@ == self@,
    {
        SlackConfiguration {
            webhook_url: self.webhook_url.clone(),
            channel: self.channel.clone(),
            username: self.username.clone(),
            icon_url: clone_opt(&self.icon_url),
            icon_emoji: clone_opt(&self.icon_emoji),
        }
    }
}

/// The content of an optional channel configuration.
pub open spec fn slack_view(s: Option<SlackConfiguration>) -> Option<SlackConfigurationView> {
    match s {
        Some(c) => Some(c@),
        None => None,
    }
}

/// Copies an optional channel configuration.
pub fn clone_slack(s: &Option<SlackConfiguration>) -> (copy: Option<SlackConfiguration>)
    ensures
        slack_view(copy) == slack_view(*s),
{
    match s {
        Some(c) => Some(c.clone()),
        None => None,
    }
}

/// The whole configuration: the targets in the order they were written, and
/// the channel that every worker reports to.
#[derive(Debug, PartialEq, Eq)]
pub struct HookConfiguration {
    pub hooks: Vec<HookConfig>,
    pub slack: Option<SlackConfiguration>,
}

/// The mathematical content of a [`HookConfiguration`].
pub struct HookConfigurationView {
    pub hooks: Seq<HookConfigView>,
    pub slack: Option<SlackConfigurationView>,
}

impl View for HookConfiguration {
    type V = HookConfigurationView;

    open spec fn view(&self) -> HookConfigurationView {
        HookConfigurationView {
            hooks: Seq::new(self.hooks.len() as nat, |i: int| self.hooks[i]@),
            slack: slack_view(self.slack),
        }
    }
}

impl Clone for HookConfiguration {
    fn clone(&self) -> (copy: Self)
        ensures
            copy@ == self@,
    {
        let mut hooks: Vec<HookConfig> = Vec::new();
        let mut i: usize = 0;
        while i < self.hooks.len()
            invariant
                i <= self.hooks.len(),
                hooks.len() == i,
                forall|j: int| 0 <= j < i ==> hooks[j]@ == self.hooks[j]@,
            decreases self.hooks.len() - i,
        {
            hooks.push(self.hooks[i].clone());
            i += 1;
        }
        let copy = HookConfiguration { hooks, slack: clone_slack(&self.slack) };
        assert(copy@.hooks =~= self@.hooks);
        copy
    }
}

/// Whether a target answers a trigger: the repository names are equal, and
/// the target either has no branch filter or its filter is exactly the
/// trigger's branch.
pub open spec fn target_matches(target: HookConfigView, trigger: TriggerView) -> bool {
    target.name == trigger.repository && match target.branch {
        None => true,
        Some(b) => trigger.branch == Some(b),
    }
}

/// The key of a target's worker.
pub open spec fn key_of(target: HookConfigView) -> Seq<char> {
    worker_key(target.name, target.branch)
}

/// The worker keys of a list of targets, in the order of the list.
pub open spec fn keys_of(hooks: Seq<HookConfigView>) -> Seq<Seq<char>> {
    Seq::new(hooks.len(), |i: int| key_of(hooks[i]))
}

/// No two targets of the list share a worker key.
pub open spec fn keys_distinct(hooks: Seq<HookConfigView>) -> bool {
    keys_of(hooks).no_duplicates()
}

/// Positions `i` and `j` hold the first clash of keys: `j` is the first
/// target whose key was used before it, and `i` is the first that used it.
pub open spec fn is_first_clash(keys: Seq<Seq<char>>, i: int, j: int) -> bool {
    &&& 0 <= i < j < keys.len()
    &&& keys[i] == keys[j]
    &&& keys.take(j).no_duplicates()
    &&& forall|a: int| 0 <= a < i ==> #[trigger] keys[a] != keys[j]
}

/// Position `i` holds the first target of the list that answers the trigger.
pub open spec fn is_first_match(hooks: Seq<HookConfigView>, trigger: TriggerView, i: int) -> bool {
    &&& 0 <= i < hooks.len()
    &&& target_matches(hooks[i], trigger)
    &&& forall|j: int| 0 <= j < i ==> !target_matches(#[trigger] hooks[j], trigger)
}

/// No target of the list answers the trigger.
pub open spec fn no_match(hooks: Seq<HookConfigView>, trigger: TriggerView) -> bool {
    forall|j: int| 0 <= j < hooks.len() ==> !target_matches(#[trigger] hooks[j], trigger)
}

/// The position of the first target at or after `from` that answers the
/// trigger.
pub open spec fn first_match_from(hooks: Seq<HookConfigView>, trigger: TriggerView, from: int) -> Option<int>
    decreases hooks.len() - from,
{
    if from < 0 || from >= hooks.len() {
        None
    } else if target_matches(hooks[from], trigger) {
        Some(from)
    } else {
        first_match_from(hooks, trigger, from + 1)
    }
}

/// The position of the target that a trigger is resolved to: the first one,
/// in the order of the configuration, that answers it.
pub open spec fn first_match(hooks: Seq<HookConfigView>, trigger: TriggerView) -> Option<int> {
    first_match_from(hooks, trigger, 0)
}

proof fn lemma_first_match_from(hooks: Seq<HookConfigView>, trigger: TriggerView, from: int)
    requires
        0 <= from <= hooks.len(),
    ensures
        match first_match_from(hooks, trigger, from) {
            Some(i) => from <= i < hooks.len() && target_matches(hooks[i], trigger) && forall|j: int|
                from <= j < i ==> !target_matches(#[trigger] hooks[j], trigger),
            None => forall|j: int|
                from <= j < hooks.len() ==> !target_matches(#[trigger] hooks[j], trigger),
        },
    decreases hooks.len() - from,
{
    if from < hooks.len() && !target_matches(hooks[from], trigger) {
        lemma_first_match_from(hooks, trigger, from + 1);
    }
}

/// A trigger is resolved to a target that answers it and that no answering
/// target precedes; it is resolved to none exactly when no target answers.
pub proof fn lemma_first_match(hooks: Seq<HookConfigView>, trigger: TriggerView)
    ensures
        match first_match(hooks, trigger) {
            Some(i) => is_first_match(hooks, trigger, i),
            None => no_match(hooks, trigger),
        },
{
    lemma_first_match_from(hooks, trigger, 0);
}

impl HookConfig {
    /// Whether this target answers the trigger.
    pub fn matches(&self, trigger: &Trigger) -> (hit: bool)
        ensures
            hit == target_matches(self@, trigger@),
    {
        if self.name == trigger.repository {
            match &self.branch {
                None => true,
                Some(wanted) => match &trigger.branch {
                    Some(given) => *wanted == *given,
                    None => false,
                },
            }
        } else {
            false
        }
    }
}

impl HookConfiguration {
    /// Finds the target that a trigger is for: the first one, in the order of
    /// the configuration, that answers it.
    pub fn resolve(&self, trigger: &Trigger) -> (found: Option<usize>)
        ensures
            match found {
                Some(i) => first_match(self@.hooks, trigger@) == Some(i as int),
                None => first_match(self@.hooks, trigger@) is None,
            },
    {
        let mut i: usize = 0;
        while i < self.hooks.len()
            invariant
                i <= self.hooks.len(),
                first_match(self@.hooks, trigger@) == first_match_from(self@.hooks, trigger@, i as int),
            decreases self.hooks.len() - i,
        {
            if self.hooks[i].matches(trigger) {
                return Some(i);
            }
            i += 1;
        }
        None
    }

    /// The worker keys of the targets, in the order of the configuration.
    pub fn worker_names(&self) -> (keys: Vec<String>)
        ensures
            keys.deep_view() == keys_of(self@.hooks),
    {
        let mut keys: Vec<String> = Vec::new();
        let mut i: usize = 0;
        while i < self.hooks.len()
            invariant
                i <= self.hooks.len(),
                keys.len() == i,
                forall|k: int| 0 <= k < i ==> keys[k]@ == key_of(self@.hooks[k]),
            decreases self.hooks.len() - i,
        {
            keys.push(self.hooks[i].worker_name());
            i += 1;
        }
        keys
    }

    /// Looks for two targets with the same worker key. Returns the positions
    /// of the first clash, or `None` when every key is used once.
    pub fn duplicate_key(&self) -> (pair: Option<(usize, usize)>)
        ensures
            pair is None <==> keys_distinct(self@.hooks),
            match pair {
                Some((i, j)) => is_first_clash(keys_of(self@.hooks), i as int, j as int),
                None => true,
            },
    {
        let keys = self.worker_names();
        let ghost all = keys_of(self@.hooks);
        let mut j: usize = 0;
        while j < keys.len()
            invariant
                j <= keys.len(),
                all == keys_of(self@.hooks),
                all.len() == keys.len(),
                keys.deep_view() == all,
                all.take(j as int).no_duplicates(),
            decreases keys.len() - j,
        {
            let mut i: usize = 0;
            while i < j
                invariant
                    i <= j,
                    j < keys.len(),
                    all == keys_of(self@.hooks),
                    all.len() == keys.len(),
                    keys.deep_view() == all,
                    all.take(j as int).no_duplicates(),
                    forall|a: int| 0 <= a < i ==> #[trigger] all[a] != all[j as int],
                decreases j - i,
            {
                assert(keys[i as int]@ == all[i as int]);
                assert(keys[j as int]@ == all[j as int]);
                if keys[i] == keys[j] {
                    return Some((i, j));
                }
                i += 1;
            }
            proof {
                let shorter = all.take(j as int);
                let longer = all.take(j + 1);
                assert forall|a: int, b: int| 0 <= a < longer.len() && 0 <= b < longer.len() && a != b implies longer[a]
                    != longer[b] by {
                    if a < j && b < j {
                        assert(shorter[a] != shorter[b]);
                    }
                }
            }
            j += 1;
        }
        assert(all.take(keys.len() as int) =~= all);
        None
    }
}

} // verus!
