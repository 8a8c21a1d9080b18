//! A deployment dispatcher: triggers that name a repository and a branch are
//! resolved against a static list of targets, routed to one serialized worker
//! per target, and answered by running the target's command and reporting how
//! it ended.
//!
//! Everything here is a decision or a computation on plain values. Threads,
//! mailboxes, child processes and the network belong to the program that
//! drives these functions:
//!
//! - [`hook_configuration`] holds the targets and resolves a trigger to the
//!   first target that answers it;
//! - [`git_hook`] and [`daemon`] decide what a webhook request asks for;
//! - [`dispatcher`] builds one worker per target and routes requests by key;
//! - [`deployer`] is the worker, a state machine that runs its command once
//!   for each burst of requests;
//! - [`capture`] cuts the output of a command into stamped lines;
//! - [`outcome`] classifies how a command ended;
//! - [`notifier`] says what is sent to the operator channel;
//! - [`tools`] and [`text`] write stamps, log lines and numerals.

pub mod capture;
pub mod daemon;
pub mod deployer;
pub mod dispatcher;
pub mod git_hook;
pub mod hook_configuration;
pub mod notifier;
pub mod outcome;
pub mod text;
pub mod tools;
