use deploy_dispatcher::capture::{LineCapture, StreamTag};
use deploy_dispatcher::deployer::{
    next, DeployMessage, Deployer, EventKind, Step, WorkerAction, WorkerEvent, WorkerState,
};
use deploy_dispatcher::hook_configuration::{HookAction, HookConfig, SlackConfiguration};
use deploy_dispatcher::notifier::Notification;
use deploy_dispatcher::outcome::{DeployOutcome, ExitKind, ExitReport};
use deploy_dispatcher::tools::Timestamp;

fn target() -> HookConfig {
    HookConfig {
        name: "site".to_string(),
        branch: None,
        action: HookAction {
            cmd: "/usr/bin/make".to_string(),
            parms: vec!["deploy".to_string()],
            pwd: "/srv/site".to_string(),
        },
    }
}

fn slack() -> SlackConfiguration {
    SlackConfiguration {
        webhook_url: "https://hooks.example/T0/B0".to_string(),
        channel: "#deploys".to_string(),
        username: "deployer".to_string(),
        icon_url: Some("https://example/icon.png".to_string()),
        icon_emoji: None,
    }
}

fn worker() -> Deployer {
    Deployer::new(&target(), &Some(slack()))
}

fn quiet_worker() -> Deployer {
    Deployer::new(&target(), &None)
}

fn note(text: &str) -> Notification {
    Notification {
        webhook_url: "https://hooks.example/T0/B0".to_string(),
        text: text.to_string(),
        channel: "#deploys".to_string(),
        username: "deployer".to_string(),
        icon_url: Some("https://example/icon.png".to_string()),
        icon_emoji: None,
        unfurl_links: true,
        link_names: false,
    }
}

fn deploy() -> WorkerEvent {
    WorkerEvent::Received(DeployMessage::Deploy(target()))
}

fn exited(code: Option<i32>, signal: Option<i32>, seconds: i64) -> DeployOutcome {
    let now = Timestamp::new(2016, 3, 9, 10, 0, 0, 0).unwrap();
    DeployOutcome::new(
        ExitReport { code, signal },
        seconds,
        LineCapture::collect(StreamTag::Stdout, Some(b"compiling\nlinking\n"), now),
        LineCapture::collect(StreamTag::Stderr, Some(b"warning: slow\n"), now),
    )
}

const RUNNING: WorkerState = WorkerState::Running { stop_after: false };
const LAST_RUN: WorkerState = WorkerState::Running { stop_after: true };

#[test]
fn a_worker_is_made_from_its_target() {
    let w = worker();
    assert_eq!(w.name, "site-all");
    assert_eq!(w.conf, target().action);
    assert_eq!(w.slack, Some(slack()));
    assert_eq!(quiet_worker().slack, None);
}

#[test]
fn log_name_and_log_line() {
    let w = worker();
    assert_eq!(w.log_name(), "deployer-site-all");
    assert_eq!(
        w.log("2016-03-09 10:00:00.000", "Starting deployer."),
        "[2016-03-09 10:00:00.000][deployer-site-all][system] Starting deployer."
    );
}

#[test]
fn message_takes_the_channel_settings() {
    assert_eq!(worker().message("hello".to_string()), Some(note("hello")));
}

#[test]
fn message_without_a_channel_is_none() {
    assert_eq!(quiet_worker().message("hello".to_string()), None);
}

#[test]
fn delivery_is_logged_either_way() {
    assert_eq!(Deployer::delivery_log(&Ok(())), "Sent notification to slack.");
    assert_eq!(Deployer::delivery_log(&Err("HTTP error 500".to_string())), "ERR: HTTP error 500");
}

#[test]
fn a_worker_starts_idle_and_waits() {
    let step = worker().start();
    assert_eq!(
        step,
        Step {
            state: WorkerState::Idle,
            action: WorkerAction::Receive,
            logs: vec!["Starting deployer.".to_string()],
            notification: None,
        }
    );
}

#[test]
fn a_request_starts_the_drain() {
    let step = worker().step(WorkerState::Idle, deploy());
    assert_eq!(
        step,
        Step { state: WorkerState::Draining, action: WorkerAction::Poll, logs: vec![], notification: None }
    );
}

#[test]
fn requests_found_while_draining_are_dropped() {
    let step = worker().step(WorkerState::Draining, deploy());
    assert_eq!(
        step,
        Step { state: WorkerState::Draining, action: WorkerAction::Poll, logs: vec![], notification: None }
    );
}

#[test]
fn an_empty_mailbox_starts_the_run_and_announces_it() {
    let step = worker().step(WorkerState::Draining, WorkerEvent::MailboxEmpty);
    assert_eq!(
        step,
        Step {
            state: RUNNING,
            action: WorkerAction::Run,
            logs: vec![],
            notification: Some(note("Starting Deploy for site-all.")),
        }
    );
}

#[test]
fn a_closed_mailbox_ends_the_drain_like_an_empty_one() {
    let step = worker().step(WorkerState::Draining, WorkerEvent::MailboxClosed);
    assert_eq!(step.state, RUNNING);
    assert_eq!(step.action, WorkerAction::Run);
    assert_eq!(step.notification, Some(note("Starting Deploy for site-all.")));
}

#[test]
fn exit_code_zero_is_success() {
    let outcome = exited(Some(0), None, 3);
    assert!(outcome.succeeded());
    assert_eq!(outcome.exit_code(), Some(0));
    assert_eq!(outcome.terminating_signal(), None);
    assert_eq!(outcome.kind(), ExitKind::Success);
    assert_eq!(outcome.duration_seconds(), 3);
    let step = worker().step(RUNNING, WorkerEvent::Finished(outcome));
    assert_eq!(
        step,
        Step {
            state: WorkerState::Idle,
            action: WorkerAction::Receive,
            logs: vec![":sunny: site-all deployed successfully in 3s.".to_string()],
            notification: Some(note(":sunny: site-all deployed successfully in 3s.")),
        }
    );
}

#[test]
fn exit_code_seven_is_failure() {
    let outcome = exited(Some(7), None, 12);
    assert!(!outcome.succeeded());
    assert_eq!(outcome.exit_code(), Some(7));
    assert_eq!(outcome.terminating_signal(), None);
    assert_eq!(outcome.kind(), ExitKind::Failed(7));
    let out: Vec<&str> = outcome.stdout_lines().iter().map(|l| l.text.as_str()).collect();
    let err: Vec<&str> = outcome.stderr_lines().iter().map(|l| l.text.as_str()).collect();
    assert_eq!(out, vec!["compiling", "linking"]);
    assert_eq!(err, vec!["warning: slow"]);
    let step = worker().step(RUNNING, WorkerEvent::Finished(outcome));
    assert_eq!(
        step,
        Step {
            state: WorkerState::Idle,
            action: WorkerAction::Receive,
            logs: vec!["Deploy failed with status 7.".to_string()],
            notification: Some(note(":umbrella: site-all deployed failed.")),
        }
    );
}

#[test]
fn a_negative_exit_code_is_written_with_its_sign() {
    let step = worker().step(RUNNING, WorkerEvent::Finished(exited(Some(-1), None, 0)));
    assert_eq!(step.logs, vec!["Deploy failed with status -1.".to_string()]);
}

#[test]
fn a_signal_is_failure_without_exit_code() {
    let outcome = exited(None, Some(15), 40);
    assert!(!outcome.succeeded());
    assert_eq!(outcome.exit_code(), None);
    assert_eq!(outcome.terminating_signal(), Some(15));
    assert_eq!(outcome.kind(), ExitKind::Signaled(15));
    let step = worker().step(RUNNING, WorkerEvent::Finished(outcome));
    assert_eq!(
        step,
        Step {
            state: WorkerState::Idle,
            action: WorkerAction::Receive,
            logs: vec!["Deploy was interrupted with signal 15.".to_string()],
            notification: Some(note(":umbrella: site-all deployed failed.")),
        }
    );
}

#[test]
fn an_exit_without_code_or_signal_is_logged_as_an_anomaly() {
    let outcome = exited(None, None, 1);
    assert!(!outcome.succeeded());
    assert_eq!(outcome.exit_code(), None);
    assert_eq!(outcome.terminating_signal(), None);
    assert_eq!(outcome.kind(), ExitKind::Unknown);
    let step = worker().step(RUNNING, WorkerEvent::Finished(outcome));
    assert_eq!(step.logs, vec!["This should never happen.".to_string()]);
    assert_eq!(step.notification, Some(note(":umbrella: site-all deployed failed.")));
    assert_eq!(step.state, WorkerState::Idle);
}

#[test]
fn an_exit_code_outranks_a_signal() {
    let outcome = exited(Some(2), Some(9), 1);
    assert_eq!(outcome.exit_code(), Some(2));
    assert_eq!(outcome.terminating_signal(), None);
    assert_eq!(outcome.kind(), ExitKind::Failed(2));
    let clean = exited(Some(0), Some(9), 1);
    assert!(clean.succeeded());
    assert_eq!(clean.terminating_signal(), None);
}

#[test]
fn a_negative_duration_is_written_with_its_sign() {
    let step = worker().step(RUNNING, WorkerEvent::Finished(exited(Some(0), None, -2)));
    assert_eq!(step.logs, vec![":sunny: site-all deployed successfully in -2s.".to_string()]);
}

#[test]
fn a_command_that_cannot_start_is_reported_and_survived() {
    let w = worker();
    let reason = "No such file or directory (os error 2)".to_string();
    let failed = w.step(RUNNING, WorkerEvent::SpawnFailed(reason));
    assert_eq!(
        failed,
        Step {
            state: WorkerState::Idle,
            action: WorkerAction::Receive,
            logs: vec!["An error occured: No such file or directory (os error 2)".to_string()],
            notification: Some(note(":umbrella: site-all deployed failed.")),
        }
    );
    let again = w.step(failed.state, deploy());
    assert_eq!(again.state, WorkerState::Draining);
    let run = w.step(again.state, WorkerEvent::MailboxEmpty);
    assert_eq!(run.action, WorkerAction::Run);
}

#[test]
fn five_requests_make_one_run() {
    let w = worker();
    let mut state = w.start().state;
    let mut runs = 0;
    let mut events = vec![deploy(), deploy(), deploy(), deploy(), deploy(), WorkerEvent::MailboxEmpty];
    events.push(WorkerEvent::Finished(exited(Some(0), None, 1)));
    for event in events {
        let step = w.step(state, event);
        if step.action == WorkerAction::Run {
            runs += 1;
        }
        state = step.state;
    }
    assert_eq!(runs, 1);
    assert_eq!(state, WorkerState::Idle);
}

#[test]
fn two_bursts_make_two_runs() {
    let w = quiet_worker();
    let mut state = WorkerState::Idle;
    let mut runs = 0;
    let events = vec![
        deploy(),
        deploy(),
        WorkerEvent::MailboxEmpty,
        WorkerEvent::Finished(exited(Some(1), None, 1)),
        deploy(),
        WorkerEvent::MailboxEmpty,
        WorkerEvent::SpawnFailed("gone".to_string()),
    ];
    for event in events {
        let step = w.step(state, event);
        assert_eq!(step.notification, None);
        if step.action == WorkerAction::Run {
            runs += 1;
        }
        state = step.state;
    }
    assert_eq!(runs, 2);
    assert_eq!(state, WorkerState::Idle);
}

#[test]
fn exit_stops_an_idle_worker() {
    let step = worker().step(WorkerState::Idle, WorkerEvent::Received(DeployMessage::Exit));
    assert_eq!(
        step,
        Step {
            state: WorkerState::Stopped,
            action: WorkerAction::Stop,
            logs: vec!["Stopping deployer.".to_string()],
            notification: None,
        }
    );
}

#[test]
fn a_closed_mailbox_stops_an_idle_worker() {
    let step = worker().step(WorkerState::Idle, WorkerEvent::MailboxClosed);
    assert_eq!(
        step,
        Step {
            state: WorkerState::Stopped,
            action: WorkerAction::Stop,
            logs: vec![
                "Error: receiving on a closed channel".to_string(),
                "Stopping deployer.".to_string()
            ],
            notification: None,
        }
    );
}

#[test]
fn exit_found_while_draining_lets_the_run_in_hand_finish() {
    let w = worker();
    let run = w.step(WorkerState::Draining, WorkerEvent::Received(DeployMessage::Exit));
    assert_eq!(run.state, LAST_RUN);
    assert_eq!(run.action, WorkerAction::Run);
    assert_eq!(run.notification, Some(note("Starting Deploy for site-all.")));
    let end = w.step(run.state, WorkerEvent::Finished(exited(Some(0), None, 5)));
    assert_eq!(
        end,
        Step {
            state: WorkerState::Stopped,
            action: WorkerAction::Stop,
            logs: vec![
                ":sunny: site-all deployed successfully in 5s.".to_string(),
                "Stopping deployer.".to_string()
            ],
            notification: Some(note(":sunny: site-all deployed successfully in 5s.")),
        }
    );
}

#[test]
fn a_last_run_that_cannot_start_still_stops_the_worker() {
    let end = worker().step(LAST_RUN, WorkerEvent::SpawnFailed("gone".to_string()));
    assert_eq!(end.state, WorkerState::Stopped);
    assert_eq!(end.action, WorkerAction::Stop);
    assert_eq!(end.logs, vec!["An error occured: gone".to_string(), "Stopping deployer.".to_string()]);
}

#[test]
fn a_stopped_worker_takes_nothing() {
    let w = worker();
    let events = vec![
        deploy(),
        WorkerEvent::Received(DeployMessage::Exit),
        WorkerEvent::MailboxEmpty,
        WorkerEvent::MailboxClosed,
        WorkerEvent::Finished(exited(Some(0), None, 1)),
        WorkerEvent::SpawnFailed("gone".to_string()),
    ];
    for event in events {
        assert_eq!(
            w.step(WorkerState::Stopped, event),
            Step { state: WorkerState::Stopped, action: WorkerAction::Stop, logs: vec![], notification: None }
        );
    }
}

#[test]
fn events_that_answer_nothing_are_waited_out() {
    let w = worker();
    let quiet = |state: WorkerState, event: WorkerEvent| {
        assert_eq!(
            w.step(state, event),
            Step { state, action: WorkerAction::Wait, logs: vec![], notification: None }
        );
    };
    quiet(WorkerState::Idle, WorkerEvent::MailboxEmpty);
    quiet(WorkerState::Idle, WorkerEvent::Finished(exited(Some(0), None, 1)));
    quiet(WorkerState::Idle, WorkerEvent::SpawnFailed("gone".to_string()));
    quiet(WorkerState::Draining, WorkerEvent::Finished(exited(Some(0), None, 1)));
    quiet(WorkerState::Draining, WorkerEvent::SpawnFailed("gone".to_string()));
    quiet(RUNNING, deploy());
    quiet(RUNNING, WorkerEvent::Received(DeployMessage::Exit));
    quiet(RUNNING, WorkerEvent::MailboxEmpty);
    quiet(LAST_RUN, WorkerEvent::MailboxClosed);
}

#[test]
fn event_kinds() {
    assert_eq!(deploy().kind(), EventKind::Deploy);
    assert_eq!(WorkerEvent::Received(DeployMessage::Exit).kind(), EventKind::Exit);
    assert_eq!(WorkerEvent::MailboxEmpty.kind(), EventKind::Empty);
    assert_eq!(WorkerEvent::MailboxClosed.kind(), EventKind::Closed);
    assert_eq!(WorkerEvent::Finished(exited(Some(0), None, 1)).kind(), EventKind::Finished);
    assert_eq!(WorkerEvent::SpawnFailed("x".to_string()).kind(), EventKind::SpawnFailed);
}

#[test]
fn the_transition_table() {
    assert_eq!(next(WorkerState::Idle, EventKind::Deploy), (WorkerState::Draining, WorkerAction::Poll));
    assert_eq!(next(WorkerState::Idle, EventKind::Exit), (WorkerState::Stopped, WorkerAction::Stop));
    assert_eq!(next(WorkerState::Draining, EventKind::Empty), (RUNNING, WorkerAction::Run));
    assert_eq!(next(WorkerState::Draining, EventKind::Exit), (LAST_RUN, WorkerAction::Run));
    assert_eq!(next(RUNNING, EventKind::Finished), (WorkerState::Idle, WorkerAction::Receive));
    assert_eq!(next(LAST_RUN, EventKind::Finished), (WorkerState::Stopped, WorkerAction::Stop));
    assert_eq!(next(RUNNING, EventKind::Deploy), (RUNNING, WorkerAction::Wait));
}

#[test]
fn outcome_texts() {
    let w = worker();
    assert_eq!(w.outcome_log(&exited(Some(0), None, 61)), ":sunny: site-all deployed successfully in 61s.");
    assert_eq!(w.outcome_message(&exited(Some(0), None, 61)), ":sunny: site-all deployed successfully in 61s.");
    assert_eq!(w.outcome_log(&exited(Some(255), None, 61)), "Deploy failed with status 255.");
    assert_eq!(w.outcome_message(&exited(Some(255), None, 61)), ":umbrella: site-all deployed failed.");
    assert_eq!(w.outcome_log(&exited(None, Some(9), 61)), "Deploy was interrupted with signal 9.");
    assert_eq!(w.outcome_message(&exited(None, Some(9), 61)), ":umbrella: site-all deployed failed.");
}

#[test]
fn a_copy_of_a_message_is_the_message() {
    let message = DeployMessage::Deploy(target());
    assert_eq!(message.clone(), message);
    assert_eq!(DeployMessage::Exit.clone(), DeployMessage::Exit);
}

#[test]
fn a_notification_carries_the_channel_settings() {
    assert_eq!(Notification::new(&slack(), "hi".to_string()), note("hi"));
}

#[test]
fn two_workers_run_side_by_side() {
    let site = worker();
    let api = Deployer::new(
        &HookConfig { name: "api".to_string(), branch: None, action: target().action },
        &None,
    );
    let site_draining = site.step(WorkerState::Idle, deploy());
    let site_running = site.step(site_draining.state, WorkerEvent::MailboxEmpty);
    assert_eq!(site_running.action, WorkerAction::Run);
    let api_draining = api.step(WorkerState::Idle, deploy());
    let api_running = api.step(api_draining.state, WorkerEvent::MailboxEmpty);
    assert_eq!(api_running.action, WorkerAction::Run);
    assert_eq!(site_running.state, RUNNING);
    assert_eq!(api_running.state, RUNNING);
}
