use deploy_dispatcher::deployer::{DeployMessage, Deployer};
use deploy_dispatcher::dispatcher::{send_failure, ConfigError, Dispatcher, Routing};
use deploy_dispatcher::git_hook::Trigger;
use deploy_dispatcher::hook_configuration::{
    HookAction, HookConfig, HookConfiguration, SlackConfiguration,
};

fn target(name: &str, branch: Option<&str>) -> HookConfig {
    HookConfig {
        name: name.to_string(),
        branch: branch.map(|b| b.to_string()),
        action: HookAction {
            cmd: format!("/opt/{}/deploy.sh", name),
            parms: vec![],
            pwd: format!("/opt/{}", name),
        },
    }
}

fn trigger(repository: &str, branch: Option<&str>) -> Trigger {
    Trigger { repository: repository.to_string(), branch: branch.map(|b| b.to_string()) }
}

fn slack() -> SlackConfiguration {
    SlackConfiguration {
        webhook_url: "https://hooks.example/T0/B0".to_string(),
        channel: "#deploys".to_string(),
        username: "deployer".to_string(),
        icon_url: None,
        icon_emoji: None,
    }
}

fn dispatcher() -> Dispatcher {
    Dispatcher {
        config: HookConfiguration {
            hooks: vec![target("api", Some("master")), target("site", None), target("api", None)],
            slack: Some(slack()),
        },
    }
}

#[test]
fn the_dispatcher_has_a_name() {
    assert_eq!(dispatcher().name(), "dispatcher");
    assert_eq!(
        dispatcher().log("2016-03-09 10:00:00.000", "Starting dispatcher."),
        "[2016-03-09 10:00:00.000][dispatcher][system] Starting dispatcher."
    );
}

#[test]
fn start_builds_one_worker_for_each_target() {
    let (table, workers) = dispatcher().start().unwrap();
    assert_eq!(table.len(), 3);
    let names: Vec<&str> = workers.iter().map(|w| w.name.as_str()).collect();
    assert_eq!(names, vec!["api-master", "site-all", "api-all"]);
    assert_eq!(workers[1], Deployer::new(&target("site", None), &Some(slack())));
    assert_eq!(table.slot(&"api-master".to_string()), Some(0));
    assert_eq!(table.slot(&"site-all".to_string()), Some(1));
    assert_eq!(table.slot(&"api-all".to_string()), Some(2));
    assert_eq!(table.slot(&"site-master".to_string()), None);
}

#[test]
fn start_of_an_empty_configuration_builds_nothing() {
    let d = Dispatcher { config: HookConfiguration { hooks: vec![], slack: None } };
    let (table, workers) = d.start().unwrap();
    assert_eq!(table.len(), 0);
    assert!(workers.is_empty());
}

#[test]
fn start_refuses_two_targets_with_one_key() {
    let d = Dispatcher {
        config: HookConfiguration {
            hooks: vec![target("api", None), target("site", None), target("api", None)],
            slack: None,
        },
    };
    let refused = d.start();
    assert_eq!(
        refused,
        Err(ConfigError::DuplicateKey { first: 0, second: 2, key: "api-all".to_string() })
    );
    assert_eq!(
        refused.unwrap_err().describe(),
        "Targets 0 and 2 share the worker key api-all."
    );
}

#[test]
fn a_trigger_goes_to_the_worker_of_the_first_answering_target() {
    let d = dispatcher();
    let (table, _workers) = d.start().unwrap();
    assert_eq!(
        d.dispatch(&table, &trigger("api", Some("master"))),
        Routing::Deliver {
            worker: 0,
            key: "api-master".to_string(),
            message: DeployMessage::Deploy(target("api", Some("master"))),
        }
    );
    assert_eq!(
        d.dispatch(&table, &trigger("api", Some("develop"))),
        Routing::Deliver {
            worker: 2,
            key: "api-all".to_string(),
            message: DeployMessage::Deploy(target("api", None)),
        }
    );
    assert_eq!(
        d.dispatch(&table, &trigger("site", Some("anything"))),
        Routing::Deliver {
            worker: 1,
            key: "site-all".to_string(),
            message: DeployMessage::Deploy(target("site", None)),
        }
    );
}

#[test]
fn triggers_for_different_targets_go_to_different_workers() {
    let d = dispatcher();
    let (table, _workers) = d.start().unwrap();
    let slot = |t: Trigger| match d.dispatch(&table, &t) {
        Routing::Deliver { worker, .. } => worker,
        other => panic!("not delivered: {:?}", other),
    };
    let a = slot(trigger("api", Some("master")));
    let b = slot(trigger("site", Some("master")));
    let c = slot(trigger("api", Some("develop")));
    assert!(a != b && b != c && a != c);
}

#[test]
fn a_trigger_that_no_target_answers_goes_nowhere() {
    let d = dispatcher();
    let (table, _workers) = d.start().unwrap();
    let routing = d.dispatch(&table, &trigger("blog", Some("master")));
    assert_eq!(
        routing,
        Routing::NoTarget { repository: "blog".to_string(), branch: Some("master".to_string()) }
    );
    assert_eq!(routing.log_text(), "No hook for blog/master");
    let bare = d.dispatch(&table, &trigger("blog", None));
    assert_eq!(bare.log_text(), "No hook for blog");
}

#[test]
fn a_message_is_routed_by_the_key_of_its_target() {
    let (table, _workers) = dispatcher().start().unwrap();
    let routing = table.route(DeployMessage::Deploy(target("site", None)));
    assert_eq!(
        routing,
        Routing::Deliver {
            worker: 1,
            key: "site-all".to_string(),
            message: DeployMessage::Deploy(target("site", None)),
        }
    );
    assert_eq!(routing.log_text(), "Want to deploy site-all.");
}

#[test]
fn a_message_for_an_unknown_target_has_no_worker() {
    let (table, _workers) = dispatcher().start().unwrap();
    let routing = table.route(DeployMessage::Deploy(target("site", Some("master"))));
    assert_eq!(routing, Routing::NoWorker { key: "site-master".to_string() });
    assert_eq!(routing.log_text(), "No deployer for site-master.");
}

#[test]
fn the_request_to_stop_is_noted_and_not_routed() {
    let (table, _workers) = dispatcher().start().unwrap();
    let routing = table.route(DeployMessage::Exit);
    assert_eq!(routing, Routing::ExitRequested);
    assert_eq!(routing.log_text(), "We should exit.");
}

#[test]
fn a_failed_send_is_logged() {
    assert_eq!(
        send_failure("site-all", "sending on a closed channel"),
        "Send to deployer site-all failed: sending on a closed channel."
    );
}

#[test]
fn the_dispatcher_says_when_it_starts_and_stops() {
    assert_eq!(Dispatcher::started(), "Starting dispatcher.");
    assert_eq!(Dispatcher::stopped(), "Stopping dispatcher.");
}
