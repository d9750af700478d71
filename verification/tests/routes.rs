use webhook_relay::config::{Config, ServerConfig, WebhookConfig};
use webhook_relay::route::{ConfigError, RouteError, RouteTable, WebhookRoute};

fn webhook(name: &str, path: &str, url: &str, logging: Option<bool>) -> WebhookConfig {
    WebhookConfig { name: name.to_string(), path: path.to_string(), url: url.to_string(), logging }
}

fn config(webhooks: Vec<WebhookConfig>) -> Config {
    Config {
        server: ServerConfig { port: "8080".to_string(), host: "0.0.0.0".to_string() },
        discord: webhooks,
    }
}

#[test]
fn route_keeps_what_it_was_made_with() {
    let route = WebhookRoute::new(
        "alerts".to_string(),
        "/alerts".to_string(),
        "https://hook.example/x".to_string(),
        true,
    )
    .unwrap();
    assert_eq!(route.name(), "alerts");
    assert_eq!(route.path(), "/alerts");
    assert_eq!(route.target_url(), "https://hook.example/x");
    assert!(route.logging_enabled());
}

#[test]
fn route_needs_a_leading_slash() {
    let made = WebhookRoute::new("a".to_string(), "alerts".to_string(), "https://hook.example/x".to_string(), false);
    assert_eq!(made.err(), Some(RouteError::PathWithoutSlash));
}

#[test]
fn route_needs_a_path() {
    let made = WebhookRoute::new("a".to_string(), "".to_string(), "https://hook.example/x".to_string(), false);
    assert_eq!(made.err(), Some(RouteError::PathWithoutSlash));
}

#[test]
fn route_needs_a_target() {
    let made = WebhookRoute::new("a".to_string(), "/alerts".to_string(), "".to_string(), false);
    assert_eq!(made.err(), Some(RouteError::EmptyTarget));
}

#[test]
fn route_path_is_judged_before_the_target() {
    let made = WebhookRoute::new("a".to_string(), "alerts".to_string(), "".to_string(), false);
    assert_eq!(made.err(), Some(RouteError::PathWithoutSlash));
}

#[test]
fn route_path_may_be_the_slash_alone() {
    let route =
        WebhookRoute::new("root".to_string(), "/".to_string(), "http://hook.example".to_string(), false)
            .unwrap();
    assert_eq!(route.path(), "/");
}

#[test]
fn route_from_config_takes_logging_as_off_where_left_out() {
    let off = WebhookRoute::from_config(&webhook("a", "/a", "https://hook.example/a", None)).unwrap();
    assert!(!off.logging_enabled());
    let also_off = WebhookRoute::from_config(&webhook("a", "/a", "https://hook.example/a", Some(false))).unwrap();
    assert!(!also_off.logging_enabled());
    let on = WebhookRoute::from_config(&webhook("a", "/a", "https://hook.example/a", Some(true))).unwrap();
    assert!(on.logging_enabled());
    assert_eq!(on.name(), "a");
    assert_eq!(on.path(), "/a");
    assert_eq!(on.target_url(), "https://hook.example/a");
}

#[test]
fn table_keeps_the_order_of_the_configuration() {
    let table = RouteTable::from_config(&config(vec![
        webhook("one", "/one", "https://hook.example/1", None),
        webhook("two", "/two", "https://hook.example/2", Some(true)),
        webhook("three", "/three", "https://hook.example/3", Some(false)),
    ]))
    .unwrap();
    assert_eq!(table.len(), 3);
    assert_eq!(table.get(0).unwrap().name(), "one");
    assert_eq!(table.get(1).unwrap().name(), "two");
    assert!(table.get(1).unwrap().logging_enabled());
    assert_eq!(table.get(2).unwrap().target_url(), "https://hook.example/3");
    assert!(table.get(3).is_none());
}

#[test]
fn table_of_no_webhooks_is_empty() {
    let table = RouteTable::from_config(&config(vec![])).unwrap();
    assert_eq!(table.len(), 0);
    assert!(table.get(0).is_none());
    assert!(table.lookup("alerts").is_none());
}

#[test]
fn table_fails_on_the_first_bad_webhook() {
    let made = RouteTable::from_config(&config(vec![
        webhook("one", "/one", "https://hook.example/1", None),
        webhook("two", "/two", "", None),
        webhook("three", "three", "https://hook.example/3", None),
    ]));
    assert_eq!(made.err(), Some(ConfigError { index: 1, fault: RouteError::EmptyTarget }));
}

#[test]
fn table_says_which_webhook_has_no_slash() {
    let made = RouteTable::from_config(&config(vec![webhook("one", "one", "https://hook.example/1", None)]));
    assert_eq!(made.err(), Some(ConfigError { index: 0, fault: RouteError::PathWithoutSlash }));
}

#[test]
fn lookup_adds_the_leading_slash() {
    let table = RouteTable::from_config(&config(vec![
        webhook("alerts", "/alerts", "https://hook.example/x", None),
    ]))
    .unwrap();
    assert_eq!(table.lookup("alerts").unwrap().target_url(), "https://hook.example/x");
    assert!(table.lookup("/alerts").is_none());
    assert!(table.lookup("alert").is_none());
    assert!(table.lookup("alerts/").is_none());
    assert!(table.lookup("Alerts").is_none());
    assert!(table.lookup("").is_none());
}

#[test]
fn lookup_matches_paths_of_several_segments() {
    let table = RouteTable::from_config(&config(vec![
        webhook("deep", "/team/alerts", "https://hook.example/deep", None),
        webhook("root", "/", "https://hook.example/root", None),
    ]))
    .unwrap();
    assert_eq!(table.lookup("team/alerts").unwrap().name(), "deep");
    assert_eq!(table.lookup("").unwrap().name(), "root");
    assert!(table.lookup("team").is_none());
}

#[test]
fn lookup_finds_the_first_of_two_routes_with_one_path() {
    let table = RouteTable::from_config(&config(vec![
        webhook("other", "/other", "https://hook.example/o", None),
        webhook("first", "/alerts", "https://hook.example/1", None),
        webhook("second", "/alerts", "https://hook.example/2", Some(true)),
    ]))
    .unwrap();
    let found = table.lookup("alerts").unwrap();
    assert_eq!(found.name(), "first");
    assert_eq!(found.target_url(), "https://hook.example/1");
    assert!(!found.logging_enabled());
}

#[test]
fn lookup_of_an_unknown_path_finds_nothing() {
    let table = RouteTable::from_config(&config(vec![
        webhook("alerts", "/alerts", "https://hook.example/x", None),
    ]))
    .unwrap();
    assert!(table.lookup("unknown").is_none());
}

#[test]
fn first_shadowed_is_none_where_every_path_is_its_own() {
    let table = RouteTable::from_config(&config(vec![
        webhook("one", "/one", "https://hook.example/1", None),
        webhook("two", "/two", "https://hook.example/2", None),
    ]))
    .unwrap();
    assert_eq!(table.first_shadowed(), None);
    assert_eq!(RouteTable::from_config(&config(vec![])).unwrap().first_shadowed(), None);
}

#[test]
fn first_shadowed_is_the_first_route_with_an_earlier_path() {
    let table = RouteTable::from_config(&config(vec![
        webhook("a", "/a", "https://hook.example/1", None),
        webhook("b", "/b", "https://hook.example/2", None),
        webhook("b again", "/b", "https://hook.example/3", None),
        webhook("a again", "/a", "https://hook.example/4", None),
    ]))
    .unwrap();
    assert_eq!(table.first_shadowed(), Some(2));
    assert_eq!(table.lookup("b").unwrap().name(), "b");
    assert_eq!(table.lookup("a").unwrap().name(), "a");
}

#[test]
fn first_shadowed_compares_whole_paths() {
    let table = RouteTable::from_config(&config(vec![
        webhook("a", "/a", "https://hook.example/1", None),
        webhook("ab", "/ab", "https://hook.example/2", None),
        webhook("upper", "/A", "https://hook.example/3", None),
        webhook("same target", "/c", "https://hook.example/1", None),
    ]))
    .unwrap();
    assert_eq!(table.first_shadowed(), None);
}

#[test]
fn route_needs_a_target_that_is_a_url() {
    for target in ["x", "not a url", "hook.example/x", "/relative/path", "https://", "://hook.example", "http://[::1"] {
        let made = WebhookRoute::new("a".to_string(), "/alerts".to_string(), target.to_string(), false);
        assert_eq!(made.err(), Some(RouteError::TargetNotUrl), "{}", target);
    }
}

#[test]
fn route_takes_every_absolute_url() {
    for target in [
        "https://hook.example/x",
        "http://hook.example",
        "http://127.0.0.1:8080/webhook?wait=true",
        "https://discord.com/api/webhooks/1/abc",
        "HTTPS://Hook.Example/X",
        "https://hook.example/x y",
    ] {
        let route = WebhookRoute::new("a".to_string(), "/alerts".to_string(), target.to_string(), false).unwrap();
        assert_eq!(route.target_url(), target);
    }
}

#[test]
fn route_path_is_judged_before_the_url() {
    let made = WebhookRoute::new("a".to_string(), "alerts".to_string(), "x".to_string(), false);
    assert_eq!(made.err(), Some(RouteError::PathWithoutSlash));
}

#[test]
fn fault_goes_by_path_then_target_then_url() {
    assert_eq!(WebhookRoute::fault("/a", "https://hook.example/x", true), None);
    assert_eq!(WebhookRoute::fault("/a", "x", false), Some(RouteError::TargetNotUrl));
    assert_eq!(WebhookRoute::fault("/a", "", false), Some(RouteError::EmptyTarget));
    assert_eq!(WebhookRoute::fault("/a", "", true), Some(RouteError::EmptyTarget));
    assert_eq!(WebhookRoute::fault("a", "x", false), Some(RouteError::PathWithoutSlash));
    assert_eq!(WebhookRoute::fault("", "https://hook.example/x", true), Some(RouteError::PathWithoutSlash));
    assert_eq!(WebhookRoute::fault("a/", "", false), Some(RouteError::PathWithoutSlash));
    assert_eq!(WebhookRoute::fault("/", "u", true), None);
}

#[test]
fn table_says_which_webhook_has_no_url() {
    let made = RouteTable::from_config(&config(vec![
        webhook("one", "/one", "https://hook.example/1", None),
        webhook("two", "/two", "hook.example/2", None),
        webhook("three", "/three", "", None),
    ]));
    assert_eq!(made.err(), Some(ConfigError { index: 1, fault: RouteError::TargetNotUrl }));
}
