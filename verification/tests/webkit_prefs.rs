use lemonkee::webkit_prefs::{apply, block_network, disabled_features};

#[test]
fn features_to_disable() {
    assert_eq!(disabled_features(None), vec!["AsyncOverflowScrollingEnabled"]);
    assert_eq!(disabled_features(Some("A,B".to_string())), vec!["A", "B"]);
    assert_eq!(disabled_features(Some(String::new())), vec![""]);
    let list = disabled_features(Some("A,B".to_string()));
    assert!(apply(&list, "B"));
    assert!(!apply(&list, "b"));
}

#[test]
fn rules_for_the_network() {
    let rules = concat_rules("");
    assert_eq!(block_network(false), rules);
    let dev = r#",{"trigger":{"url-filter":"^http://localhost:8085/"},"action":{"type":"ignore-previous-rules"}}"#;
    assert_eq!(block_network(true), concat_rules(dev));
    let parsed: serde_json::Value = serde_json::from_str(&block_network(true)).unwrap();
    assert_eq!(parsed.as_array().unwrap().len(), 4);
    assert_eq!(parsed[0]["action"]["type"], "block");
    assert_eq!(parsed[2]["trigger"]["url-filter"], "^http://ipc\\.localhost/");
}

fn concat_rules(dev: &str) -> String {
    format!(
        r#"[{{"trigger":{{"url-filter":".*"}},"action":{{"type":"block"}}}},{{"trigger":{{"url-filter":"^tauri://localhost/"}},"action":{{"type":"ignore-previous-rules"}}}},{{"trigger":{{"url-filter":"^http://ipc\\.localhost/"}},"action":{{"type":"ignore-previous-rules"}}}}{dev}]"#
    )
}
