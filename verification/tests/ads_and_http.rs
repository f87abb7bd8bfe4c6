use codex_plus_core::ads::normalize_ad_payload;
use codex_plus_core::http_client::{client_user_agent, vlm_user_agent};
use serde_json::Value;

fn ad(kind: Option<&str>, title: Option<&str>, description: Option<&str>, url: Option<&str>) -> Value {
    let mut raw = serde_json::Map::new();
    for (key, value) in [("type", kind), ("title", title), ("description", description), ("url", url)] {
        if let Some(v) = value {
            raw.insert(key.to_string(), Value::String(v.to_string()));
        }
    }
    Value::Object(raw)
}

#[test]
fn only_complete_sponsor_and_normal_ads_are_shown() {
    let mut payload = serde_json::Map::new();
    payload.insert("version".to_string(), Value::from(3u64));
    payload.insert(
        "ads".to_string(),
        Value::Array(vec![
            ad(Some("sponsor"), Some("A"), Some("d"), Some("https://a")),
            ad(Some("banner"), Some("B"), Some("d"), Some("https://b")),
            ad(Some("normal"), Some("  "), Some("d"), Some("https://c")),
            ad(Some("normal"), Some("D"), Some("d"), None),
            Value::from(7u64),
            ad(Some("normal"), Some("E"), Some("e"), Some("https://e")),
        ]),
    );
    let shown = normalize_ad_payload(&Value::Object(payload));
    assert_eq!(shown.version, 3);
    let titles: Vec<&str> = shown.ads.iter().map(|a| a["title"].as_str().unwrap()).collect();
    assert_eq!(titles, vec!["A", "E"]);
    assert_eq!(shown.ads[1], ad(Some("normal"), Some("E"), Some("e"), Some("https://e")));
}

#[test]
fn missing_version_and_ads_default() {
    let shown = normalize_ad_payload(&Value::Object(serde_json::Map::new()));
    assert_eq!(shown.version, 1);
    assert!(shown.ads.is_empty());
    let text = "{\"version\": -2, \"ads\": {\"a\": 1}}";
    let shown = normalize_ad_payload(&serde_json::from_str::<Value>(text).unwrap());
    assert_eq!(shown.version, 1);
    assert!(shown.ads.is_empty());
    let shown = normalize_ad_payload(&Value::Null);
    assert_eq!(shown.version, 1);
}

#[test]
fn user_agent_is_trimmed_or_defaulted() {
    assert_eq!(client_user_agent("  Codex++/1.2 ", "0.9.0"), "Codex++/1.2");
    assert_eq!(client_user_agent("   ", "0.9.0"), "CodexPlusPlus/0.9.0");
    assert_eq!(vlm_user_agent("0.9.0"), "CodexPlusPlus-VLM/0.9.0");
}
