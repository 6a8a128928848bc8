use mqtt_nexus::models::AiConfig;
use mqtt_nexus::payload::{
    extract_json_candidate, merge_config, normalize_response_to_json, prepare_generation,
    strip_markdown_fences, validate_base_url,
};

fn cfg(url: Option<&str>, key: Option<&str>, model: Option<&str>) -> AiConfig {
    AiConfig { base_url: url.map(String::from), api_key: key.map(String::from), model: model.map(String::from) }
}

#[test]
fn options_override_defaults() {
    let d = cfg(Some("http://d"), Some("k"), Some("m"));
    let m = merge_config(&d, &Some(cfg(None, Some("k2"), None)));
    assert_eq!(m.base_url.as_deref(), Some("http://d"));
    assert_eq!(m.api_key.as_deref(), Some("k2"));
    assert_eq!(m.model.as_deref(), Some("m"));
    let same = merge_config(&d, &None);
    assert_eq!(same.api_key.as_deref(), Some("k"));
}

#[test]
fn fences_are_stripped() {
    assert_eq!(strip_markdown_fences("```json\n{\"a\":1}\n```"), "{\"a\":1}");
    assert_eq!(strip_markdown_fences("  plain  "), "plain");
}

#[test]
fn base_url_scheme_is_checked() {
    assert!(validate_base_url("https://api").is_ok());
    assert!(validate_base_url("http://x").is_ok());
    assert_eq!(validate_base_url("ftp://x").unwrap_err(), "AI base URL must start with http:// or https://");
}

#[test]
fn json_candidate_is_found() {
    assert_eq!(extract_json_candidate("Here: {\"a\": [1, 2]} done").as_deref(), Some("{\"a\": [1, 2]}"));
    assert_eq!(extract_json_candidate("x \"{\" [1,{\"b\":\"}\"}] y").as_deref(), Some("[1,{\"b\":\"}\"}]"));
    assert_eq!(extract_json_candidate("no json here"), None);
    assert_eq!(extract_json_candidate("{ unclosed"), None);
}

#[test]
fn replies_become_json_text() {
    assert_eq!(normalize_response_to_json("```json\n{\"t\": 1}\n```").unwrap(), "{\"t\": 1}");
    assert_eq!(normalize_response_to_json("Sure! {\"t\": 2} enjoy").unwrap(), "{\"t\": 2}");
    assert_eq!(normalize_response_to_json("   ").unwrap_err(), "AI returned an empty payload");
    assert_eq!(
        normalize_response_to_json("nothing").unwrap_err(),
        "AI output does not contain a valid JSON object or array"
    );
    assert_eq!(normalize_response_to_json("x {a: 1} y").unwrap_err(), "AI output contains malformed JSON");
}

#[test]
fn generation_request_checks_settings() {
    let d = cfg(Some(" https://api.example "), Some(" key "), Some("gpt"));
    let g = prepare_generation(" sensors/t ", "temperature", &d, &None).unwrap();
    assert_eq!(g.api_key, "key");
    assert_eq!(g.base_url, "https://api.example");
    assert_eq!(g.model, "gpt");
    assert_eq!(
        g.prompt,
        "You are an MQTT payload generator. Topic: \"sensors/t\". Description: \"temperature\". Return only valid JSON with no markdown fences."
    );
    assert_eq!(prepare_generation("  ", "", &d, &None).unwrap_err(), "Topic is required for AI generation");
    assert_eq!(prepare_generation("t", "", &cfg(Some("https://a"), None, Some("m")), &None).unwrap_err(), "AI API key is missing");
    assert_eq!(prepare_generation("t", "", &cfg(None, Some("k"), Some("m")), &None).unwrap_err(), "AI base URL is missing");
    assert_eq!(
        prepare_generation("t", "", &cfg(Some("api"), Some("k"), Some("m")), &None).unwrap_err(),
        "AI base URL must start with http:// or https://"
    );
    assert_eq!(prepare_generation("t", "", &cfg(Some("https://a"), Some("k"), Some(" ")), &None).unwrap_err(), "AI model is missing");
}

#[test]
fn clock_reads_the_time() {
    assert!(mqtt_nexus::now_millis() > 1_600_000_000_000);
}
