use config_installer::json::Json;
use config_installer::settings::merge_json_values;
use config_installer::settings::merge_settings_json;

fn parse(text: &str) -> Json {
    Json::parse(text).unwrap()
}

#[test]
fn merge_adds_hooks_and_keeps_other_keys() {
    let source = r#"{"hooks":{"UserPromptSubmit":[{"hooks":[{"type":"command","command":"~/.config/hooks/a"}]}]}}"#;
    let dest = r#"{"outputStyle":"default"}"#;
    let merged = merge_settings_json(source, Some(dest)).unwrap();
    let expected = parse(
        r#"{"outputStyle":"default","hooks":{"UserPromptSubmit":[{"hooks":[{"type":"command","command":"~/.config/hooks/a"}]}]}}"#,
    );
    assert!(parse(&merged).equals(&expected));
    assert!(merged.contains("\"outputStyle\": \"default\""));
    assert!(merged.contains("\"UserPromptSubmit\": ["));
}

#[test]
fn merge_twice_is_merge_once() {
    let source = parse(r#"{"hooks":{"Stop":[{"hooks":[{"type":"command","command":"x"}]}]},"a":{"b":1}}"#);
    let dest = parse(r#"{"hooks":{"Stop":[{"hooks":[{"type":"command","command":"y"}]}]},"a":{"c":2.5}}"#);
    let once = merge_json_values(&dest, &source);
    let twice = merge_json_values(&once, &source);
    assert!(once.equals(&twice));
    let expected = parse(
        r#"{"a":{"b":1,"c":2.5},"hooks":{"Stop":[{"hooks":[{"type":"command","command":"y"}]},{"hooks":[{"type":"command","command":"x"}]}]}}"#,
    );
    assert!(once.equals(&expected));
}
