use config_installer::component::HookConfig;
use config_installer::json::Json;
use config_installer::json::JsonNumber;
use config_installer::platform::Platform;
use config_installer::settings::make_registration;
use config_installer::settings::merge_hooks;
use config_installer::settings::merge_json_values;
use config_installer::settings::merge_settings_json;
use config_installer::settings::register_hook;
use config_installer::settings::register_hook_in_settings;
use config_installer::settings::set_output_style;
use config_installer::settings::set_statusline;
use config_installer::settings::SettingsError;

fn parse(text: &str) -> Json {
    Json::parse(text).unwrap()
}

fn same(a: &Json, text: &str) -> bool {
    a.equals(&parse(text))
}

fn hook(name: &str, event: &str, timeout: Option<u32>) -> HookConfig {
    HookConfig {
        name: name.to_string(),
        event: event.to_string(),
        hook_type: "command".to_string(),
        timeout,
    }
}

#[test]
fn merge_overwrites_scalars_and_mismatched_types() {
    let dest = parse(r#"{"a":1,"b":{"x":1},"c":[1,2],"keep":true}"#);
    let source = parse(r#"{"a":2,"b":"text","c":[3],"d":null}"#);
    let merged = merge_json_values(&dest, &source);
    assert!(same(&merged, r#"{"a":2,"b":"text","c":[3],"d":null,"keep":true}"#));
}

#[test]
fn merge_of_non_objects_takes_the_source() {
    assert!(same(&merge_json_values(&parse("[1]"), &parse(r#"{"a":1}"#)), r#"{"a":1}"#));
    assert!(same(&merge_json_values(&parse(r#"{"a":1}"#), &parse("7")), "7"));
}

#[test]
fn merge_recurses_into_nested_objects() {
    let dest = parse(r#"{"env":{"A":"1","B":"2"},"n":{"m":{"k":1}}}"#);
    let source = parse(r#"{"env":{"B":"3","C":"4"},"n":{"m":{"j":2}}}"#);
    let merged = merge_json_values(&dest, &source);
    assert!(same(&merged, r#"{"env":{"A":"1","B":"3","C":"4"},"n":{"m":{"k":1,"j":2}}}"#));
}

#[test]
fn hooks_union_appends_only_new_entries() {
    let dest = parse(r#"{"Stop":[{"c":"a"},{"c":"b"}],"Other":[1],"Odd":"text"}"#);
    let source = parse(r#"{"Stop":[{"c":"b"},{"c":"c"},{"c":"c"}],"New":[2],"Odd":[3],"Other":5}"#);
    let merged = merge_hooks(&dest, &source);
    assert!(same(
        &merged,
        r#"{"Stop":[{"c":"a"},{"c":"b"},{"c":"c"}],"Other":[1],"Odd":"text","New":[2]}"#
    ));
    let again = merge_hooks(&merged, &source);
    assert!(again.equals(&merged));
}

#[test]
fn hooks_union_compares_entries_by_value() {
    let dest = parse(r#"{"E":[{"x":1,"y":[true,null]}]}"#);
    let source = parse(r#"{"E":[{"y":[true,null],"x":1},{"y":[null,true],"x":1}]}"#);
    let merged = merge_hooks(&dest, &source);
    assert!(same(&merged, r#"{"E":[{"x":1,"y":[true,null]},{"x":1,"y":[null,true]}]}"#));
}

#[test]
fn hooks_sections_that_are_not_objects_stay() {
    assert!(same(&merge_hooks(&parse("[1]"), &parse(r#"{"E":[1]}"#)), "[1]"));
    assert!(same(&merge_hooks(&parse(r#"{"E":[1]}"#), &parse("3")), r#"{"E":[1]}"#));
}

#[test]
fn merge_uses_the_union_under_the_hooks_key_at_any_level() {
    let dest = parse(r#"{"hooks":{"E":[1]},"in":{"hooks":{"E":[1]}}}"#);
    let source = parse(r#"{"hooks":{"E":[1,2]},"in":{"hooks":{"E":[2]}}}"#);
    let merged = merge_json_values(&dest, &source);
    assert!(same(&merged, r#"{"hooks":{"E":[1,2]},"in":{"hooks":{"E":[1,2]}}}"#));
}

#[test]
fn merge_settings_without_destination_writes_the_source() {
    let text = merge_settings_json(r#"{"b":1,"a":[true]}"#, None).unwrap();
    assert_eq!(text, "{\n  \"a\": [\n    true\n  ],\n  \"b\": 1\n}");
}

#[test]
fn merge_settings_rejects_bad_json() {
    assert!(matches!(merge_settings_json("{", None), Err(SettingsError::Parse(_))));
    assert!(matches!(merge_settings_json("{}", Some("nope")), Err(SettingsError::Parse(_))));
    assert!(matches!(merge_settings_json("{", Some("{}")), Err(SettingsError::Parse(_))));
}

#[test]
fn merge_settings_writes_indented_text() {
    let text = merge_settings_json(r#"{"z":-3,"f":1.5}"#, Some(r#"{"k":"v"}"#)).unwrap();
    assert_eq!(text, "{\n  \"f\": 1.5,\n  \"k\": \"v\",\n  \"z\": -3\n}");
}

#[test]
fn registration_has_type_command_and_timeout() {
    let with = make_registration("command", "~/.tool/hooks/h", Some(30));
    assert!(same(&with, r#"{"hooks":[{"type":"command","command":"~/.tool/hooks/h","timeout":30}]}"#));
    let without = make_registration("command", "run", None);
    assert!(same(&without, r#"{"hooks":[{"type":"command","command":"run"}]}"#));
}

#[test]
fn register_hook_creates_section_and_event() {
    let cfg = hook("guide", "UserPromptSubmit", Some(5));
    let out = register_hook(&parse(r#"{"other":1}"#), "~/.tool/hooks/guide_linux", &cfg).unwrap();
    assert!(same(
        &out,
        r#"{"other":1,"hooks":{"UserPromptSubmit":[{"hooks":[{"type":"command","command":"~/.tool/hooks/guide_linux","timeout":5}]}]}}"#
    ));
}

#[test]
fn register_hook_twice_adds_one_entry() {
    let cfg = hook("guide", "Stop", None);
    let once = register_hook(&parse("{}"), "~/.tool/hooks/guide", &cfg).unwrap();
    let twice = register_hook(&once, "~/.tool/hooks/guide", &cfg).unwrap();
    assert!(once.equals(&twice));
    assert!(same(&twice, r#"{"hooks":{"Stop":[{"hooks":[{"type":"command","command":"~/.tool/hooks/guide"}]}]}}"#));
}

#[test]
fn register_hook_matches_the_name_as_a_substring() {
    let existing = parse(r#"{"hooks":{"Stop":[{"hooks":[{"type":"command","command":"/x/my-guide-2"}]}]}}"#);
    let out = register_hook(&existing, "~/.tool/hooks/guide", &hook("guide", "Stop", None)).unwrap();
    assert!(out.equals(&existing));
}

#[test]
fn register_hook_keeps_entries_of_others() {
    let existing = parse(r#"{"hooks":{"Stop":[{"hooks":[{"type":"command","command":"/x/other"}]},{"matcher":"*"}],"Start":3}}"#);
    let out = register_hook(&existing, "run-hook", &hook("hook", "Stop", None)).unwrap();
    assert!(same(
        &out,
        r#"{"hooks":{"Stop":[{"hooks":[{"type":"command","command":"/x/other"}]},{"matcher":"*"},{"hooks":[{"type":"command","command":"run-hook"}]}],"Start":3}}"#
    ));
}

#[test]
fn register_hook_leaves_an_event_that_is_no_list() {
    let existing = parse(r#"{"hooks":{"Stop":"text"}}"#);
    let out = register_hook(&existing, "cmd-h", &hook("h", "Stop", None)).unwrap();
    assert!(out.equals(&existing));
}

#[test]
fn register_hook_treats_null_as_empty() {
    let out = register_hook(&parse("null"), "c-h", &hook("h", "E", None)).unwrap();
    assert!(same(&out, r#"{"hooks":{"E":[{"hooks":[{"type":"command","command":"c-h"}]}]}}"#));
    let out = register_hook(&parse(r#"{"hooks":null}"#), "c-h", &hook("h", "E", None)).unwrap();
    assert!(same(&out, r#"{"hooks":{"E":[{"hooks":[{"type":"command","command":"c-h"}]}]}}"#));
}

#[test]
fn register_hook_refuses_what_is_no_object() {
    let cfg = hook("h", "E", None);
    assert!(matches!(register_hook(&parse("[1]"), "c", &cfg), Err(SettingsError::NotAnObject)));
    assert!(matches!(
        register_hook(&parse(r#"{"hooks":[1]}"#), "c", &cfg),
        Err(SettingsError::NotAnObject)
    ));
}

#[test]
fn register_hook_in_settings_reads_and_writes_text() {
    let cfg = hook("h", "E", None);
    let text = register_hook_in_settings(None, "run-h", &cfg).unwrap();
    assert!(same(&parse(&text), r#"{"hooks":{"E":[{"hooks":[{"type":"command","command":"run-h"}]}]}}"#));
    let again = register_hook_in_settings(Some(&text), "run-h", &cfg).unwrap();
    assert_eq!(again, text);
    assert!(matches!(
        register_hook_in_settings(Some("not json"), "run-h", &cfg),
        Err(SettingsError::Parse(_))
    ));
    assert!(matches!(
        register_hook_in_settings(Some("3"), "run-h", &cfg),
        Err(SettingsError::NotAnObject)
    ));
}

#[test]
fn output_style_is_written_last_wins() {
    let text = set_output_style(Some(r#"{"outputStyle":"old","x":1}"#), "new").unwrap();
    assert_eq!(text, "{\n  \"outputStyle\": \"new\",\n  \"x\": 1\n}");
    let text = set_output_style(None, "first").unwrap();
    assert_eq!(text, "{\n  \"outputStyle\": \"first\"\n}");
    assert!(matches!(set_output_style(Some("[]"), "s"), Err(SettingsError::NotAnObject)));
    assert!(matches!(set_output_style(Some("{"), "s"), Err(SettingsError::Parse(_))));
}

#[test]
fn statusline_is_a_command_without_padding() {
    let text = set_statusline(Some(r#"{"a":1}"#), "~/.tool", "/home/u/.tool", "line.sh", Platform::Linux).unwrap();
    assert!(same(
        &parse(&text),
        r#"{"a":1,"statusLine":{"type":"command","command":"~/.tool/statusline/line.sh","padding":0}}"#
    ));
    let mac = set_statusline(None, "~/.tool", "/d", "s", Platform::MacOs).unwrap();
    assert!(same(&parse(&mac), r#"{"statusLine":{"type":"command","command":"~/.tool/statusline/s","padding":0}}"#));
}

#[test]
fn json_equality_ignores_member_order_and_number_form() {
    assert!(parse(r#"{"a":1,"b":[1,2]}"#).equals(&parse(r#"{"b":[1,2],"a":1}"#)));
    assert!(!parse(r#"{"a":1}"#).equals(&parse(r#"{"a":1,"b":2}"#)));
    assert!(!parse("[1,2]").equals(&parse("[2,1]")));
    assert!(!parse("1").equals(&parse("1.0")));
    assert!(Json::Number(JsonNumber::Unsigned(5)).equals(&Json::Number(JsonNumber::Signed(5))));
    assert!(!Json::Number(JsonNumber::Signed(-5)).equals(&Json::Number(JsonNumber::Unsigned(5))));
    assert!(parse("18446744073709551615").equals(&Json::Number(JsonNumber::Unsigned(u64::MAX))));
    assert!(parse("-7").equals(&Json::Number(JsonNumber::Signed(-7))));
}

#[test]
fn json_members_can_be_set_and_read() {
    let doc = Json::empty_object();
    let doc = doc.with_member(&"k".to_string(), Json::Bool(true));
    let doc = doc.with_member(&"k".to_string(), Json::Null);
    let doc = doc.with_member(&"m".to_string(), Json::Text("t".to_string()));
    assert!(same(&doc, r#"{"k":null,"m":"t"}"#));
    assert!(doc.get(&"m".to_string()).unwrap().equals(&parse("\"t\"")));
    assert!(doc.get(&"zz".to_string()).is_none());
    assert!(parse("[1]").get(&"k".to_string()).is_none());
    assert!(doc.deep_clone().equals(&doc));
    assert_eq!(doc.render(), "{\n  \"k\": null,\n  \"m\": \"t\"\n}");
}

#[test]
fn json_parse_reports_errors() {
    assert!(Json::parse("{\"a\":}").is_err());
    assert!(Json::parse("").is_err());
    assert!(Json::parse(" [ ] ").unwrap().equals(&Json::Array(Vec::new())));
}

#[test]
fn well_formed_documents_list_each_key_once() {
    assert!(parse(r#"{"a":[{"b":1,"c":2}]}"#).is_well_formed());
    let twice = Json::Object(vec![("k".to_string(), Json::Null), ("k".to_string(), Json::Bool(true))]);
    assert!(!twice.is_well_formed());
    assert!(!Json::Array(vec![Json::Null, twice]).is_well_formed());
    let nested = Json::Object(vec![(
        "o".to_string(),
        Json::Object(vec![("k".to_string(), Json::Null), ("l".to_string(), Json::Null), ("k".to_string(), Json::Null)]),
    )]);
    assert!(!nested.is_well_formed());
}
