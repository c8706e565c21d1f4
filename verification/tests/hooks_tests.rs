use config_installer::hooks::compact_suggestion;
use config_installer::hooks::find_matching_agents;
use config_installer::hooks::injection_text;
use config_installer::hooks::keyword_found;
use config_installer::hooks::latest_session;
use config_installer::hooks::with_last_updated;
use config_installer::hooks::next_count;
use config_installer::hooks::split_frontmatter;
use config_installer::hooks::status_line;
use config_installer::hooks::suggestion_message;
use config_installer::hooks::AgentInfo;
use config_installer::hooks::Suggestion;
use config_installer::text::decimal;
use config_installer::text::parse_count;

fn agent(file: &str, keywords: &[&str], content: &str) -> AgentInfo {
    AgentInfo {
        filename: file.to_string(),
        keywords: keywords.iter().map(|k| k.to_string()).collect(),
        content: content.to_string(),
    }
}

#[test]
fn suggestions() {
    assert_eq!(compact_suggestion(49, 50), Suggestion::Nothing);
    assert_eq!(compact_suggestion(50, 50), Suggestion::ThresholdReached);
    assert_eq!(compact_suggestion(75, 50), Suggestion::Checkpoint);
    assert_eq!(compact_suggestion(76, 50), Suggestion::Nothing);
    assert_eq!(compact_suggestion(25, 50), Suggestion::Nothing);
    assert_eq!(compact_suggestion(25, 25), Suggestion::ThresholdReached);
    assert_eq!(compact_suggestion(0, 0), Suggestion::ThresholdReached);
    assert_eq!(compact_suggestion(100, 0), Suggestion::Checkpoint);
    assert_eq!(
        suggestion_message(Suggestion::ThresholdReached, 50, 50),
        Some("50 tool calls reached - consider /compact if transitioning phases".to_string())
    );
    assert_eq!(
        suggestion_message(Suggestion::Checkpoint, 125, 50),
        Some("125 tool calls - good checkpoint for /compact if context is stale".to_string())
    );
    assert_eq!(suggestion_message(Suggestion::Nothing, 1, 50), None);
    assert_eq!(next_count(0), 1);
    assert_eq!(next_count(u32::MAX), u32::MAX);
}

#[test]
fn counts_are_read_and_written_in_decimal() {
    assert_eq!(decimal(0), "0");
    assert_eq!(decimal(7), "7");
    assert_eq!(decimal(1050), "1050");
    assert_eq!(decimal(u32::MAX), "4294967295");
    assert_eq!(parse_count(" 42\n"), 42);
    assert_eq!(parse_count("+7"), 7);
    assert_eq!(parse_count("007"), 7);
    assert_eq!(parse_count("4294967295"), u32::MAX);
    assert_eq!(parse_count("4294967296"), 0);
    assert_eq!(parse_count("99999999999999999999999"), 0);
    assert_eq!(parse_count(""), 0);
    assert_eq!(parse_count("+"), 0);
    assert_eq!(parse_count("-1"), 0);
    assert_eq!(parse_count("1 2"), 0);
    assert_eq!(parse_count("12a"), 0);
    assert_eq!(parse_count("++1"), 0);
}

#[test]
fn status_lines() {
    assert_eq!(status_line(Some("Model X"), Some("proj")), "[Model X] - /proj");
    assert_eq!(status_line(None, None), "[Unknown] - /~");
}

#[test]
fn front_matter_is_split_at_the_dashes() {
    let (front, body) = split_frontmatter("\n ---\nkeywords: [a]\n---\n\n# Title\ntext ").unwrap();
    assert_eq!(front, "\nkeywords: [a]");
    assert_eq!(body, "# Title\ntext ");
    let (front, body) = split_frontmatter("---\n---").unwrap();
    assert_eq!((front.as_str(), body.as_str()), ("", ""));
    let (front, body) = split_frontmatter("---a\n---b\n---c").unwrap();
    assert_eq!((front.as_str(), body.as_str()), ("a", "b\n---c"));
    assert!(split_frontmatter("# no front matter").is_none());
    assert!(split_frontmatter("---\nkeywords: [a]\n").is_none());
    assert!(split_frontmatter("--").is_none());
    assert!(split_frontmatter("").is_none());
    assert!(split_frontmatter("------").is_none());
}

#[test]
fn keywords_match_without_regard_to_case_and_as_plain_text() {
    assert!(keyword_found("please review this", "Review"));
    assert!(keyword_found("use c++ here", "C++"));
    assert!(!keyword_found("use c here", "c++"));
    assert!(keyword_found("a.b", "."));
    assert!(!keyword_found("ab", "."));
    assert!(keyword_found("anything", ""));
}

#[test]
fn agents_are_called_for_once_each() {
    let agents = vec![
        agent("a.md", &["rust", "cargo"], "A"),
        agent("b.md", &["python"], "B"),
        agent("a.md", &["cargo"], "A2"),
        agent("c.md", &[], "C"),
        agent("d.md", &["x(", "RUST"], "D"),
    ];
    let picked = find_matching_agents("Help with Cargo and Rust", &agents);
    assert_eq!(picked, vec![0, 4]);
    assert!(find_matching_agents("nothing here", &agents).is_empty());
    let text = injection_text(&agents, &picked);
    assert_eq!(
        text,
        "\n<injected-agent>\nYou MUST follow these agent instructions:\n\n## a.md\n\nA\n\n## d.md\n\nD\n</injected-agent>\n"
    );
    assert_eq!(
        injection_text(&agents, &Vec::new()),
        "\n<injected-agent>\nYou MUST follow these agent instructions:\n</injected-agent>\n"
    );
}

#[test]
fn last_update_replaces_its_line() {
    let content = "# Session\n**Started:** 09:00\n  **Last Updated:** 09:00 old\n\n---\n**Last Updated:** x\n";
    assert_eq!(
        with_last_updated(content, "17:30"),
        "# Session\n**Started:** 09:00\n**Last Updated:** 17:30\n\n---\n**Last Updated:** x\n"
    );
    assert_eq!(with_last_updated("**Last Updated:** 1", "2"), "**Last Updated:** 2");
    assert_eq!(with_last_updated("a\nb **Last Updated:**", "2"), "a\n**Last Updated:** 2");
    assert_eq!(with_last_updated("no such line\n", "2"), "no such line\n");
    assert_eq!(with_last_updated("", "2"), "");
}

#[test]
fn latest_session_is_the_first_of_the_newest() {
    assert_eq!(latest_session(&vec![3, 9, 2, 9]), Some(1));
    assert_eq!(latest_session(&vec![5]), Some(0));
    assert_eq!(latest_session(&vec![0, 0]), None);
    assert_eq!(latest_session(&Vec::new()), None);
    assert_eq!(latest_session(&vec![0, 1]), Some(1));
}

#[test]
fn the_prompt_is_matched_in_lower_case() {
    let agents = vec![agent("dot.md", &["i"], "I")];
    assert!(!keyword_found("\u{130}", "i"));
    assert_eq!(find_matching_agents("\u{130}", &agents), vec![0]);
}
