use byebyecode::effort::{
    decide_effort, effort_from_env, extract_effort_from_user_command, extract_queue_effort,
    is_valid_effort_exec, parse_effort_from_transcript, read_effort_from_settings,
    resolve_effort_level, try_resolve_effort_level,
};

fn user_line(args: &str, ts: &str) -> String {
    format!(
        r#"{{"type":"user","message":{{"role":"user","content":"<command-name>/effort</command-name>\n<command-message>effort</command-message>\n<command-args>{}</command-args>"}},"timestamp":"{}"}}"#,
        args, ts
    )
}

fn queue_line(content: &str, ts: &str) -> String {
    format!(r#"{{"type":"queue-operation","operation":"enqueue","content":"{}","timestamp":"{}"}}"#, content, ts)
}

fn pair(a: &str, b: &str) -> Option<(String, String)> {
    Some((a.to_string(), b.to_string()))
}

#[test]
fn user_command_gives_level_and_timestamp() {
    let line = user_line("  MAX ", "2026-03-16T04:52:11.745Z");
    assert_eq!(extract_effort_from_user_command(&line), pair("max", "2026-03-16T04:52:11.745Z"));
}

#[test]
fn user_command_without_timestamp_has_empty_timestamp() {
    let line = r#"{"type":"user","message":{"content":"<command-name>/effort</command-name><command-args>low</command-args>"}}"#;
    assert_eq!(extract_effort_from_user_command(line), pair("low", ""));
}

#[test]
fn user_command_is_rejected_unless_everything_matches() {
    // Not a user entry.
    let line = user_line("high", "t").replace(r#""type":"user""#, r#""type":"assistant""#);
    assert_eq!(extract_effort_from_user_command(&line), None);
    // Content that is an array (a tool result).
    let line = r#"{"type":"user","message":{"content":[{"type":"tool_result","content":"<command-name>/effort</command-name><command-args>high</command-args>"}]}}"#;
    assert_eq!(extract_effort_from_user_command(line), None);
    // Unknown level, empty arguments, no closing tag, not JSON.
    assert_eq!(extract_effort_from_user_command(&user_line("turbo", "t")), None);
    assert_eq!(extract_effort_from_user_command(&user_line("  ", "t")), None);
    let line = r#"{"type":"user","message":{"content":"<command-name>/effort</command-name><command-args>high"}}"#;
    assert_eq!(extract_effort_from_user_command(line), None);
    assert_eq!(extract_effort_from_user_command("<command-name>/effort</command-name>"), None);
}

#[test]
fn queue_operation_gives_level() {
    assert_eq!(extract_queue_effort(&queue_line("/effort Auto ", "ts1")), pair("auto", "ts1"));
    assert_eq!(extract_queue_effort(&queue_line("/effort", "ts1")), None);
    assert_eq!(extract_queue_effort(&queue_line("/effort  ", "ts1")), None);
    assert_eq!(extract_queue_effort(&queue_line("please /effort low", "ts1")), None);
    assert_eq!(extract_queue_effort(&queue_line("/effort extreme", "ts1")), None);
}

#[test]
fn last_effort_line_wins() {
    let lines = vec![
        user_line("low", "2026-01-01T00:00:00Z"),
        String::new(),
        "not json".to_string(),
        queue_line("/effort high", "2026-01-02T00:00:00Z"),
        user_line("bogus", "2026-01-03T00:00:00Z"),
        r#"{"type":"assistant","message":{"content":"hi"}}"#.to_string(),
    ];
    assert_eq!(parse_effort_from_transcript(&lines), pair("high", "2026-01-02T00:00:00Z"));
    let mut more = lines.clone();
    more.push(format!("   {}   ", user_line("medium", "2026-01-04T00:00:00Z")));
    assert_eq!(parse_effort_from_transcript(&more), pair("medium", "2026-01-04T00:00:00Z"));
    assert_eq!(parse_effort_from_transcript(&Vec::new()), None);
}

#[test]
fn settings_level_is_read_and_defaults_to_auto() {
    assert_eq!(read_effort_from_settings(r#"{"effortLevel":" High "}"#), Some("high".to_string()));
    assert_eq!(read_effort_from_settings(r#"{"model":"opus"}"#), Some("auto".to_string()));
    assert_eq!(read_effort_from_settings(r#"{"effortLevel":"fast"}"#), Some("auto".to_string()));
    assert_eq!(read_effort_from_settings(r#"{"effortLevel":3}"#), Some("auto".to_string()));
    assert_eq!(read_effort_from_settings("[1, 2]"), Some("auto".to_string()));
    assert_eq!(read_effort_from_settings("{not json"), None);
}

#[test]
fn environment_level_is_validated() {
    assert_eq!(effort_from_env(Some(" MEDIUM\n".to_string())), "medium");
    assert_eq!(effort_from_env(Some("ultra".to_string())), "auto");
    assert_eq!(effort_from_env(None), "auto");
}

#[test]
fn more_recent_source_wins() {
    let ts = "2026-03-16T04:52:11.745Z"; // 1773636731745 ms
    let t = pair("max", ts);
    assert_eq!(decide_effort(t.clone(), Some(("low".to_string(), 1773636731744)), None), "max");
    assert_eq!(decide_effort(t.clone(), Some(("low".to_string(), 1773636731745)), None), "low");
    assert_eq!(decide_effort(t.clone(), None, Some("high".to_string())), "max");
    assert_eq!(decide_effort(None, Some(("low".to_string(), 0)), Some("high".to_string())), "low");
    assert_eq!(decide_effort(None, None, Some("high".to_string())), "high");
    assert_eq!(decide_effort(None, None, None), "auto");
}

#[test]
fn resolves_from_transcript_settings_and_environment() {
    let lines = vec![user_line("max", "2026-03-16T04:52:11.745Z")];
    let settings = Some((r#"{"effortLevel":"low"}"#.to_string(), 1773636731744u128));
    assert_eq!(resolve_effort_level(&lines, settings.clone(), None), "max");
    let later = Some((r#"{"effortLevel":"low"}"#.to_string(), 1773636731746u128));
    assert_eq!(resolve_effort_level(&lines, later, None), "low");
    // Unreadable settings JSON counts as no settings.
    let broken = Some(("{".to_string(), 9999999999999u128));
    assert_eq!(resolve_effort_level(&lines, broken, None), "max");
    assert_eq!(resolve_effort_level(&Vec::new(), None, Some("HIGH".to_string())), "high");
    assert_eq!(resolve_effort_level(&Vec::new(), None, None), "auto");
}

#[test]
fn resolution_reports_inconvertible_timestamps() {
    let lines = vec![user_line("max", "2026-03-00T00:00:00Z")];
    let settings = Some((r#"{"effortLevel":"low"}"#.to_string(), 0u128));
    assert_eq!(try_resolve_effort_level(&lines, settings, None), None);
    assert_eq!(try_resolve_effort_level(&lines, None, None), Some("max".to_string()));
}

#[test]
fn valid_levels() {
    for level in ["low", "medium", "high", "max", "auto"] {
        assert!(is_valid_effort_exec(&level.to_string()));
    }
    assert!(!is_valid_effort_exec(&"Low".to_string()));
    assert!(!is_valid_effort_exec(&"".to_string()));
}
