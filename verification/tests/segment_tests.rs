use byebyecode::context_window::{
    ansi_color_code, progress_bar, token_count, usage_fits_bar, ContextWindowSegment, UsageFigures,
};
use byebyecode::model::ModelSegment;

fn figures(tokens: u32, percentage: &str, rate: &str, thousands: &str) -> UsageFigures {
    UsageFigures {
        tokens,
        percentage_text: percentage.to_string(),
        rate_text: rate.to_string(),
        thousands_text: thousands.to_string(),
    }
}

fn meta(pairs: &[(String, String)]) -> Vec<(&str, &str)> {
    pairs.iter().map(|(k, v)| (k.as_str(), v.as_str())).collect()
}

#[test]
fn model_segment_shows_name_and_effort() {
    let seg = ModelSegment::new();
    assert!(seg.show_effort());
    let d = seg.collect("opus-4-6[1m]", "Opus 4.6", Some("Opus 4.6 1M".to_string()), Some("max".to_string()));
    assert_eq!(d.primary, "Opus 4.6 1M · max");
    assert_eq!(d.secondary, "");
    assert_eq!(
        meta(&d.metadata),
        vec![("model_id", "opus-4-6[1m]"), ("display_name", "Opus 4.6"), ("effort", "max")]
    );
}

#[test]
fn model_segment_without_effort_uses_display_name() {
    let seg = ModelSegment::default().with_show_effort(false);
    assert!(!seg.show_effort());
    let d = seg.collect("some-model", "Some Model", None, None);
    assert_eq!(d.primary, "Some Model");
    assert_eq!(meta(&d.metadata), vec![("model_id", "some-model"), ("display_name", "Some Model")]);
    assert_eq!(seg.format_model_name(Some("Configured".to_string()), "Shown"), "Configured");
}

#[test]
fn colour_escapes() {
    assert_eq!(ansi_color_code(114), "\x1b[38;5;114m");
    assert_eq!(ansi_color_code(0), "\x1b[38;5;0m");
    assert_eq!(ansi_color_code(255), "\x1b[38;5;255m");
}

#[test]
fn status_colours_follow_thresholds() {
    let seg = ContextWindowSegment::new();
    assert_eq!(seg.get_status_color(100_000, 200_000), "\x1b[38;5;114m");
    assert_eq!(seg.get_status_color(100_001, 200_000), "\x1b[38;5;179m");
    assert_eq!(seg.get_status_color(160_000, 200_000), "\x1b[38;5;179m");
    assert_eq!(seg.get_status_color(160_001, 200_000), "\x1b[38;5;167m");
    assert_eq!(seg.get_status_color(0, 0), "\x1b[38;5;167m");
    let custom = ContextWindowSegment::new().with_colors(Some(1), None, Some(3));
    assert_eq!(custom.get_status_color(0, 10), "\x1b[38;5;1m");
    assert_eq!(custom.get_status_color(7, 10), "\x1b[38;5;179m");
    assert_eq!(custom.get_status_color(9, 10), "\x1b[38;5;3m");
}

#[test]
fn bars_have_ten_cells() {
    assert_eq!(progress_bar("C", 0), "C░░░░░░░░░░\x1b[0m");
    assert_eq!(progress_bar("C", 3), "C▓▓▓░░░░░░░\x1b[0m");
    assert_eq!(progress_bar("C", 10), "C▓▓▓▓▓▓▓▓▓▓\x1b[0m");
    let seg = ContextWindowSegment::new();
    // 25% is 2.5 cells, rounded up to 3.
    assert_eq!(seg.usage_bar(50_000, 200_000), "\x1b[38;5;114m▓▓▓░░░░░░░\x1b[0m");
    // 24% is 2.4 cells, rounded down to 2.
    assert_eq!(seg.usage_bar(48_000, 200_000), "\x1b[38;5;114m▓▓░░░░░░░░\x1b[0m");
}

#[test]
fn bar_fits_below_105_percent() {
    assert!(usage_fits_bar(209, 200));
    assert!(!usage_fits_bar(210, 200));
    assert!(usage_fits_bar(0, 0));
    assert!(!usage_fits_bar(1, 0));
}

#[test]
fn token_counts() {
    assert_eq!(token_count(999, "0.999"), "999");
    assert_eq!(token_count(1000, "1.0"), "1k");
    assert_eq!(token_count(200_000, "200.0"), "200k");
    assert_eq!(token_count(12_345, "12.3"), "12.3k");
}

#[test]
fn context_segment_with_usage() {
    let seg = ContextWindowSegment::new();
    let d = seg.collect("opus", 200_000, Some(figures(50_000, "25%", "25", "50.0")));
    assert_eq!(d.primary, "25% \x1b[38;5;114m▓▓▓░░░░░░░\x1b[0m · 50k tokens");
    assert_eq!(
        meta(&d.metadata),
        vec![("tokens", "50000"), ("percentage", "25"), ("limit", "200000"), ("model", "opus")]
    );
    let quiet = ContextWindowSegment::default().with_show_tokens(false);
    let d = quiet.collect("opus", 200_000, Some(figures(170_000, "85%", "85", "170.0")));
    assert_eq!(d.primary, "85% \x1b[38;5;167m▓▓▓▓▓▓▓▓▓░\x1b[0m");
}

#[test]
fn context_segment_without_usage() {
    let d = ContextWindowSegment::new().collect("opus", 1_000_000, None);
    assert_eq!(d.primary, "- · - tokens");
    assert_eq!(d.secondary, "");
    assert_eq!(
        meta(&d.metadata),
        vec![("tokens", "-"), ("percentage", "-"), ("limit", "1000000"), ("model", "opus")]
    );
}
