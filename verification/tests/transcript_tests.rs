use byebyecode::transcript::{
    find_assistant_message_by_uuid, newest_first, scan_transcript, search_uuid_in_lines,
    usage_after_transcript, TranscriptRecord, TranscriptScan, UsageLookup,
};

fn rec(kind: &str, uuid: &str, parent: Option<&str>, leaf: Option<&str>, usage: Option<u32>) -> Option<TranscriptRecord> {
    Some(TranscriptRecord {
        kind: Some(kind.to_string()),
        uuid: Some(uuid.to_string()),
        parent_uuid: parent.map(|s| s.to_string()),
        leaf_uuid: leaf.map(|s| s.to_string()),
        usage_tokens: usage,
    })
}

fn usage_of(scan: TranscriptScan) -> String {
    match scan {
        TranscriptScan::Usage(u) => format!("usage {}", u),
        TranscriptScan::FollowLeaf(l) => format!("leaf {}", l),
        TranscriptScan::NoUsage => "none".to_string(),
    }
}

#[test]
fn last_assistant_usage_is_found() {
    let lines = vec![
        rec("assistant", "a1", None, None, Some(100)),
        rec("user", "u1", Some("a1"), None, None),
        rec("assistant", "a2", None, None, Some(250)),
        rec("assistant", "a3", None, None, None),
        None,
        rec("user", "u2", Some("a3"), None, None),
    ];
    assert_eq!(usage_of(scan_transcript(&lines)), "usage 250");
}

#[test]
fn summary_at_the_end_points_to_its_leaf() {
    let lines = vec![rec("assistant", "a1", None, None, Some(100)), rec("summary", "s", None, Some("leaf-9"), None)];
    assert_eq!(usage_of(scan_transcript(&lines)), "leaf leaf-9");
    // A summary without a leaf is an ordinary line.
    let lines = vec![rec("assistant", "a1", None, None, Some(100)), rec("summary", "s", None, None, None)];
    assert_eq!(usage_of(scan_transcript(&lines)), "usage 100");
}

#[test]
fn empty_transcripts_have_no_usage() {
    assert_eq!(usage_of(scan_transcript(&Vec::new())), "none");
    assert_eq!(usage_of(scan_transcript(&vec![None, None])), "none");
}

#[test]
fn message_usage_by_uuid() {
    let lines = vec![
        rec("assistant", "a1", None, None, Some(100)),
        rec("assistant", "a1", None, None, Some(300)),
        rec("user", "u1", Some("a1"), None, None),
        rec("user", "u2", None, None, None),
        rec("system", "x1", None, None, Some(5)),
        rec("assistant", "a4", None, None, None),
        rec("assistant", "a4", None, None, Some(400)),
    ];
    assert_eq!(search_uuid_in_lines(&lines, "a1"), Some(100));
    assert_eq!(search_uuid_in_lines(&lines, "u1"), Some(100));
    assert_eq!(search_uuid_in_lines(&lines, "u2"), None);
    assert_eq!(search_uuid_in_lines(&lines, "x1"), None);
    assert_eq!(search_uuid_in_lines(&lines, "missing"), None);
    // The first entry with the uuid decides, even without a usage.
    assert_eq!(search_uuid_in_lines(&lines, "a4"), None);
    // The parent lookup skips assistant entries without a usage.
    assert_eq!(find_assistant_message_by_uuid(&lines, "a4"), Some(400));
}

#[test]
fn sessions_are_tried_newest_first() {
    assert_eq!(newest_first(&vec![5, 9, 1, 9, -3]), vec![3, 1, 0, 2, 4]);
    assert_eq!(newest_first(&vec![]), Vec::<usize>::new());
    assert_eq!(newest_first(&vec![0, 0, 0]), vec![2, 1, 0]);
}

#[test]
fn newest_first_matches_a_stable_sort_reversed() {
    let keys: Vec<i128> = vec![3, 1, 4, 1, 5, 9, 2, 6, 5, 3, 5];
    let mut idx: Vec<usize> = (0..keys.len()).collect();
    idx.sort_by_key(|&i| keys[i]);
    idx.reverse();
    assert_eq!(newest_first(&keys), idx);
}

#[test]
fn history_is_searched_only_for_a_missing_transcript() {
    assert!(matches!(usage_after_transcript(Some(7), false), UsageLookup::Found(7)));
    assert!(matches!(usage_after_transcript(None, false), UsageLookup::SearchHistory));
    assert!(matches!(usage_after_transcript(None, true), UsageLookup::NotFound));
}
