use inboxbot::session::{matches_journal_name, resolve, FileMeta, NamingPolicy};
use inboxbot::time::{day_key, timestamp_key, StampTime};

fn stamp() -> StampTime {
    StampTime { year: 2024, month: 1, day: 2, hour: 3, minute: 4, second: 5 }
}

fn meta(name: &str, mtime: u64) -> FileMeta {
    FileMeta { name: name.to_string(), mtime }
}

#[test]
fn timestamp_key_is_fourteen_digits() {
    assert_eq!(timestamp_key(&stamp()), "20240102030405");
}

#[test]
fn day_key_is_eight_digits() {
    assert_eq!(day_key(&stamp()), "20240102");
}

#[test]
fn journal_names_match_the_grammar() {
    assert!(matches_journal_name("20240101-tg.md"));
    assert!(matches_journal_name("20240101120000-tg.md"));
    assert!(!matches_journal_name("2024010a-tg.md"));
    assert!(!matches_journal_name("20240101-tg.txt"));
    assert!(!matches_journal_name("20240101120000tg.md"));
    assert!(!matches_journal_name("readme.md"));
    assert!(!matches_journal_name(""));
}

#[test]
fn recent_file_is_reused() {
    let files = vec![meta("20240101120000-tg.md", 9000)];
    let r = resolve(10000, 1800, &files, None, &stamp(), NamingPolicy::Timestamp);
    assert_eq!(r, "20240101120000-tg.md");
}

#[test]
fn stale_files_start_a_fresh_timestamp_file() {
    let files = vec![meta("20240101120000-tg.md", 8000)];
    let r = resolve(10000, 1800, &files, None, &stamp(), NamingPolicy::Timestamp);
    assert_eq!(r, "20240102030405-tg.md");
}

#[test]
fn stale_files_start_a_fresh_day_file_under_day_policy() {
    let files = vec![meta("20240101-tg.md", 1000)];
    let r = resolve(10000, 1800, &files, None, &stamp(), NamingPolicy::Day);
    assert_eq!(r, "20240102-tg.md");
}

#[test]
fn latest_modified_eligible_file_wins() {
    let files = vec![
        meta("20240101110000-tg.md", 9000),
        meta("20240101120000-tg.md", 9500),
        meta("20240101100000-tg.md", 9200),
    ];
    let r = resolve(10000, 1800, &files, None, &stamp(), NamingPolicy::Timestamp);
    assert_eq!(r, "20240101120000-tg.md");
}

#[test]
fn first_file_wins_a_modification_time_tie() {
    let files = vec![
        meta("20240101110000-tg.md", 9000),
        meta("20240101120000-tg.md", 9000),
    ];
    let r = resolve(10000, 1800, &files, None, &stamp(), NamingPolicy::Timestamp);
    assert_eq!(r, "20240101110000-tg.md");
}

#[test]
fn non_journal_names_are_ignored() {
    let files = vec![meta("notes.md", 9999), meta("readme.md", 10000)];
    let r = resolve(10000, 1800, &files, None, &stamp(), NamingPolicy::Timestamp);
    assert_eq!(r, "20240102030405-tg.md");
}

#[test]
fn window_boundary_is_strict() {
    // Exactly window seconds after the write is no longer recent.
    let files = vec![meta("20240101120000-tg.md", 8200)];
    let r = resolve(10000, 1800, &files, None, &stamp(), NamingPolicy::Timestamp);
    assert_eq!(r, "20240102030405-tg.md");
    // One second inside the window still is.
    let files = vec![meta("20240101120000-tg.md", 8201)];
    let r = resolve(10000, 1800, &files, None, &stamp(), NamingPolicy::Timestamp);
    assert_eq!(r, "20240101120000-tg.md");
}

#[test]
fn hashtag_topic_overrides_recency() {
    let files = vec![meta("20240101120000-tg.md", 9900)];
    let topic = "project".to_string();
    let r = resolve(10000, 1800, &files, Some(&topic), &stamp(), NamingPolicy::Timestamp);
    assert_eq!(r, "20240102030405-project.md");
}

#[test]
fn topic_name_under_day_policy() {
    let topic = "ideas".to_string();
    let r = resolve(0, 1800, &Vec::new(), Some(&topic), &stamp(), NamingPolicy::Day);
    assert_eq!(r, "20240102-ideas.md");
}
