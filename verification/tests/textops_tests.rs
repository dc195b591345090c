use inboxbot::ack::select_ack;
use inboxbot::textops::{
    attachment_filename, chunk_text, count_words, format_search_result, is_authorized,
};
use inboxbot::time::{current_clock, validate_clock, RawClock};

#[test]
fn words_are_counted_across_lines() {
    assert_eq!(count_words("hello world\nfoo"), 3);
}

#[test]
fn empty_content_has_no_words() {
    assert_eq!(count_words(""), 0);
    assert_eq!(count_words("   \n\t "), 0);
}

#[test]
fn repeated_separators_do_not_add_words() {
    assert_eq!(count_words("  a   b  "), 2);
}

#[test]
fn words_split_on_unicode_whitespace() {
    // Form feed, no-break space and ideographic space separate words too.
    assert_eq!(count_words("a\u{0C}b\u{A0}c\u{3000}d"), 4);
    assert_eq!(count_words("\u{2028}one\u{205F}"), 1);
}

#[test]
fn chunks_cover_the_text_in_order() {
    assert_eq!(chunk_text("abcdef", 4), vec!["abcd".to_string(), "ef".to_string()]);
}

#[test]
fn exact_multiple_gives_full_chunks() {
    assert_eq!(chunk_text("abcdef", 3), vec!["abc".to_string(), "def".to_string()]);
}

#[test]
fn empty_text_gives_no_chunks() {
    assert_eq!(chunk_text("", 4000), Vec::<String>::new());
}

#[test]
fn short_text_is_one_chunk() {
    assert_eq!(chunk_text("hi", 4000), vec!["hi".to_string()]);
}

#[test]
fn search_output_is_passed_through() {
    let r = format_search_result(
        true,
        &"a:1:match".to_string(),
        &String::new(),
        &"q".to_string(),
    );
    assert_eq!(r, "a:1:match");
}

#[test]
fn empty_search_output_names_the_query() {
    let r = format_search_result(true, &String::new(), &String::new(), &"needle".to_string());
    assert_eq!(r, "No matches found for query: 'needle'");
}

#[test]
fn failed_search_reports_the_error() {
    let r = format_search_result(false, &String::new(), &"bad regex".to_string(), &"q".to_string());
    assert_eq!(r, "Error executing search: bad regex");
}

#[test]
fn attachment_path_separators_become_dashes() {
    assert_eq!(
        attachment_filename("20240102030405", "photos/2024/img.jpg"),
        "20240102030405-photos-2024-img.jpg"
    );
}

#[test]
fn attachment_path_without_separators_is_kept() {
    assert_eq!(attachment_filename("20240102030405", "voice.ogg"), "20240102030405-voice.ogg");
}

#[test]
fn only_the_configured_sender_is_authorized() {
    assert!(is_authorized(&"alice".to_string(), &"alice".to_string()));
    assert!(!is_authorized(&"mallory".to_string(), &"alice".to_string()));
}

#[test]
fn seeded_ack_is_reproducible() {
    let a = select_ack(Some("abc".to_string()), None);
    let b = select_ack(Some("abc".to_string()), None);
    assert_eq!(a, b);
    assert_ne!(a, "abc");
    let c = select_ack(Some("abc".to_string()), Some("flags".to_string()));
    let d = select_ack(Some("abc".to_string()), Some("flags".to_string()));
    assert_eq!(c, d);
}

fn raw(epoch: i64, year: i32) -> RawClock {
    RawClock { epoch, year, month: 1, day: 2, hour: 3, minute: 4, second: 5 }
}

#[test]
fn plausible_raw_reading_is_accepted_unchanged() {
    let c = validate_clock(raw(1700000000, 2024)).expect("a plausible reading is accepted");
    assert_eq!(c.epoch, 1700000000);
    assert_eq!(c.stamp.year, 2024);
    assert_eq!(c.stamp.month, 1);
    assert_eq!(c.stamp.day, 2);
    assert_eq!(c.stamp.hour, 3);
    assert_eq!(c.stamp.minute, 4);
    assert_eq!(c.stamp.second, 5);
}

#[test]
fn out_of_range_raw_readings_are_refused() {
    assert!(validate_clock(raw(-1, 2024)).is_none());
    assert!(validate_clock(raw(0, -1)).is_none());
    assert!(validate_clock(raw(0, 10000)).is_none());
    assert!(validate_clock(raw(0, 0)).is_some());
    assert!(validate_clock(raw(0, 9999)).is_some());
}

#[test]
fn clock_reading_is_calendar_plausible() {
    let c = current_clock().expect("the machine clock is inside the supported years");
    let s = c.stamp;
    assert!((1..=12).contains(&s.month));
    assert!((1..=31).contains(&s.day));
    assert!(s.hour <= 23);
    assert!(s.minute <= 59);
    assert!(s.second <= 59);
    assert!(s.year >= 2020);
}
