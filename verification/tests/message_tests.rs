use inboxbot::entities::{extract, Entity, ForwardInfo, IncomingMessage};
use inboxbot::router::{classify, process_message, Action};
use inboxbot::session::{FileMeta, NamingPolicy};
use inboxbot::time::StampTime;
use inboxbot::writer::compose_entry;

fn stamp() -> StampTime {
    StampTime { year: 2024, month: 1, day: 2, hour: 3, minute: 4, second: 5 }
}

fn plain_message(body: &str) -> IncomingMessage {
    IncomingMessage {
        body: Some(body.to_string()),
        entities: Vec::new(),
        forward: None,
        sender: "alice".to_string(),
    }
}

#[test]
fn entry_round_trip_body_and_labeled_link() {
    let body = "buy milk".to_string();
    let links = vec!["[site](http://x)".to_string()];
    let entry = compose_entry(Some(&body), &links, None);
    assert_eq!(entry, "buy milk\n\n[site](http://x)\n\n");
    assert!(entry.ends_with("buy milk\n\n[site](http://x)\n\n"));
}

#[test]
fn entry_without_body_or_links_is_just_separators() {
    let entry = compose_entry(None, &Vec::new(), None);
    assert_eq!(entry, "\n\n");
}

#[test]
fn entry_footer_is_newline_terminated() {
    let footer = "from: a (at )".to_string();
    let entry = compose_entry(None, &Vec::new(), Some(&footer));
    assert_eq!(entry, "\n\nfrom: a (at )\n");
}

#[test]
fn checkbox_message_on_empty_directory_creates_timestamp_file() {
    let msg = plain_message("- call mom");
    let out = process_message(
        &msg,
        10000,
        1800,
        &stamp(),
        NamingPolicy::Timestamp,
        &Vec::new(),
        None,
    );
    assert_eq!(out.filename, "20240102030405-tg.md");
    assert_eq!(out.entry, "- [ ] call mom\n\n\n");
}

#[test]
fn hashtag_message_goes_to_topic_file() {
    let msg = IncomingMessage {
        body: Some("status update #project".to_string()),
        entities: vec![Entity::Hashtag { offset: 14, length: 8 }],
        forward: None,
        sender: "alice".to_string(),
    };
    let out = process_message(
        &msg,
        10000,
        1800,
        &stamp(),
        NamingPolicy::Timestamp,
        &Vec::new(),
        None,
    );
    assert_eq!(out.filename, "20240102030405-project.md");
    assert!(out.entry.starts_with("status update #project\n"));
}

#[test]
fn hashtag_wins_over_recent_file() {
    let msg = IncomingMessage {
        body: Some("#ideas later".to_string()),
        entities: vec![Entity::Hashtag { offset: 0, length: 6 }],
        forward: None,
        sender: "alice".to_string(),
    };
    let files = vec![FileMeta { name: "20240101120000-tg.md".to_string(), mtime: 9990 }];
    let out = process_message(&msg, 10000, 1800, &stamp(), NamingPolicy::Timestamp, &files, None);
    assert_eq!(out.filename, "20240102030405-ideas.md");
}

#[test]
fn recent_file_receives_the_message() {
    let msg = plain_message("hi");
    let files = vec![FileMeta { name: "20240101120000-tg.md".to_string(), mtime: 9000 }];
    let out = process_message(&msg, 10000, 1800, &stamp(), NamingPolicy::Timestamp, &files, None);
    assert_eq!(out.filename, "20240101120000-tg.md");
    assert_eq!(out.entry, "hi\n\n\n");
}

#[test]
fn forwarded_message_carries_attribution_footer() {
    let msg = IncomingMessage {
        body: Some("hi".to_string()),
        entities: Vec::new(),
        forward: Some(ForwardInfo { name: "Alice Smith".to_string(), timestamp: Some(0) }),
        sender: "alice".to_string(),
    };
    let out = process_message(
        &msg,
        10000,
        1800,
        &stamp(),
        NamingPolicy::Timestamp,
        &Vec::new(),
        None,
    );
    assert_eq!(out.entry, "hi\n\n\nfrom: Alice Smith (at Thu, 1 Jan 1970 00:00:00 +0000)\n");
}

#[test]
fn attribution_without_timestamp_is_empty_at_part() {
    let msg = IncomingMessage {
        body: None,
        entities: Vec::new(),
        forward: Some(ForwardInfo { name: "Bob".to_string(), timestamp: None }),
        sender: "alice".to_string(),
    };
    let ex = extract(&msg);
    assert_eq!(ex.attribution.unwrap(), "from: Bob (at )");
}

#[test]
fn ack_footer_is_written_when_no_attribution() {
    let msg = plain_message("hi");
    let ack = "@ 03:04".to_string();
    let out = process_message(
        &msg,
        10000,
        1800,
        &stamp(),
        NamingPolicy::Timestamp,
        &Vec::new(),
        Some(&ack),
    );
    assert_eq!(out.entry, "hi\n\n\n@ 03:04\n");
}

#[test]
fn plain_url_entity_becomes_bare_link() {
    let msg = IncomingMessage {
        body: Some("see http://x.com ok".to_string()),
        entities: vec![Entity::PlainUrl { offset: 4, length: 12 }],
        forward: None,
        sender: "alice".to_string(),
    };
    let ex = extract(&msg);
    assert_eq!(ex.links, vec!["[](http://x.com)".to_string()]);
}

#[test]
fn labeled_link_entity_becomes_labeled_markdown() {
    let msg = IncomingMessage {
        body: Some("site".to_string()),
        entities: vec![Entity::LabeledLink {
            offset: 0,
            length: 4,
            url: "http://y".to_string(),
        }],
        forward: None,
        sender: "alice".to_string(),
    };
    let ex = extract(&msg);
    assert_eq!(ex.links, vec!["[site](http://y)".to_string()]);
}

#[test]
fn out_of_range_span_is_skipped() {
    let msg = IncomingMessage {
        body: Some("short".to_string()),
        entities: vec![
            Entity::PlainUrl { offset: 100, length: 5 },
            Entity::PlainUrl { offset: 0, length: 5 },
        ],
        forward: None,
        sender: "alice".to_string(),
    };
    let ex = extract(&msg);
    assert_eq!(ex.links, vec!["[](short)".to_string()]);
    assert!(ex.topic.is_none());
}

#[test]
fn empty_span_is_a_valid_edge_case() {
    let msg = IncomingMessage {
        body: Some("x".to_string()),
        entities: vec![Entity::PlainUrl { offset: 1, length: 0 }],
        forward: None,
        sender: "alice".to_string(),
    };
    let ex = extract(&msg);
    assert_eq!(ex.links, vec!["[]()".to_string()]);
}

#[test]
fn hashtag_is_stripped_and_trimmed() {
    let msg = IncomingMessage {
        body: Some("x # topic y".to_string()),
        entities: vec![Entity::Hashtag { offset: 2, length: 8 }],
        forward: None,
        sender: "alice".to_string(),
    };
    let ex = extract(&msg);
    assert_eq!(ex.topic.unwrap(), "topic");
}

#[test]
fn first_hashtag_names_the_topic() {
    let msg = IncomingMessage {
        body: Some("#one #two".to_string()),
        entities: vec![
            Entity::Hashtag { offset: 0, length: 4 },
            Entity::Hashtag { offset: 5, length: 4 },
        ],
        forward: None,
        sender: "alice".to_string(),
    };
    let ex = extract(&msg);
    assert_eq!(ex.topic.unwrap(), "one");
}

#[test]
fn classify_plain_text_as_journal() {
    assert!(matches!(classify("hello"), Action::Journal));
    assert!(matches!(classify(""), Action::Journal));
}

#[test]
fn classify_search_command() {
    match classify("/s foo bar ") {
        Action::Search { query } => assert_eq!(query, "foo bar"),
        _ => panic!("expected a search"),
    }
}

#[test]
fn classify_trims_unicode_whitespace_around_the_query() {
    match classify("/s \u{A0}needle\u{3000}") {
        Action::Search { query } => assert_eq!(query, "needle"),
        _ => panic!("expected a search"),
    }
}

#[test]
fn classify_bare_search_as_usage() {
    assert!(matches!(classify("/s"), Action::SearchUsage));
}

#[test]
fn classify_search_with_only_a_space() {
    match classify("/s ") {
        Action::Search { query } => assert_eq!(query, ""),
        _ => panic!("expected a search"),
    }
}

#[test]
fn classify_unknown_command() {
    match classify("/x something") {
        Action::Unknown { command } => assert_eq!(command, "/x"),
        _ => panic!("expected an unknown command"),
    }
}
