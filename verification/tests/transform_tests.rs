use inboxbot::transform::{transform_body, transform_line};

#[test]
fn open_marker_becomes_open_checkbox() {
    assert_eq!(transform_line("- call mom"), "- [ ] call mom");
}

#[test]
fn done_marker_becomes_done_checkbox() {
    assert_eq!(transform_line("-x done"), "- [x] done");
}

#[test]
fn plain_line_passes_through() {
    assert_eq!(transform_line("hello world"), "hello world");
}

#[test]
fn empty_line_passes_through() {
    assert_eq!(transform_line(""), "");
}

#[test]
fn open_checkbox_line_is_not_double_prefixed() {
    assert_eq!(transform_line("- [ ] x"), "- [ ] x");
}

#[test]
fn done_checkbox_line_is_not_double_prefixed() {
    assert_eq!(transform_line("- [x] x"), "- [x] x");
}

#[test]
fn transform_is_idempotent_on_rewritten_lines() {
    let once = transform_line("- call mom");
    assert_eq!(transform_line(&once), once);
    let once = transform_line("-x ship it");
    assert_eq!(transform_line(&once), once);
}

#[test]
fn bare_dash_without_space_passes_through() {
    assert_eq!(transform_line("-nope"), "-nope");
    assert_eq!(transform_line("-"), "-");
}

#[test]
fn body_is_transformed_per_logical_line() {
    assert_eq!(transform_body("- a\n-x b\nplain"), "- [ ] a\n- [x] b\nplain");
}

#[test]
fn body_with_trailing_newline_keeps_it() {
    assert_eq!(transform_body("- a\n"), "- [ ] a\n");
}

#[test]
fn body_transform_is_idempotent() {
    let once = transform_body("- a\n-x b\n- [ ] c");
    assert_eq!(transform_body(&once), once);
}
