//! Entity-tag list matching.

use not_modified::etag::{etag_list_contains, trim_start_list_padding, trim_start_spaces};

#[test]
fn matches_a_single_tag() {
    assert!(etag_list_contains(br#""abc""#, br#""abc""#, false));
    assert!(!etag_list_contains(br#""abc""#, br#""abd""#, false));
}

#[test]
fn matches_inside_a_list() {
    let list = br#""aaa", "bbb", "ccc""#;
    assert!(etag_list_contains(list, br#""aaa""#, false));
    assert!(etag_list_contains(list, br#""bbb""#, false));
    assert!(etag_list_contains(list, br#""ccc""#, false));
    assert!(!etag_list_contains(list, br#""ddd""#, false));
}

#[test]
fn a_prefix_is_not_a_match() {
    // "ab" must not match the entry "abc".
    assert!(!etag_list_contains(br#""abc""#, br#""ab"#, false));
}

#[test]
fn weak_prefix_is_stripped_from_list_entries() {
    assert!(etag_list_contains(br#"W/"abc""#, br#""abc""#, true));
    assert!(!etag_list_contains(br#"W/"abc""#, br#""abc""#, false));
}

#[test]
fn tolerates_padding_between_entries() {
    let list = br#""aaa" ,   "bbb""#;
    assert!(etag_list_contains(list, br#""bbb""#, false));
}

#[test]
fn empty_list_matches_nothing() {
    assert!(!etag_list_contains(b"", br#""abc""#, false));
}

#[test]
fn tabs_and_repeated_commas_are_padding() {
    let list = b"\"aaa\"\t,,\t , \"bbb\"\t ";
    assert!(etag_list_contains(list, br#""aaa""#, false));
    assert!(etag_list_contains(list, br#""bbb""#, false));
    assert!(etag_list_contains(b",\"aaa\"", br#""aaa""#, false));
    assert!(etag_list_contains(b"\"aaa\",", br#""aaa""#, false));
}

#[test]
fn blanks_at_the_front_are_part_of_the_first_entry() {
    assert!(!etag_list_contains(br#" "aaa""#, br#""aaa""#, false));
    assert!(etag_list_contains(br#" "aaa", "bbb""#, br#""bbb""#, false));
}

#[test]
fn weak_markers_are_stripped_from_every_entry() {
    let list = br#"W/"aaa", "bbb", W/"ccc""#;
    assert!(etag_list_contains(list, br#""aaa""#, true));
    assert!(etag_list_contains(list, br#""bbb""#, true));
    assert!(etag_list_contains(list, br#""ccc""#, true));
    assert!(!etag_list_contains(list, br#"W/"ccc""#, true));
    assert!(etag_list_contains(list, br#"W/"ccc""#, false));
    assert!(!etag_list_contains(list, br#""ccc""#, false));
}

#[test]
fn a_marker_needs_something_behind_it() {
    assert!(etag_list_contains(b"W/", b"W/", true));
    assert!(!etag_list_contains(b"W/, \"a\"", b"W/", true));
    assert!(etag_list_contains(b"W/, \"a\"", b"W/", false));
    assert!(etag_list_contains(b"W/, \"a\"", b"", true));
    assert!(etag_list_contains(b"\"a\", W/", b"W/", true));
    assert!(!etag_list_contains(b"\"a\", W/ ", b"W/", true));
}

#[test]
fn under_strong_comparison_the_marker_counts() {
    for tag in [&b""[..], b"W", b"W/", b"W/W/", b"/", br#""a""#, b"a,W/a", b",", b"a, b"] {
        let marked = [&b"W/"[..], tag].concat();
        assert!(!etag_list_contains(&marked, tag, false));
    }
}

#[test]
fn a_comma_inside_a_tag_separates_like_any_other() {
    assert!(etag_list_contains(br#""a,b""#, br#""a,b""#, false));
    assert!(etag_list_contains(br#"x"a,b""#, br#"b""#, false));
    assert!(etag_list_contains(br#""a,"a,""#, br#""a,""#, false));
}

#[test]
fn a_long_tag_behind_a_short_entry_is_found() {
    assert!(etag_list_contains(br#"a, "bbbbbb""#, br#""bbbbbb""#, false));
    assert!(!etag_list_contains(br#""bbbbbb", a"#, br#""bbbbbb", a "#, false));
}

#[test]
fn an_empty_tag_matches_an_empty_entry_at_the_front() {
    assert!(etag_list_contains(b" , a", b"", false));
    assert!(!etag_list_contains(b"a, , b", b"", false));
    assert!(!etag_list_contains(b"", b"", false));
}

#[test]
fn spaces_are_trimmed_up_to_the_first_other_byte() {
    assert_eq!(trim_start_spaces(b" \t a b"), b"a b");
    assert_eq!(trim_start_spaces(b" ,a"), b",a");
    assert_eq!(trim_start_spaces(b"  "), b"");
    assert_eq!(trim_start_spaces(b""), b"");
}

#[test]
fn list_padding_is_trimmed_with_its_commas() {
    assert_eq!(trim_start_list_padding(b", \t,a, b"), b"a, b");
    assert_eq!(trim_start_list_padding(b"a"), b"a");
    assert_eq!(trim_start_list_padding(b",,"), b"");
}
