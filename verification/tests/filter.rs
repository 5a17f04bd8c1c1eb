//! The filter on whole requests.

use std::cell::RefCell;

use not_modified::filter::{
    modified_since, ngx_http_not_modified_header_filter, test_if_match, test_if_modified,
    test_if_unmodified, unmodified_since, Action,
};
use not_modified::request::{
    clear_accept_ranges, clear_content_length, HeaderLine, HeadersIn, HeadersOut, Request,
    NGX_HTTP_IMS_BEFORE, NGX_HTTP_IMS_EXACT, NGX_HTTP_IMS_OFF,
};

const ETAG: &[u8] = br#""6a93eb2b-1b""#;
const WEAK_ETAG: &[u8] = br#"W/"6a93eb2b-1b""#;
const LAST_MODIFIED: i64 = 1788078891;
const LAST_MODIFIED_DATE: &[u8] = b"Sun, 30 Aug 2026 08:34:51 GMT";
const OLD_DATE: &[u8] = b"Mon, 01 Jan 1990 00:00:00 GMT";
const FUTURE_DATE: &[u8] = b"Fri, 01 Jan 2038 00:00:00 GMT";

const CONTENT_LENGTH: usize = 1;
const ACCEPT_RANGES: usize = 2;
const CONTENT_ENCODING: usize = 3;
const ETAG_LINE: usize = 4;

fn parse(value: &[u8]) -> i64 {
    if value == LAST_MODIFIED_DATE {
        LAST_MODIFIED
    } else if value == OLD_DATE {
        631152000
    } else if value == FUTURE_DATE {
        2145916800
    } else {
        -1
    }
}

fn ignore(_list: &[u8], _tag: &[u8]) {}

fn no_headers<'a>() -> HeadersIn<'a> {
    HeadersIn {
        if_modified_since: None,
        if_unmodified_since: None,
        if_match: None,
        if_none_match: None,
    }
}

fn line(value: &[u8]) -> HeaderLine<'_> {
    HeaderLine { hash: 1, value }
}

fn request<'a>(headers_in: HeadersIn<'a>) -> Request<'a> {
    Request {
        is_main: true,
        disable_not_modified: false,
        allow_ranges: true,
        if_modified_since: Some(NGX_HTTP_IMS_EXACT),
        headers_in,
        headers_out: HeadersOut {
            lines: vec![line(b"nginx"), line(b"27"), line(b"bytes"), line(b"gzip"), line(ETAG)],
            content_length: Some(CONTENT_LENGTH),
            accept_ranges: Some(ACCEPT_RANGES),
            content_encoding: Some(CONTENT_ENCODING),
            etag: Some(ETAG_LINE),
            status: 200,
            status_line_len: 6,
            content_type_len: 9,
            content_length_n: 27,
            last_modified_time: LAST_MODIFIED,
        },
    }
}

fn none_match<'a>(list: &'a [u8]) -> Request<'a> {
    request(HeadersIn { if_none_match: Some(list), ..no_headers() })
}

fn matching<'a>(list: &'a [u8]) -> Request<'a> {
    request(HeadersIn { if_match: Some(list), ..no_headers() })
}

fn modified<'a>(date: &'a [u8]) -> Request<'a> {
    request(HeadersIn { if_modified_since: Some(date), ..no_headers() })
}

fn unmodified<'a>(date: &'a [u8]) -> Request<'a> {
    request(HeadersIn { if_unmodified_since: Some(date), ..no_headers() })
}

fn hashes(r: &Request<'_>) -> Vec<usize> {
    r.headers_out.lines.iter().map(|l| l.hash).collect()
}

/// The status the response would be sent with. A response that passes as it is
/// must not have been touched.
fn status(mut r: Request<'_>) -> usize {
    match ngx_http_not_modified_header_filter(&mut r, &parse, &ignore) {
        Action::Finalize(status) => {
            assert_eq!(r.headers_out.status, 200);
            assert_eq!(hashes(&r), [1, 1, 1, 1, 1]);
            assert_eq!(r.headers_out.content_length_n, 27);
            status
        }
        Action::NextFilter => {
            if r.headers_out.status != 304 {
                assert_eq!(hashes(&r), [1, 1, 1, 1, 1]);
                assert_eq!(r.headers_out.content_length_n, 27);
                assert_eq!(r.headers_out.content_type_len, 9);
                assert_eq!(r.headers_out.status_line_len, 6);
                assert!(r.allow_ranges);
            }
            r.headers_out.status
        }
    }
}

#[test]
fn plain_get_is_sent() {
    assert_eq!(status(request(no_headers())), 200);
}

#[test]
fn if_none_match_with_the_tag_is_not_modified() {
    assert_eq!(status(none_match(ETAG)), 304);
}

#[test]
fn if_none_match_with_another_tag_is_sent() {
    assert_eq!(status(none_match(br#""bogus""#)), 200);
}

#[test]
fn if_none_match_star_is_not_modified() {
    assert_eq!(status(none_match(b"*")), 304);
}

#[test]
fn if_none_match_with_the_weak_tag_is_not_modified() {
    assert_eq!(status(none_match(WEAK_ETAG)), 304);
}

#[test]
fn if_none_match_with_the_tag_in_a_list_is_not_modified() {
    assert_eq!(status(none_match(br#""aaa", "6a93eb2b-1b", "bbb""#)), 304);
}

#[test]
fn if_modified_since_the_last_modification_is_not_modified() {
    assert_eq!(status(modified(LAST_MODIFIED_DATE)), 304);
}

#[test]
fn if_modified_since_an_old_date_is_sent() {
    assert_eq!(status(modified(OLD_DATE)), 200);
}

#[test]
fn if_match_with_the_tag_is_sent() {
    assert_eq!(status(matching(ETAG)), 200);
}

#[test]
fn if_match_with_another_tag_is_refused() {
    assert_eq!(status(matching(br#""bogus""#)), 412);
}

#[test]
fn if_unmodified_since_an_old_date_is_refused() {
    assert_eq!(status(unmodified(OLD_DATE)), 412);
}

#[test]
fn if_unmodified_since_a_future_date_is_sent() {
    assert_eq!(status(unmodified(FUTURE_DATE)), 200);
}

#[test]
fn if_match_compares_strongly() {
    assert_eq!(status(matching(WEAK_ETAG)), 412);
    let mut weak = matching(ETAG);
    weak.headers_out.lines[ETAG_LINE].value = WEAK_ETAG;
    assert_eq!(status(weak), 412);
    let mut same = matching(WEAK_ETAG);
    same.headers_out.lines[ETAG_LINE].value = WEAK_ETAG;
    assert_eq!(status(same), 200);
    assert_eq!(status(matching(b"*")), 200);
}

#[test]
fn if_none_match_strips_both_sides() {
    for list in [ETAG, WEAK_ETAG] {
        let mut weak = none_match(list);
        weak.headers_out.lines[ETAG_LINE].value = WEAK_ETAG;
        assert_eq!(status(weak), 304);
    }
    let mut doubly = none_match(br#"W/W/"6a93eb2b-1b""#);
    doubly.headers_out.lines[ETAG_LINE].value = WEAK_ETAG;
    assert_eq!(status(doubly), 200);
}

#[test]
fn an_entity_without_a_tag_matches_only_star() {
    for (list, refused, spared) in [(&b"*"[..], 200, 304), (ETAG, 412, 200)] {
        let mut m = matching(list);
        m.headers_out.etag = None;
        assert_eq!(status(m), refused);
        let mut n = none_match(list);
        n.headers_out.etag = None;
        assert_eq!(status(n), spared);
    }
    assert_eq!(status(none_match(b"*, \"x\"")), 200);
    assert_eq!(status(none_match(b"")), 200);
}

#[test]
fn only_plain_main_requests_are_looked_at() {
    let mut created = matching(br#""bogus""#);
    created.headers_out.status = 201;
    assert_eq!(status(created), 201);
    let mut sub = none_match(ETAG);
    sub.is_main = false;
    assert_eq!(status(sub), 200);
    let mut disabled = none_match(ETAG);
    disabled.disable_not_modified = true;
    assert_eq!(status(disabled), 200);
}

#[test]
fn if_modified_since_follows_the_setting() {
    let settings = [
        (Some(NGX_HTTP_IMS_OFF), 200, 200, 200),
        (Some(NGX_HTTP_IMS_EXACT), 200, 304, 200),
        (Some(NGX_HTTP_IMS_BEFORE), 200, 304, 304),
        (Some(9), 200, 304, 304),
        (None, 200, 200, 200),
    ];
    for (setting, old, own, future) in settings {
        for (date, expected) in [(OLD_DATE, old), (LAST_MODIFIED_DATE, own), (FUTURE_DATE, future)] {
            let mut r = modified(date);
            r.if_modified_since = setting;
            assert_eq!(status(r), expected);
        }
    }
}

#[test]
fn an_entity_without_a_date_is_modified_and_not_unmodified() {
    let mut m = modified(FUTURE_DATE);
    m.if_modified_since = Some(NGX_HTTP_IMS_BEFORE);
    m.headers_out.last_modified_time = -1;
    assert_eq!(status(m), 200);
    let mut u = unmodified(FUTURE_DATE);
    u.headers_out.last_modified_time = -1;
    assert_eq!(status(u), 412);
}

#[test]
fn an_unreadable_date_is_never_met() {
    assert_eq!(status(unmodified(b"yesterday")), 412);
    let mut m = modified(b"yesterday");
    m.if_modified_since = Some(NGX_HTTP_IMS_BEFORE);
    assert_eq!(status(m), 200);
}

#[test]
fn either_header_proves_a_change() {
    let cases = [
        (LAST_MODIFIED_DATE, ETAG, 304),
        (OLD_DATE, ETAG, 200),
        (LAST_MODIFIED_DATE, &br#""bogus""#[..], 200),
        (OLD_DATE, &br#""bogus""#[..], 200),
    ];
    for (date, list, expected) in cases {
        let r = request(HeadersIn {
            if_modified_since: Some(date),
            if_none_match: Some(list),
            ..no_headers()
        });
        assert_eq!(status(r), expected);
    }
}

#[test]
fn a_failed_precondition_prevails() {
    let r = request(HeadersIn {
        if_modified_since: Some(LAST_MODIFIED_DATE),
        if_unmodified_since: Some(FUTURE_DATE),
        if_match: Some(br#""bogus""#),
        if_none_match: Some(ETAG),
    });
    assert_eq!(status(r), 412);
    let r = request(HeadersIn {
        if_modified_since: Some(LAST_MODIFIED_DATE),
        if_unmodified_since: Some(OLD_DATE),
        if_match: Some(ETAG),
        if_none_match: Some(ETAG),
    });
    assert_eq!(status(r), 412);
    let r = request(HeadersIn {
        if_modified_since: Some(LAST_MODIFIED_DATE),
        if_unmodified_since: Some(LAST_MODIFIED_DATE),
        if_match: Some(ETAG),
        if_none_match: Some(ETAG),
    });
    assert_eq!(status(r), 304);
}

#[test]
fn a_not_modified_response_is_stripped() {
    let mut r = none_match(ETAG);
    let action = ngx_http_not_modified_header_filter(&mut r, &parse, &ignore);
    assert_eq!(action, Action::NextFilter);
    assert_eq!(r.headers_out.status, 304);
    assert_eq!(r.headers_out.status_line_len, 0);
    assert_eq!(r.headers_out.content_type_len, 0);
    assert_eq!(r.headers_out.content_length_n, -1);
    assert_eq!(r.headers_out.content_length, None);
    assert_eq!(r.headers_out.accept_ranges, None);
    assert_eq!(r.headers_out.content_encoding, None);
    assert_eq!(r.headers_out.etag, Some(ETAG_LINE));
    assert_eq!(r.headers_out.last_modified_time, LAST_MODIFIED);
    assert!(!r.allow_ranges);
    assert_eq!(hashes(&r), [1, 0, 0, 0, 1]);
    assert_eq!(r.headers_out.lines[ETAG_LINE].value, ETAG);
    assert_eq!(r.headers_out.lines[CONTENT_LENGTH].value, b"27");
}

#[test]
fn a_not_modified_response_without_body_lines_is_stripped_too() {
    let mut r = none_match(ETAG);
    r.headers_out.content_length = None;
    r.headers_out.accept_ranges = None;
    r.headers_out.content_encoding = None;
    ngx_http_not_modified_header_filter(&mut r, &parse, &ignore);
    assert_eq!(r.headers_out.status, 304);
    assert_eq!(r.headers_out.content_length_n, -1);
    assert!(!r.allow_ranges);
    assert_eq!(hashes(&r), [1, 1, 1, 1, 1]);
}

#[test]
fn a_converted_response_is_left_alone() {
    let mut r = request(HeadersIn {
        if_match: Some(br#""6a93eb2b-1b""#),
        if_none_match: Some(ETAG),
        ..no_headers()
    });
    assert_eq!(ngx_http_not_modified_header_filter(&mut r, &parse, &ignore), Action::NextFilter);
    r.headers_in.if_match = Some(br#""bogus""#);
    assert_eq!(ngx_http_not_modified_header_filter(&mut r, &parse, &ignore), Action::NextFilter);
    assert_eq!(r.headers_out.status, 304);
    assert_eq!(hashes(&r), [1, 0, 0, 0, 1]);
}

#[test]
fn dates_are_read_only_where_needed() {
    let read: RefCell<Vec<Vec<u8>>> = RefCell::new(Vec::new());
    let recording = |value: &[u8]| -> i64 {
        read.borrow_mut().push(value.to_vec());
        parse(value)
    };
    let both = || {
        request(HeadersIn {
            if_modified_since: Some(OLD_DATE),
            if_unmodified_since: Some(FUTURE_DATE),
            ..no_headers()
        })
    };

    let mut r = both();
    ngx_http_not_modified_header_filter(&mut r, &recording, &ignore);
    assert_eq!(*read.borrow(), [FUTURE_DATE.to_vec(), OLD_DATE.to_vec()]);

    read.borrow_mut().clear();
    let mut r = both();
    r.headers_in.if_unmodified_since = Some(OLD_DATE);
    ngx_http_not_modified_header_filter(&mut r, &recording, &ignore);
    assert_eq!(*read.borrow(), [OLD_DATE.to_vec()]);

    read.borrow_mut().clear();
    let mut r = both();
    r.if_modified_since = Some(NGX_HTTP_IMS_OFF);
    r.headers_in.if_unmodified_since = None;
    ngx_http_not_modified_header_filter(&mut r, &recording, &ignore);
    let mut r = both();
    r.headers_out.last_modified_time = -1;
    ngx_http_not_modified_header_filter(&mut r, &recording, &ignore);
    assert!(read.borrow().is_empty());
}

#[test]
fn the_tests_answer_for_themselves() {
    assert!(test_if_unmodified(&unmodified(LAST_MODIFIED_DATE), &parse));
    assert!(!test_if_unmodified(&unmodified(OLD_DATE), &parse));
    assert!(test_if_modified(&modified(OLD_DATE), &parse));
    assert!(!test_if_modified(&modified(LAST_MODIFIED_DATE), &parse));
    let r = request(no_headers());
    assert!(test_if_match(&r, WEAK_ETAG, true, &ignore));
    assert!(!test_if_match(&r, WEAK_ETAG, false, &ignore));
    assert!(unmodified_since(&r, LAST_MODIFIED));
    assert!(!unmodified_since(&r, LAST_MODIFIED - 1));
    assert!(!modified_since(&r, LAST_MODIFIED));
    assert!(modified_since(&r, LAST_MODIFIED + 1));
}

#[test]
fn under_before_the_dates_ask_opposite_questions() {
    let mut r = request(no_headers());
    for setting in [NGX_HTTP_IMS_BEFORE, 9] {
        r.if_modified_since = Some(setting);
        for date in [-1, 0, LAST_MODIFIED - 1, LAST_MODIFIED, LAST_MODIFIED + 1] {
            assert_eq!(modified_since(&r, date), !unmodified_since(&r, date));
        }
    }
}

#[test]
fn only_comparisons_that_are_made_are_noted() {
    let noted: RefCell<Vec<(Vec<u8>, Vec<u8>)>> = RefCell::new(Vec::new());
    let note = |list: &[u8], tag: &[u8]| {
        noted.borrow_mut().push((list.to_vec(), tag.to_vec()));
    };
    let noted_on = |mut r: Request<'_>| {
        noted.borrow_mut().clear();
        ngx_http_not_modified_header_filter(&mut r, &parse, &note);
        noted.borrow().clone()
    };
    let both = |date| {
        request(HeadersIn {
            if_modified_since: date,
            if_match: Some(ETAG),
            if_none_match: Some(WEAK_ETAG),
            ..no_headers()
        })
    };
    let first = (ETAG.to_vec(), ETAG.to_vec());
    let second = (WEAK_ETAG.to_vec(), ETAG.to_vec());

    assert_eq!(noted_on(both(None)), [first.clone(), second.clone()]);
    assert_eq!(noted_on(both(Some(LAST_MODIFIED_DATE))), [first.clone(), second]);
    assert_eq!(noted_on(both(Some(OLD_DATE))), [first]);

    let mut weak = none_match(ETAG);
    weak.headers_out.lines[ETAG_LINE].value = WEAK_ETAG;
    assert_eq!(noted_on(weak), [(ETAG.to_vec(), WEAK_ETAG.to_vec())]);

    let mut refused = both(None);
    refused.headers_in.if_unmodified_since = Some(OLD_DATE);
    assert!(noted_on(refused).is_empty());
    let mut converted = none_match(ETAG);
    converted.headers_out.status = 304;
    assert!(noted_on(converted).is_empty());
    assert!(noted_on(none_match(b"*")).is_empty());
    let mut untagged = none_match(ETAG);
    untagged.headers_out.etag = None;
    assert!(noted_on(untagged).is_empty());
}

#[test]
fn lines_may_share_a_slot() {
    let mut r = none_match(ETAG);
    r.headers_out.accept_ranges = Some(CONTENT_LENGTH);
    r.headers_out.etag = Some(CONTENT_LENGTH);
    r.headers_out.lines[CONTENT_LENGTH].value = ETAG;
    ngx_http_not_modified_header_filter(&mut r, &parse, &ignore);
    assert_eq!(r.headers_out.status, 304);
    assert_eq!(hashes(&r), [1, 0, 1, 0, 1]);
    assert_eq!(r.headers_out.etag, Some(CONTENT_LENGTH));
}

#[test]
fn clearing_the_length_touches_nothing_else() {
    let mut r = request(no_headers());
    clear_content_length(&mut r);
    assert_eq!(r.headers_out.content_length_n, -1);
    assert_eq!(r.headers_out.content_length, None);
    assert_eq!(r.headers_out.accept_ranges, Some(ACCEPT_RANGES));
    assert!(r.allow_ranges);
    assert_eq!(hashes(&r), [1, 0, 1, 1, 1]);
}

#[test]
fn clearing_the_ranges_touches_nothing_else() {
    let mut r = request(no_headers());
    clear_accept_ranges(&mut r);
    assert!(!r.allow_ranges);
    assert_eq!(r.headers_out.accept_ranges, None);
    assert_eq!(r.headers_out.content_length, Some(CONTENT_LENGTH));
    assert_eq!(r.headers_out.content_length_n, 27);
    assert_eq!(hashes(&r), [1, 1, 0, 1, 1]);
}
