//! The filter field by field: what each part of a request and its response has a
//! say in, and what it says.
//!
//! Numbers are written out here: `-1` stands for no date and for no length, and
//! of the `if_modified_since` settings `0` is `off` and `1` is `exact`.

use vstd::prelude::*;

use crate::etag;
use crate::etag_laws;
use crate::etag_meaning;
use crate::filter;
use crate::filter::{Action, Outcome};
use crate::filter_laws;
use crate::request;
use crate::request::{LineView, Request, RequestView};

verus! {

/// The model of a request is the request: every field, every line and every byte
/// of it, unabridged.
pub proof fn law_model_is_faithful(request: Request<'_>, i: int)
    ensures
        request@.is_main == request.is_main,
        request@.disable_not_modified == request.disable_not_modified,
        request@.allow_ranges == request.allow_ranges,
        request.if_modified_since matches Some(mode) ==> request@.if_modified_since == Some(
            mode as int,
        ),
        request.if_modified_since is None ==> request@.if_modified_since is None,
        request.headers_in.if_modified_since matches Some(v)
            ==> request@.headers_in.if_modified_since == Some(v@),
        request.headers_in.if_modified_since is None ==> request@.headers_in.if_modified_since
            is None,
        request.headers_in.if_unmodified_since matches Some(v)
            ==> request@.headers_in.if_unmodified_since == Some(v@),
        request.headers_in.if_unmodified_since is None ==> request@.headers_in.if_unmodified_since
            is None,
        request.headers_in.if_match matches Some(v) ==> request@.headers_in.if_match == Some(v@),
        request.headers_in.if_match is None ==> request@.headers_in.if_match is None,
        request.headers_in.if_none_match matches Some(v) ==> request@.headers_in.if_none_match
            == Some(v@),
        request.headers_in.if_none_match is None ==> request@.headers_in.if_none_match is None,
        request@.headers_out.lines.len() == request.headers_out.lines@.len(),
        0 <= i < request.headers_out.lines@.len() ==> request@.headers_out.lines[i].hash
            == request.headers_out.lines@[i].hash,
        0 <= i < request.headers_out.lines@.len() ==> request@.headers_out.lines[i].value
            == request.headers_out.lines@[i].value@,
        request.headers_out.content_length matches Some(n) ==> request@.headers_out.content_length
            == Some(n as int),
        request.headers_out.content_length is None ==> request@.headers_out.content_length is None,
        request.headers_out.accept_ranges matches Some(n) ==> request@.headers_out.accept_ranges
            == Some(n as int),
        request.headers_out.accept_ranges is None ==> request@.headers_out.accept_ranges is None,
        request.headers_out.content_encoding matches Some(n)
            ==> request@.headers_out.content_encoding == Some(n as int),
        request.headers_out.content_encoding is None ==> request@.headers_out.content_encoding
            is None,
        request.headers_out.etag matches Some(n) ==> request@.headers_out.etag == Some(n as int),
        request.headers_out.etag is None ==> request@.headers_out.etag is None,
        request@.headers_out.status == request.headers_out.status,
        request@.headers_out.status_line_len == request.headers_out.status_line_len,
        request@.headers_out.content_type_len == request.headers_out.content_type_len,
        request@.headers_out.content_length_n == request.headers_out.content_length_n,
        request@.headers_out.last_modified_time == request.headers_out.last_modified_time,
{
}

/// All that is asked of a request is that a slot which is taken names a line.
pub proof fn law_any_slots_that_name_lines_will_do(request: RequestView)
    ensures
        request.wf() <==> {
            let n = request.headers_out.lines.len();
            &&& request.headers_out.content_length matches Some(i) ==> 0 <= i < n
            &&& request.headers_out.accept_ranges matches Some(i) ==> 0 <= i < n
            &&& request.headers_out.content_encoding matches Some(i) ==> 0 <= i < n
            &&& request.headers_out.etag matches Some(i) ==> 0 <= i < n
        },
{
}

/// A precondition on a date holds if and only if the entity has a date and the
/// client's is not before it, whatever the settings and the other headers are.
pub proof fn law_unmodified_from_own_date_on(request: RequestView, date: int)
    ensures
        request.headers_out.last_modified_time == -1 ==> !request.is_unmodified_since(date),
        request.headers_out.last_modified_time != -1 ==> (request.is_unmodified_since(date)
            <==> date >= request.headers_out.last_modified_time),
{
}

/// A date before the entity's own proves a change under every setting. A date
/// after it does so under `exact` only, of the settings that heed dates; the
/// entity's own date under none of these. Where the entity has no date, or dates
/// are not heeded, every date counts as proof.
pub proof fn law_modified_before_own_date(request: RequestView, date: int)
    ensures
        date < request.headers_out.last_modified_time ==> request.is_modified_since(date),
        request.headers_out.last_modified_time == -1 ==> request.is_modified_since(date),
        request.if_modified_since is None ==> request.is_modified_since(date),
        request.if_modified_since == Some(0int) ==> request.is_modified_since(date),
        request.headers_out.last_modified_time != -1 && request.if_modified_since == Some(1int)
            ==> (request.is_modified_since(date) <==> date
            != request.headers_out.last_modified_time),
        request.headers_out.last_modified_time != -1 && (request.if_modified_since matches Some(
            mode,
        ) && mode != 0 && mode != 1) ==> (request.is_modified_since(date) <==> date
            < request.headers_out.last_modified_time),
{
}

/// Only the distance between the two dates counts: moved together, they give the
/// same answers, as long as the entity keeps a date.
pub proof fn law_dates_move_together(
    request: RequestView,
    moved: RequestView,
    date: int,
    by: int,
)
    requires
        moved.if_modified_since == request.if_modified_since,
        moved.headers_out.last_modified_time == request.headers_out.last_modified_time + by,
        request.headers_out.last_modified_time != -1,
        moved.headers_out.last_modified_time != -1,
    ensures
        moved.is_unmodified_since(date + by) == request.is_unmodified_since(date),
        moved.is_modified_since(date + by) == request.is_modified_since(date),
{
}

/// What is compared with a list is the whole value of the line that the `etag`
/// slot names, under weak comparison without a `W/` in front of something. The
/// one list that needs no comparison is the single byte `*`.
pub proof fn law_whole_etag_line_is_compared(
    request: RequestView,
    i: int,
    list: Seq<u8>,
    weak: bool,
)
    requires
        request.wf(),
        request.headers_out.etag == Some(i),
    ensures
        !weak || !(request.headers_out.lines[i].value.len() > 2
            && request.headers_out.lines[i].value[0] == 0x57
            && request.headers_out.lines[i].value[1] == 0x2f) ==> (request.is_matched_by(list, weak)
            <==> list == seq![0x2au8] || etag::list_contains(
            list,
            request.headers_out.lines[i].value,
            weak,
        )),
        weak && request.headers_out.lines[i].value.len() > 2
            && request.headers_out.lines[i].value[0] == 0x57
            && request.headers_out.lines[i].value[1] == 0x2f ==> (request.is_matched_by(list, weak)
            <==> list == seq![0x2au8] || etag::list_contains(
            list,
            request.headers_out.lines[i].value.skip(2),
            weak,
        )),
{
}

/// An entity without an `ETag` line is matched by the single byte `*` alone.
pub proof fn law_no_etag_line_no_match(request: RequestView, list: Seq<u8>, weak: bool)
    requires
        request.headers_out.etag is None,
    ensures
        request.is_matched_by(list, weak) <==> list == seq![0x2au8],
{
}

/// The value of the `ETag` line, sent back as a list, matches the entity, under
/// either comparison.
pub proof fn law_etag_line_sent_back_matches(request: RequestView, i: int, weak: bool)
    requires
        request.wf(),
        request.headers_out.etag == Some(i),
        request.headers_out.lines[i].value.len() > 0,
    ensures
        request.is_matched_by(request.headers_out.lines[i].value, weak),
        !(request.headers_out.lines[i].value.len() > 2 && request.headers_out.lines[i].value[0]
            == 0x57 && request.headers_out.lines[i].value[1] == 0x2f) ==> request.is_matched_by(
            seq![0x57u8, 0x2fu8] + request.headers_out.lines[i].value,
            true,
        ),
{
    let tag = request.headers_out.lines[i].value;
    etag_laws::law_tag_matches_itself(tag, weak);
    etag_meaning::law_unmarked_tag_matches_itself(tag, true);
    filter_laws::law_own_tag_matches(request, tag, weak);
}

/// One other tag, neither of the two with a marker, a comma, or a blank at its
/// end, does not match the entity.
pub proof fn law_another_tag_does_not_match(
    request: RequestView,
    i: int,
    list: Seq<u8>,
    weak: bool,
)
    requires
        request.wf(),
        request.headers_out.etag == Some(i),
        list != request.headers_out.lines[i].value,
        list != seq![0x2au8],
        list.len() > 0,
        forall|k: int| 0 <= k < list.len() ==> #[trigger] list[k] != 0x2c,
        list.last() != 0x20 && list.last() != 0x09,
        !(list.len() > 2 && list[0] == 0x57 && list[1] == 0x2f),
        request.headers_out.lines[i].value.len() > 0,
        forall|k: int|
            0 <= k < request.headers_out.lines[i].value.len()
                ==> #[trigger] request.headers_out.lines[i].value[k] != 0x2c,
        request.headers_out.lines[i].value.last() != 0x20,
        request.headers_out.lines[i].value.last() != 0x09,
        !(request.headers_out.lines[i].value.len() > 2 && request.headers_out.lines[i].value[0]
            == 0x57 && request.headers_out.lines[i].value[1] == 0x2f),
    ensures
        !request.is_matched_by(list, weak),
{
    etag_meaning::law_one_entry_is_one_tag(list, request.headers_out.lines[i].value, weak);
}

/// A request is refused if and only if it is a main request with status 200 whose
/// handler has not opted out, and `If-Unmodified-Since` gives a date before the
/// entity's, or the entity has none, or `If-Match` does not match.
pub proof fn law_which_requests_are_refused(request: RequestView, iums: int, ims: int)
    ensures
        request.outcome(iums, ims) is PreconditionFailed <==> {
            &&& request.headers_out.status == 200
            &&& request.is_main
            &&& !request.disable_not_modified
            &&& {
                ||| request.headers_in.if_unmodified_since is Some && (
                request.headers_out.last_modified_time == -1 || iums
                    < request.headers_out.last_modified_time)
                ||| request.headers_in.if_match matches Some(list) && !request.is_matched_by(
                    list,
                    false,
                )
            }
        },
{
}

/// A response turns into a 304 if and only if it is the 200 of a main request
/// whose handler has not opted out, the request is not refused, it carries
/// `If-Modified-Since` or `If-None-Match`, and each of the two that it carries
/// finds the entity unchanged.
pub proof fn law_which_responses_turn_not_modified(request: RequestView, iums: int, ims: int)
    ensures
        request.outcome(iums, ims) is NotModified <==> {
            let lm = request.headers_out.last_modified_time;
            &&& request.headers_out.status == 200
            &&& request.is_main
            &&& !request.disable_not_modified
            &&& request.headers_in.if_unmodified_since is Some ==> lm != -1 && iums >= lm
            &&& request.headers_in.if_match matches Some(list) ==> request.is_matched_by(
                list,
                false,
            )
            &&& request.headers_in.if_modified_since is Some
                || request.headers_in.if_none_match is Some
            &&& request.headers_in.if_modified_since is Some ==> {
                &&& lm != -1
                &&& request.if_modified_since matches Some(mode) && mode != 0 && (ims == lm || mode
                    != 1 && ims > lm)
            }
            &&& request.headers_in.if_none_match matches Some(list) ==> request.is_matched_by(
                list,
                true,
            )
        },
{
}

/// The status, the kind of request, the opt-out, the conditional headers, the
/// setting, the entity's date and its tag decide; no other part of the request or
/// of the response has a say.
pub proof fn law_nothing_else_has_a_say(
    request: RequestView,
    other: RequestView,
    i: int,
    j: int,
    iums: int,
    ims: int,
)
    requires
        other.is_main == request.is_main,
        other.disable_not_modified == request.disable_not_modified,
        other.if_modified_since == request.if_modified_since,
        other.headers_in == request.headers_in,
        other.headers_out.status == request.headers_out.status,
        other.headers_out.last_modified_time == request.headers_out.last_modified_time,
        request.headers_out.etag is None && other.headers_out.etag is None || (
        request.headers_out.etag == Some(i) && other.headers_out.etag == Some(j)
            && other.headers_out.lines[j].value == request.headers_out.lines[i].value),
    ensures
        other.outcome(iums, ims) == request.outcome(iums, ims),
{
}

/// A request that is refused is finalized with status 412; every other one goes
/// to the next filter.
pub proof fn law_refused_means_412(outcome: Outcome)
    ensures
        outcome is PreconditionFailed ==> outcome.action() == Action::Finalize(412),
        outcome is NotModified ==> outcome.action() == Action::NextFilter,
        outcome is Unchanged ==> outcome.action() == Action::NextFilter,
{
}

/// Unless a response turns into a 304, nothing of it or of its request changes;
/// if it does, its status is 304, and nothing of the request does.
pub proof fn law_only_a_304_changes_anything(outcome: Outcome, request: RequestView)
    ensures
        outcome is PreconditionFailed ==> outcome.applied_to(request) == request,
        outcome is Unchanged ==> outcome.applied_to(request) == request,
        outcome is NotModified ==> outcome.applied_to(request).headers_out.status == 304,
        outcome is NotModified ==> outcome.applied_to(request) == request.not_modified(),
        outcome.applied_to(request).headers_in == request.headers_in,
{
}

/// What is left of a response that turns into a 304: no status line, type,
/// length, ranges or coding; of the header lines, each as it was, but for those
/// that announce a length, ranges or a coding, which are not sent.
pub proof fn law_what_a_304_keeps(request: RequestView, i: int)
    requires
        request.wf(),
    ensures
        request.not_modified().headers_out.status == 304,
        request.not_modified().headers_out.status_line_len == 0,
        request.not_modified().headers_out.content_type_len == 0,
        request.not_modified().headers_out.content_length_n == -1,
        request.not_modified().headers_out.content_length is None,
        request.not_modified().headers_out.accept_ranges is None,
        request.not_modified().headers_out.content_encoding is None,
        request.not_modified().headers_out.etag == request.headers_out.etag,
        request.not_modified().headers_out.last_modified_time
            == request.headers_out.last_modified_time,
        request.not_modified().headers_in == request.headers_in,
        request.not_modified().is_main == request.is_main,
        request.not_modified().disable_not_modified == request.disable_not_modified,
        request.not_modified().if_modified_since == request.if_modified_since,
        !request.not_modified().allow_ranges,
        request.not_modified().headers_out.lines.len() == request.headers_out.lines.len(),
        0 <= i < request.headers_out.lines.len() ==> request.not_modified().headers_out.lines[i].value
            == request.headers_out.lines[i].value,
        0 <= i < request.headers_out.lines.len() && (request.headers_out.content_length == Some(i)
            || request.headers_out.accept_ranges == Some(i) || request.headers_out.content_encoding
            == Some(i)) ==> request.not_modified().headers_out.lines[i].hash == 0,
        0 <= i < request.headers_out.lines.len() && request.headers_out.content_length != Some(i)
            && request.headers_out.accept_ranges != Some(i) && request.headers_out.content_encoding
            != Some(i) ==> request.not_modified().headers_out.lines[i]
            == request.headers_out.lines[i],
{
}

/// Withdrawing the length sets the number to `-1`, empties the slot and keeps its
/// line from being sent; it leaves everything else as it was.
pub proof fn law_what_clearing_the_length_keeps(request: RequestView, i: int)
    requires
        request.wf(),
    ensures
        request.without_content_length().headers_out.content_length_n == -1,
        request.without_content_length().headers_out.content_length is None,
        request.without_content_length().headers_out.accept_ranges
            == request.headers_out.accept_ranges,
        request.without_content_length().headers_out.content_encoding
            == request.headers_out.content_encoding,
        request.without_content_length().headers_out.etag == request.headers_out.etag,
        request.without_content_length().headers_out.status == request.headers_out.status,
        request.without_content_length().headers_out.status_line_len
            == request.headers_out.status_line_len,
        request.without_content_length().headers_out.content_type_len
            == request.headers_out.content_type_len,
        request.without_content_length().headers_out.last_modified_time
            == request.headers_out.last_modified_time,
        request.without_content_length().headers_in == request.headers_in,
        request.without_content_length().is_main == request.is_main,
        request.without_content_length().disable_not_modified == request.disable_not_modified,
        request.without_content_length().allow_ranges == request.allow_ranges,
        request.without_content_length().if_modified_since == request.if_modified_since,
        request.without_content_length().headers_out.lines.len() == request.headers_out.lines.len(),
        0 <= i < request.headers_out.lines.len() && request.headers_out.content_length != Some(i)
            ==> request.without_content_length().headers_out.lines[i]
            == request.headers_out.lines[i],
        request.headers_out.content_length == Some(i)
            ==> request.without_content_length().headers_out.lines[i] == (LineView {
            hash: 0,
            value: request.headers_out.lines[i].value,
        }),
{
}

/// Withdrawing the offer of ranges clears the flag, empties the slot and keeps its
/// line from being sent; it leaves everything else as it was.
pub proof fn law_what_clearing_the_ranges_keeps(request: RequestView, i: int)
    requires
        request.wf(),
    ensures
        !request.without_accept_ranges().allow_ranges,
        request.without_accept_ranges().headers_out.accept_ranges is None,
        request.without_accept_ranges().headers_out.content_length
            == request.headers_out.content_length,
        request.without_accept_ranges().headers_out.content_length_n
            == request.headers_out.content_length_n,
        request.without_accept_ranges().headers_out.content_encoding
            == request.headers_out.content_encoding,
        request.without_accept_ranges().headers_out.etag == request.headers_out.etag,
        request.without_accept_ranges().headers_out.status == request.headers_out.status,
        request.without_accept_ranges().headers_out.status_line_len
            == request.headers_out.status_line_len,
        request.without_accept_ranges().headers_out.content_type_len
            == request.headers_out.content_type_len,
        request.without_accept_ranges().headers_out.last_modified_time
            == request.headers_out.last_modified_time,
        request.without_accept_ranges().headers_in == request.headers_in,
        request.without_accept_ranges().is_main == request.is_main,
        request.without_accept_ranges().disable_not_modified == request.disable_not_modified,
        request.without_accept_ranges().if_modified_since == request.if_modified_since,
        request.without_accept_ranges().headers_out.lines.len() == request.headers_out.lines.len(),
        0 <= i < request.headers_out.lines.len() && request.headers_out.accept_ranges != Some(i)
            ==> request.without_accept_ranges().headers_out.lines[i] == request.headers_out.lines[i],
        request.headers_out.accept_ranges == Some(i)
            ==> request.without_accept_ranges().headers_out.lines[i] == (LineView {
            hash: 0,
            value: request.headers_out.lines[i].value,
        }),
{
}

/// The numbers that are not written out elsewhere: those of HTTP and of nginx.
pub proof fn law_numbers_are_those_of_http_and_nginx()
    ensures
        request::NGX_HTTP_OK == 200,
        request::NGX_HTTP_NOT_MODIFIED == 304,
        request::NGX_HTTP_PRECONDITION_FAILED == 412,
        request::NGX_HTTP_IMS_OFF == 0,
        request::NGX_HTTP_IMS_EXACT == 1,
        request::NGX_HTTP_IMS_BEFORE == 2,
        request::NO_TIME == -1,
        request::NO_LENGTH == -1,
{
}

/// A time that decides is what the parser makes of the whole value of its own
/// header: of `If-Unmodified-Since` wherever a candidate with a date carries one,
/// of `If-Modified-Since` wherever, besides, nothing has refused the request and
/// the setting heeds dates.
pub proof fn law_dates_come_from_their_headers<P: Fn(&[u8]) -> i64>(
    request: Request<'_>,
    parse_http_time: &P,
    iums: i64,
    ims: i64,
)
    requires
        filter::dates_read(request, parse_http_time, iums, ims),
        request.headers_out.status == 200,
        request.is_main,
        !request.disable_not_modified,
        request.headers_out.last_modified_time != -1,
    ensures
        request.headers_in.if_unmodified_since matches Some(value) ==> parse_http_time.ensures(
            (value,),
            iums,
        ),
        (request.headers_in.if_unmodified_since is Some ==> iums
            >= request.headers_out.last_modified_time) && (
        request.headers_in.if_match matches Some(list) ==> request@.is_matched_by(list@, false))
            && (request.if_modified_since matches Some(mode) && mode != 0) ==> (
        request.headers_in.if_modified_since matches Some(value) ==> parse_http_time.ensures(
            (value,),
            ims,
        )),
{
}

/// A parser need not take anything but the values of the date headers of a
/// candidate with a date: `If-Unmodified-Since`, and, where nothing can have
/// refused the request and the setting heeds dates, `If-Modified-Since`.
pub proof fn law_parser_may_refuse_all_else<P: Fn(&[u8]) -> i64>(
    request: Request<'_>,
    parse_http_time: &P,
)
    requires
        request.headers_out.status == 200 && request.is_main && !request.disable_not_modified
            && request.headers_out.last_modified_time != -1 ==> (
        request.headers_in.if_unmodified_since matches Some(value) ==> parse_http_time.requires(
            (value,),
        )),
        request.headers_out.status == 200 && request.is_main && !request.disable_not_modified
            && request.headers_out.last_modified_time != -1 && (
        request.headers_in.if_match matches Some(list) ==> request@.is_matched_by(list@, false))
            && (request.if_modified_since matches Some(mode) && mode != 0) ==> (
        request.headers_in.if_modified_since matches Some(value) ==> parse_http_time.requires(
            (value,),
        )),
    ensures
        filter::takes_needed_dates(request, parse_http_time),
{
}

/// What is noted of a comparison is the whole list and the whole value of the
/// `ETag` line: of `If-Match` wherever no date has refused a candidate, of
/// `If-None-Match` wherever nothing has, and no date has proved a change; and
/// neither for the list `*`.
pub proof fn law_comparisons_are_noted_in_full<N: Fn(&[u8], &[u8])>(
    request: Request<'_>,
    note: &N,
    i: usize,
    iums: i64,
    ims: i64,
)
    requires
        filter::comparisons_noted(request, note, iums, ims),
        request.headers_out.status == 200,
        request.is_main,
        !request.disable_not_modified,
        request.headers_out.etag == Some(i),
        request.headers_in.if_unmodified_since is Some ==> request.headers_out.last_modified_time
            != -1 && iums >= request.headers_out.last_modified_time,
    ensures
        request.headers_in.if_match matches Some(list) ==> (list@ != seq![0x2au8]
            ==> note.ensures((list, request.headers_out.lines@[i as int].value), ())),
        (request.headers_in.if_match matches Some(list) ==> request@.is_matched_by(list@, false))
            && (request.headers_in.if_modified_since is Some ==> !request@.is_modified_since(
            ims as int,
        )) ==> (request.headers_in.if_none_match matches Some(list) ==> (list@ != seq![0x2au8]
            ==> note.ensures((list, request.headers_out.lines@[i as int].value), ()))),
{
}

/// Nothing need be noted but a list other than `*` of a candidate whose entity has
/// a tag, together with the whole value of the `ETag` line.
pub proof fn law_notes_may_refuse_all_else<N: Fn(&[u8], &[u8])>(request: Request<'_>, note: &N)
    requires
        forall|list: &[u8], i: usize|
            request.headers_out.status == 200 && request.is_main && !request.disable_not_modified
                && list@ != seq![0x2au8] && request.headers_out.etag == Some(i) && (
            request.headers_in.if_match == Some(list) || request.headers_in.if_none_match == Some(
                list,
            )) ==> #[trigger] note.requires((list, request.headers_out.lines@[i as int].value)),
    ensures
        filter::takes_comparisons(request, note),
{
    if request.headers_out.etag is Some {
        let i = request.headers_out.etag.unwrap();
        let tag = request.headers_out.lines@[i as int].value;
        assert forall|iums: int| #[trigger]
            request@.compares_if_match(iums) implies note.requires(
            (request.headers_in.if_match.unwrap(), filter::tag_of(request)),
        ) by {
            assert(note.requires((request.headers_in.if_match.unwrap(), tag)));
        }
        assert forall|iums: int, ims: int| #[trigger]
            request@.compares_if_none_match(iums, ims) implies note.requires(
            (request.headers_in.if_none_match.unwrap(), filter::tag_of(request)),
        ) by {
            assert(note.requires((request.headers_in.if_none_match.unwrap(), tag)));
        }
    }
}

/// A client that sends back the `ETag` line of a plain response gets a 304, or has
/// its precondition met, whatever else the response carries.
pub proof fn law_etag_line_sent_back_decides(
    request: Request<'_>,
    i: usize,
    list: &[u8],
    iums: i64,
    ims: i64,
)
    requires
        request@.wf(),
        request.headers_out.status == 200,
        request.is_main,
        !request.disable_not_modified,
        request.headers_out.etag == Some(i),
        list@ == request.headers_out.lines@[i as int].value@,
        list@.len() > 0,
        request.headers_in.if_unmodified_since is None,
        request.headers_in.if_modified_since is None,
    ensures
        request.headers_in.if_match is None && request.headers_in.if_none_match == Some(list)
            ==> request@.outcome(iums as int, ims as int) is NotModified,
        request.headers_in.if_match == Some(list) && request.headers_in.if_none_match is None
            ==> request@.outcome(iums as int, ims as int) is Unchanged,
        request.headers_in.if_match == Some(list) && request.headers_in.if_none_match == Some(list)
            ==> request@.outcome(iums as int, ims as int) is NotModified,
{
    law_model_is_faithful(request, i as int);
    law_etag_line_sent_back_matches(request@, i as int, true);
    law_etag_line_sent_back_matches(request@, i as int, false);
}

/// A date decides on its own, where it is the only condition of a plain response
/// that has a date: before the entity's it refuses the request, or has the
/// response sent; at the entity's it lets the request pass, or spares the entity.
pub proof fn law_date_decides(request: Request<'_>, iums: i64, ims: i64)
    requires
        request.headers_out.status == 200,
        request.is_main,
        !request.disable_not_modified,
        request.headers_out.last_modified_time != -1,
        request.headers_in.if_match is None,
        request.headers_in.if_none_match is None,
    ensures
        request.headers_in.if_unmodified_since is Some && iums
            < request.headers_out.last_modified_time ==> request@.outcome(iums as int, ims as int)
            is PreconditionFailed,
        request.headers_in.if_unmodified_since is Some && iums
            >= request.headers_out.last_modified_time && request.headers_in.if_modified_since
            is None ==> request@.outcome(iums as int, ims as int) is Unchanged,
        request.headers_in.if_unmodified_since is None && request.headers_in.if_modified_since
            is Some && ims < request.headers_out.last_modified_time ==> request@.outcome(
            iums as int,
            ims as int,
        ) is Unchanged,
        request.headers_in.if_unmodified_since is None && request.headers_in.if_modified_since
            is Some && ims == request.headers_out.last_modified_time && (
        request.if_modified_since matches Some(mode) && mode != 0) ==> request@.outcome(
            iums as int,
            ims as int,
        ) is NotModified,
{
    law_model_is_faithful(request, 0);
}

} // verus!
