//! What holds of the filter as a whole.

use vstd::prelude::*;

use crate::etag;
use crate::etag_laws;
use crate::filter::{Outcome, STAR};
use crate::request::{
    RequestView, NGX_HTTP_IMS_EXACT, NGX_HTTP_IMS_OFF, NGX_HTTP_NOT_MODIFIED, NO_LENGTH,
    NO_TIME,
};

verus! {

impl RequestView {
    /// The request carries no precondition that could refuse it.
    pub open spec fn has_no_preconditions(self) -> bool {
        self.headers_in.if_unmodified_since is None && self.headers_in.if_match is None
    }

    /// Every precondition that the request carries holds.
    pub open spec fn meets_preconditions(self, iums: int) -> bool {
        self.if_unmodified_since_holds(iums) && self.if_match_holds()
    }

    /// `If-None-Match`, where present, does not prove a change.
    pub open spec fn if_none_match_spares(self) -> bool {
        self.headers_in.if_none_match matches Some(list) ==> self.is_matched_by(list, true)
    }

    /// `If-Modified-Since`, where present, does not prove a change.
    pub open spec fn if_modified_since_spares(self, ims: int) -> bool {
        self.headers_in.if_modified_since is Some ==> !self.is_modified_since(ims)
    }

    /// Line `i` of the response header describes the body that a `304` goes
    /// without.
    pub open spec fn describes_body(self, i: int) -> bool {
        ||| self.headers_out.content_length == Some(i)
        ||| self.headers_out.accept_ranges == Some(i)
        ||| self.headers_out.content_encoding == Some(i)
    }

    /// The same request under another `if_modified_since` setting.
    pub open spec fn with_mode(self, mode: int) -> RequestView {
        RequestView { if_modified_since: Some(mode), ..self }
    }
}

/// A request without any conditional header gets its response as it is.
pub proof fn law_plain_request_is_unchanged(request: RequestView, iums: int, ims: int)
    requires
        request.has_no_preconditions(),
        !request.asks_for_changes_only(),
    ensures
        request.outcome(iums, ims) is Unchanged,
{
}

/// Only a plain `200` of a main request whose handler has not opted out is ever
/// turned into something else, and only where the request carries a condition.
pub proof fn law_only_conditional_candidates_change(request: RequestView, iums: int, ims: int)
    requires
        !(request.outcome(iums, ims) is Unchanged),
    ensures
        request.is_candidate(),
        !request.has_no_preconditions() || request.asks_for_changes_only(),
        request.outcome(iums, ims) is PreconditionFailed ==> !request.has_no_preconditions(),
        request.outcome(iums, ims) is NotModified ==> request.asks_for_changes_only(),
{
}

/// A precondition that fails refuses a candidate outright, whatever the other
/// headers say; and nothing else does.
pub proof fn law_refused_if_and_only_if_a_precondition_fails(
    request: RequestView,
    iums: int,
    ims: int,
)
    ensures
        request.outcome(iums, ims) is PreconditionFailed <==> request.is_candidate() && {
            ||| request.headers_in.if_unmodified_since is Some && !request.is_unmodified_since(iums)
            ||| request.headers_in.if_match matches Some(list) && !request.is_matched_by(
                list,
                false,
            )
        },
{
}

/// Either of `If-Modified-Since` and `If-None-Match` alone is enough to prove
/// that the entity did change; it takes all that are there to spare it.
pub proof fn law_either_header_proves_change(request: RequestView, iums: int, ims: int)
    requires
        request.is_candidate(),
        request.meets_preconditions(iums),
        request.asks_for_changes_only(),
    ensures
        request.outcome(iums, ims) is Unchanged <==> {
            ||| request.headers_in.if_modified_since is Some && request.is_modified_since(ims)
            ||| request.headers_in.if_none_match matches Some(list) && !request.is_matched_by(
                list,
                true,
            )
        },
        request.outcome(iums, ims) is NotModified <==> request.if_modified_since_spares(ims)
            && request.if_none_match_spares(),
{
}

/// A date that is not read has no say in the outcome.
pub proof fn law_unread_dates_do_not_matter(
    request: RequestView,
    iums: int,
    ims: int,
    other_iums: int,
    other_ims: int,
)
    requires
        request.reads_if_unmodified_since() ==> iums == other_iums,
        request.reads_if_modified_since(iums) ==> ims == other_ims,
    ensures
        request.outcome(iums, ims) == request.outcome(other_iums, other_ims),
{
}

/// A response that was turned into a `304` is left alone from then on: the
/// filter, met again, sends it as it is, and neither reads a date nor compares a
/// tag.
pub proof fn law_not_modified_is_settled(request: RequestView, iums: int, ims: int)
    ensures
        request.not_modified().outcome(iums, ims) is Unchanged,
        !request.not_modified().reads_if_unmodified_since(),
        !request.not_modified().reads_if_modified_since(iums),
        !request.not_modified().compares_if_match(iums),
        !request.not_modified().compares_if_none_match(iums, ims),
{
}

/// Turning a response into a `304` empties what announces a body, hides the
/// lines that describe one, and keeps every other line, the entity tag and the
/// date among them, and all of the request.
pub proof fn law_not_modified_keeps_the_rest(request: RequestView)
    requires
        request.wf(),
    ensures
        request.not_modified().wf(),
        request.not_modified().headers_out.status == NGX_HTTP_NOT_MODIFIED,
        request.not_modified().headers_out.status_line_len == 0,
        request.not_modified().headers_out.content_type_len == 0,
        request.not_modified().headers_out.content_length_n == NO_LENGTH,
        request.not_modified().headers_out.content_length is None,
        request.not_modified().headers_out.accept_ranges is None,
        request.not_modified().headers_out.content_encoding is None,
        !request.not_modified().allow_ranges,
        request.not_modified().headers_out.lines.len() == request.headers_out.lines.len(),
        forall|i: int|
            0 <= i < request.headers_out.lines.len() ==> {
                let kept = #[trigger] request.not_modified().headers_out.lines[i];
                &&& kept.value == request.headers_out.lines[i].value
                &&& request.describes_body(i) ==> kept.hash == 0
                &&& !request.describes_body(i) ==> kept.hash == request.headers_out.lines[i].hash
            },
        request.not_modified().headers_out.etag == request.headers_out.etag,
        request.not_modified().headers_out.etag_value() == request.headers_out.etag_value(),
        request.not_modified().headers_out.last_modified_time
            == request.headers_out.last_modified_time,
        request.not_modified().headers_in == request.headers_in,
        request.not_modified().is_main == request.is_main,
        request.not_modified().disable_not_modified == request.disable_not_modified,
        request.not_modified().if_modified_since == request.if_modified_since,
{
}

/// Stripping a response that is stripped already changes nothing.
pub proof fn law_stripping_twice_is_stripping_once(request: RequestView)
    ensures
        request.not_modified().not_modified() == request.not_modified(),
{
    assert(request.not_modified().not_modified() =~= request.not_modified());
}

/// A client that knows the entity's own date has its precondition on that date
/// met, and is spared the entity, as far as the other headers agree.
pub proof fn law_own_date_is_recognised(request: RequestView, iums: int)
    requires
        request.headers_out.last_modified_time != NO_TIME,
    ensures
        request.is_unmodified_since(request.headers_out.last_modified_time),
        request.heeds_if_modified_since() ==> !request.is_modified_since(
            request.headers_out.last_modified_time,
        ),
        request.is_candidate() && request.meets_preconditions(iums)
            && request.headers_in.if_modified_since is Some && request.heeds_if_modified_since()
            && request.if_none_match_spares() ==> request.outcome(
            iums,
            request.headers_out.last_modified_time,
        ) is NotModified,
{
}

/// A precondition that holds at a date holds at every later one. Under any
/// setting but `exact`, a date that spares the entity does so at every later one.
pub proof fn law_later_dates_keep_unmodified(request: RequestView, date: int, later: int)
    requires
        date <= later,
    ensures
        request.is_unmodified_since(date) ==> request.is_unmodified_since(later),
        request.if_modified_since != Some(NGX_HTTP_IMS_EXACT as int)
            && !request.is_modified_since(date) ==> !request.is_modified_since(later),
{
}

/// Under `exact`, no date but the entity's own spares the entity.
pub proof fn law_exact_takes_one_date(request: RequestView, date: int)
    requires
        request.headers_out.last_modified_time != NO_TIME,
    ensures
        request.with_mode(NGX_HTTP_IMS_EXACT as int).is_modified_since(date) <==> date
            != request.headers_out.last_modified_time,
{
}

/// What has changed under any setting but `off` has changed under `exact`.
pub proof fn law_exact_is_strictest(request: RequestView, mode: int, date: int)
    requires
        mode != NGX_HTTP_IMS_OFF,
    ensures
        request.with_mode(mode).is_modified_since(date)
            ==> request.with_mode(NGX_HTTP_IMS_EXACT as int).is_modified_since(date),
{
}

/// Under any setting but `off` and `exact` the two dates ask opposite questions.
pub proof fn law_modified_is_not_unmodified(request: RequestView, date: int)
    requires
        request.if_modified_since matches Some(mode) && mode != NGX_HTTP_IMS_OFF && mode
            != NGX_HTTP_IMS_EXACT,
    ensures
        request.is_modified_since(date) <==> !request.is_unmodified_since(date),
{
}

/// A date that cannot be read comes out as `-1`. Such a date refuses the request
/// where it is a precondition, and spares no entity, unless the entity is dated
/// even before it; under `exact` it spares none at all.
pub proof fn law_unreadable_date_is_never_met(request: RequestView)
    ensures
        request.is_unmodified_since(NO_TIME as int) <==> request.headers_out.last_modified_time
            < NO_TIME,
        request.headers_out.last_modified_time >= NO_TIME ==> request.is_modified_since(
            NO_TIME as int,
        ),
        request.if_modified_since == Some(NGX_HTTP_IMS_EXACT as int) ==> request.is_modified_since(
            NO_TIME as int,
        ),
{
}

/// `*` matches every entity, tagged or not; an entity without a tag is matched by
/// nothing else.
pub proof fn law_star_matches_everything(request: RequestView, list: Seq<u8>, weak: bool)
    ensures
        request.is_matched_by(seq![STAR], weak),
        request.headers_out.etag is None ==> (request.is_matched_by(list, weak) <==> list
            == seq![STAR]),
{
}

/// The entity's own tag matches it, under either comparison.
pub proof fn law_own_tag_matches(request: RequestView, tag: Seq<u8>, weak: bool)
    requires
        request.headers_out.etag_value() == Some(tag),
        tag.len() > 0,
    ensures
        request.is_matched_by(tag, weak),
{
    etag_laws::law_tag_matches_itself(tag, weak);
}

/// The entity's own tag, marked as weak, matches it under weak comparison. A tag
/// that is weak itself is left out: it would be marked twice.
pub proof fn law_own_tag_marked_weak_matches_weakly(request: RequestView, tag: Seq<u8>)
    requires
        request.headers_out.etag_value() == Some(tag),
        tag.len() > 0,
        !etag::has_weak_marker(tag),
    ensures
        request.is_matched_by(etag_laws::weak_marker() + tag, true),
{
    etag_laws::law_marked_entry_matches_weakly(tag);
}

/// A client that knows the entity's own tag is spared the entity, or has its
/// precondition met, as far as the other headers agree.
pub proof fn law_own_tag_is_recognised(request: RequestView, tag: Seq<u8>, iums: int, ims: int)
    requires
        request.is_candidate(),
        request.headers_out.etag_value() == Some(tag),
        tag.len() > 0,
        request.if_unmodified_since_holds(iums),
    ensures
        request.headers_in.if_none_match == Some(tag) && request.if_match_holds()
            && request.if_modified_since_spares(ims) ==> request.outcome(iums, ims) is NotModified,
        request.headers_in.if_match == Some(tag) ==> !(request.outcome(
            iums,
            ims,
        ) is PreconditionFailed),
        request.headers_in.if_match == Some(tag) && !request.asks_for_changes_only()
            ==> request.outcome(iums, ims) is Unchanged,
{
    law_own_tag_matches(request, tag, true);
    law_own_tag_matches(request, tag, false);
}

/// A list of tags matches an entity if and only if the list is `*` or the
/// entity's tag is one of its entries: byte for byte under strong comparison,
/// without the marker on either side under weak comparison.
///
/// Left out are tags that a list would cut short or lengthen.
pub proof fn law_matched_by_one_of_the_entries(
    request: RequestView,
    tag: Seq<u8>,
    entries: Seq<Seq<u8>>,
    gaps: Seq<Seq<u8>>,
    weak: bool,
)
    requires
        request.headers_out.etag_value() == Some(tag),
        etag_laws::is_closed(etag::comparable(tag, weak)),
        etag_laws::are_entries(entries),
        gaps.len() == entries.len(),
        etag_laws::are_gaps(gaps),
    ensures
        request.is_matched_by(etag_laws::listed(entries, gaps), weak) <==> {
            ||| etag_laws::listed(entries, gaps) == seq![STAR]
            ||| exists|i: int|
                0 <= i < entries.len() && #[trigger] etag_laws::compared_as(
                    entries,
                    gaps,
                    i,
                    weak,
                ) == etag::comparable(tag, weak)
        },
{
    etag_laws::law_list_contains_its_entries(entries, gaps, etag::comparable(tag, weak), weak);
}

/// A list that meets `If-Match` would meet `If-None-Match` too. An entity whose
/// tag is a bare `W/` is left out.
pub proof fn law_strong_match_is_weak_match(request: RequestView, list: Seq<u8>)
    requires
        request.is_matched_by(list, false),
        request.headers_out.etag_value() != Some(etag_laws::weak_marker()),
    ensures
        request.is_matched_by(list, true),
{
    if list != seq![STAR] {
        let tag = request.headers_out.etag_value().unwrap();
        etag_laws::law_strong_match_is_weak_match(list, tag);
    }
}

} // verus!
