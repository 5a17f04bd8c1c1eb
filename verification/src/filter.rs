//! The header filter: which of three ways a response goes, and what is stripped
//! from one that turns into `304 Not Modified`.

use vstd::prelude::*;

use crate::etag;
use crate::etag::{etag_list_contains, SLASH, UPPER_W};
use crate::request::{
    clear_accept_ranges, clear_content_length, HeadersOutView, Request, RequestView,
    NGX_HTTP_IMS_EXACT, NGX_HTTP_IMS_OFF, NGX_HTTP_NOT_MODIFIED, NGX_HTTP_OK,
    NGX_HTTP_PRECONDITION_FAILED, NO_TIME,
};

verus! {

/// The ASCII asterisk: alone in a list, it stands for every entity.
pub const STAR: u8 = 0x2a;

/// What is to be done with the request once the filter has seen it.
#[derive(Debug, Clone, Copy, PartialEq, Eq, Structural)]
pub enum Action {
    /// Hand it to the next filter of the chain.
    NextFilter,
    /// Finalize it with this status and without a body.
    Finalize(usize),
}

/// The three ways a response can go.
pub enum Outcome {
    /// It is sent as it is.
    Unchanged,
    /// The client has the entity already: a bare `304`.
    NotModified,
    /// A precondition does not hold: `412`.
    PreconditionFailed,
}

impl Outcome {
    /// What is done with the request.
    pub open spec fn action(self) -> Action {
        match self {
            Outcome::PreconditionFailed => Action::Finalize(NGX_HTTP_PRECONDITION_FAILED),
            _ => Action::NextFilter,
        }
    }

    /// What becomes of the request.
    pub open spec fn applied_to(self, request: RequestView) -> RequestView {
        match self {
            Outcome::NotModified => request.not_modified(),
            _ => request,
        }
    }
}

impl RequestView {
    /// Only main requests with a plain `200` whose handler has not opted out are
    /// looked at.
    pub open spec fn is_candidate(self) -> bool {
        &&& self.headers_out.status == NGX_HTTP_OK
        &&& self.is_main
        &&& !self.disable_not_modified
    }

    /// The entity has a date, and `iums` is not before it.
    pub open spec fn is_unmodified_since(self, iums: int) -> bool {
        &&& self.headers_out.last_modified_time != NO_TIME
        &&& iums >= self.headers_out.last_modified_time
    }

    /// A date of the client can say something: the entity has one too, and the
    /// location is set to look at it.
    pub open spec fn heeds_if_modified_since(self) -> bool {
        &&& self.headers_out.last_modified_time != NO_TIME
        &&& self.if_modified_since matches Some(mode) && mode != NGX_HTTP_IMS_OFF
    }

    /// Has the entity changed, as far as `ims` can tell? Without a date, or where
    /// dates are not heeded, it has. The date of the entity itself says no; any
    /// other says yes under `exact`, and an older one always does.
    pub open spec fn is_modified_since(self, ims: int) -> bool {
        ||| !self.heeds_if_modified_since()
        ||| ims < self.headers_out.last_modified_time
        ||| ims != self.headers_out.last_modified_time && self.if_modified_since == Some(
            NGX_HTTP_IMS_EXACT as int,
        )
    }

    /// `list` is `*`, or the entity has a tag and the tag is an entry of `list`.
    pub open spec fn is_matched_by(self, list: Seq<u8>, weak: bool) -> bool {
        ||| list == seq![STAR]
        ||| self.headers_out.etag_value() matches Some(tag) && etag::list_contains(
            list,
            etag::comparable(tag, weak),
            weak,
        )
    }

    /// Whether `list` matches is a matter of comparing tags.
    pub open spec fn compares(self, list: Seq<u8>) -> bool {
        list != seq![STAR] && self.headers_out.etag is Some
    }

    /// `If-Unmodified-Since`, where present, holds at the date `iums`.
    pub open spec fn if_unmodified_since_holds(self, iums: int) -> bool {
        self.headers_in.if_unmodified_since is Some ==> self.is_unmodified_since(iums)
    }

    /// `If-Match`, where present, holds. The comparison is strong.
    pub open spec fn if_match_holds(self) -> bool {
        self.headers_in.if_match matches Some(list) ==> self.is_matched_by(list, false)
    }

    /// The client asks to be spared an entity that it has already.
    pub open spec fn asks_for_changes_only(self) -> bool {
        self.headers_in.if_modified_since is Some || self.headers_in.if_none_match is Some
    }

    /// One of the two headers proves that the entity has changed. `If-None-Match`
    /// compares weakly.
    pub open spec fn is_changed(self, ims: int) -> bool {
        ||| self.headers_in.if_modified_since is Some && self.is_modified_since(ims)
        ||| self.headers_in.if_none_match matches Some(list) && !self.is_matched_by(list, true)
    }

    /// The way the response goes, if `iums` is the date of `If-Unmodified-Since`
    /// and `ims` that of `If-Modified-Since`.
    pub open spec fn outcome(self, iums: int, ims: int) -> Outcome {
        if !self.is_candidate() {
            Outcome::Unchanged
        } else if !self.if_unmodified_since_holds(iums) || !self.if_match_holds() {
            Outcome::PreconditionFailed
        } else if self.asks_for_changes_only() && !self.is_changed(ims) {
            Outcome::NotModified
        } else {
            Outcome::Unchanged
        }
    }

    /// The request once its response is stripped down to a bare `304`.
    pub open spec fn not_modified(self) -> RequestView {
        RequestView {
            headers_out: HeadersOutView {
                status: NGX_HTTP_NOT_MODIFIED as int,
                status_line_len: 0,
                content_type_len: 0,
                ..self.headers_out
            },
            ..self
        }.without_content_length().without_accept_ranges().without_content_encoding()
    }

    /// The date of `If-Unmodified-Since` is needed.
    pub open spec fn reads_if_unmodified_since(self) -> bool {
        &&& self.is_candidate()
        &&& self.headers_in.if_unmodified_since is Some
        &&& self.headers_out.last_modified_time != NO_TIME
    }

    /// The date of `If-Modified-Since` is needed, if that of
    /// `If-Unmodified-Since` is `iums`.
    pub open spec fn reads_if_modified_since(self, iums: int) -> bool {
        &&& self.is_candidate()
        &&& self.if_unmodified_since_holds(iums)
        &&& self.if_match_holds()
        &&& self.headers_in.if_modified_since is Some
        &&& self.heeds_if_modified_since()
    }

    /// The list of `If-Match` is compared with the entity's tag, if the date of
    /// `If-Unmodified-Since` is `iums`.
    pub open spec fn compares_if_match(self, iums: int) -> bool {
        &&& self.is_candidate()
        &&& self.if_unmodified_since_holds(iums)
        &&& self.headers_in.if_match matches Some(list) && self.compares(list)
    }

    /// The list of `If-None-Match` is compared with the entity's tag, if the two
    /// dates are `iums` and `ims`.
    pub open spec fn compares_if_none_match(self, iums: int, ims: int) -> bool {
        &&& self.is_candidate()
        &&& self.if_unmodified_since_holds(iums)
        &&& self.if_match_holds()
        &&& self.headers_in.if_modified_since is Some ==> !self.is_modified_since(ims)
        &&& self.headers_in.if_none_match matches Some(list) && self.compares(list)
    }
}

/// `parse_http_time` can be called on each of the two dates that is needed.
pub open spec fn takes_needed_dates<P: Fn(&[u8]) -> i64>(
    request: Request<'_>,
    parse_http_time: &P,
) -> bool {
    &&& request@.reads_if_unmodified_since() ==> parse_http_time.requires(
        (request.headers_in.if_unmodified_since.unwrap(),),
    )
    &&& forall|iums: int| #[trigger]
        request@.reads_if_modified_since(iums) ==> parse_http_time.requires(
            (request.headers_in.if_modified_since.unwrap(),),
        )
}

/// `iums` and `ims` are what `parse_http_time` makes of the two dates, as far as
/// these are needed.
pub open spec fn dates_read<P: Fn(&[u8]) -> i64>(
    request: Request<'_>,
    parse_http_time: &P,
    iums: i64,
    ims: i64,
) -> bool {
    &&& request@.reads_if_unmodified_since() ==> parse_http_time.ensures(
        (request.headers_in.if_unmodified_since.unwrap(),),
        iums,
    )
    &&& request@.reads_if_modified_since(iums as int) ==> parse_http_time.ensures(
        (request.headers_in.if_modified_since.unwrap(),),
        ims,
    )
}

/// The value of the entity's tag, where it has one.
pub open spec fn tag_of<'a>(request: Request<'a>) -> &'a [u8] {
    request.headers_out.lines@[request.headers_out.etag.unwrap() as int].value
}

/// `note` can be told of each comparison that is made.
pub open spec fn takes_comparisons<N: Fn(&[u8], &[u8])>(request: Request<'_>, note: &N) -> bool {
    &&& forall|iums: int| #[trigger]
        request@.compares_if_match(iums) ==> note.requires(
            (request.headers_in.if_match.unwrap(), tag_of(request)),
        )
    &&& forall|iums: int, ims: int| #[trigger]
        request@.compares_if_none_match(iums, ims) ==> note.requires(
            (request.headers_in.if_none_match.unwrap(), tag_of(request)),
        )
}

/// `note` was told of each comparison that is made if the two dates are `iums` and
/// `ims`.
pub open spec fn comparisons_noted<N: Fn(&[u8], &[u8])>(
    request: Request<'_>,
    note: &N,
    iums: i64,
    ims: i64,
) -> bool {
    &&& request@.compares_if_match(iums as int) ==> note.ensures(
        (request.headers_in.if_match.unwrap(), tag_of(request)),
        (),
    )
    &&& request@.compares_if_none_match(iums as int, ims as int) ==> note.ensures(
        (request.headers_in.if_none_match.unwrap(), tag_of(request)),
        (),
    )
}

/// Is the entity unchanged at the client's date `iums`?
pub fn unmodified_since(request: &Request<'_>, iums: i64) -> (r: bool)
    ensures
        r == request@.is_unmodified_since(iums as int),
        r <==> request.headers_out.last_modified_time != -1 && iums
            >= request.headers_out.last_modified_time,
{
    request.headers_out.last_modified_time != NO_TIME && iums
        >= request.headers_out.last_modified_time
}

/// Has the entity changed, as far as the client's date `ims` can tell?
pub fn modified_since(request: &Request<'_>, ims: i64) -> (r: bool)
    ensures
        r == request@.is_modified_since(ims as int),
        ims < request.headers_out.last_modified_time ==> r,
        !r ==> request.headers_out.last_modified_time != -1 && ims
            >= request.headers_out.last_modified_time,
{
    let lm: i64 = request.headers_out.last_modified_time;
    if lm == NO_TIME {
        return true;
    }
    match request.if_modified_since {
        None => true,
        Some(mode) => {
            if mode == NGX_HTTP_IMS_OFF {
                true
            } else if ims == lm {
                false
            } else {
                mode == NGX_HTTP_IMS_EXACT || ims < lm
            }
        },
    }
}

/// `If-Unmodified-Since`: true when the entity has *not* changed since the
/// client's date, i.e. the precondition holds.
///
/// `parse_http_time` turns the value of the header into a time. It is not called
/// where the entity has no date: the precondition then fails.
pub fn test_if_unmodified<P: Fn(&[u8]) -> i64>(request: &Request<'_>, parse_http_time: &P) -> (r:
    bool)
    requires
        request.headers_in.if_unmodified_since is Some,
        request@.headers_out.last_modified_time != NO_TIME ==> parse_http_time.requires(
            (request.headers_in.if_unmodified_since.unwrap(),),
        ),
    ensures
        request@.headers_out.last_modified_time == NO_TIME ==> !r,
        request@.headers_out.last_modified_time != NO_TIME ==> exists|iums: i64| #[trigger]
            parse_http_time.ensures((request.headers_in.if_unmodified_since.unwrap(),), iums) && r
                == request@.is_unmodified_since(iums as int),
{
    if request.headers_out.last_modified_time == NO_TIME {
        return false;
    }
    let value = request.headers_in.if_unmodified_since.unwrap();
    let iums: i64 = parse_http_time(value);
    unmodified_since(request, iums)
}

/// `If-Modified-Since`: true when the entity *has* changed, so the full response
/// should be sent.
///
/// `parse_http_time` turns the value of the header into a time. It is not called
/// where the entity has no date, or the location is not set to heed one: the
/// entity then counts as changed.
pub fn test_if_modified<P: Fn(&[u8]) -> i64>(request: &Request<'_>, parse_http_time: &P) -> (r:
    bool)
    requires
        request.headers_in.if_modified_since is Some,
        request@.heeds_if_modified_since() ==> parse_http_time.requires(
            (request.headers_in.if_modified_since.unwrap(),),
        ),
    ensures
        !request@.heeds_if_modified_since() ==> r,
        request@.heeds_if_modified_since() ==> exists|ims: i64| #[trigger]
            parse_http_time.ensures((request.headers_in.if_modified_since.unwrap(),), ims) && r
                == request@.is_modified_since(ims as int),
{
    if request.headers_out.last_modified_time == NO_TIME {
        return true;
    }
    match request.if_modified_since {
        None => true,
        Some(mode) => {
            if mode == NGX_HTTP_IMS_OFF {
                return true;
            }
            let value = request.headers_in.if_modified_since.unwrap();
            let ims: i64 = parse_http_time(value);
            modified_since(request, ims)
        },
    }
}

/// Does the response's `ETag` appear in the comma-separated `list`?
///
/// With `weak` set, a leading `W/` is stripped from both sides before comparing,
/// which is what `If-None-Match` calls for.
///
/// `note` is told of the list and the tag, both as they stand, before they are
/// compared. It is not called where there is nothing to compare.
pub fn test_if_match<N: Fn(&[u8], &[u8])>(
    request: &Request<'_>,
    list: &[u8],
    weak: bool,
    note: &N,
) -> (r: bool)
    requires
        request@.wf(),
        request@.compares(list@) ==> note.requires((list, tag_of(*request))),
    ensures
        r == request@.is_matched_by(list@, weak),
        request@.compares(list@) ==> note.ensures((list, tag_of(*request)), ()),
{
    if list.len() == 1 && list[0] == STAR {
        assert(list@ =~= seq![STAR]);
        return true;
    }
    assert(list@ != seq![STAR]) by {
        if list@ == seq![STAR] {
            assert(list@[0] == STAR);
        }
    }
    match request.headers_out.etag {
        None => false,
        Some(i) => {
            let mut tag = request.headers_out.lines[i].value;
            assert(request@.headers_out.etag_value() == Some(tag@));
            let ghost whole = tag@;
            note(list, tag);
            if weak && tag.len() > 2 && tag[0] == UPPER_W && tag[1] == SLASH {
                tag = &tag[2..tag.len()];
                assert(tag@ =~= whole.skip(2));
            }
            etag_list_contains(list, tag, weak)
        },
    }
}

/// The filter itself.
///
/// `parse_http_time` turns the value of a date header into a time, and is called
/// only for a date that is needed. `note` is told of each list and tag that are
/// compared, and of no others.
pub fn ngx_http_not_modified_header_filter<P: Fn(&[u8]) -> i64, N: Fn(&[u8], &[u8])>(
    request: &mut Request<'_>,
    parse_http_time: &P,
    note: &N,
) -> (action: Action)
    requires
        old(request)@.wf(),
        takes_needed_dates(*old(request), parse_http_time),
        takes_comparisons(*old(request), note),
    ensures
        exists|iums: i64, ims: i64|
            {
                let outcome = old(request)@.outcome(iums as int, ims as int);
                &&& #[trigger] dates_read(*old(request), parse_http_time, iums, ims)
                &&& comparisons_noted(*old(request), note, iums, ims)
                &&& action == outcome.action()
                &&& final(request)@ == outcome.applied_to(old(request)@)
            },
        final(request)@.wf(),
{
    let ghost before = *request;
    // Only main requests with a plain 200 are candidates, and a handler may opt
    // out by setting `disable_not_modified`.
    if request.headers_out.status != NGX_HTTP_OK || !request.is_main
        || request.disable_not_modified {
        assert(dates_read(before, parse_http_time, 0, 0));
        return Action::NextFilter;
    }
    let ghost mut iums: i64 = 0;
    let ghost mut ims: i64 = 0;
    // If-Unmodified-Since: the resource must not have changed since the given
    // date, otherwise the request is refused outright.
    if let Some(value) = request.headers_in.if_unmodified_since {
        let holds = test_if_unmodified(request, parse_http_time);
        proof {
            if before@.reads_if_unmodified_since() {
                iums = choose|iums: i64| #[trigger]
                    parse_http_time.ensures((value,), iums) && holds
                        == before@.is_unmodified_since(iums as int);
            }
        }
        if !holds {
            assert(dates_read(before, parse_http_time, iums, ims));
            return Action::Finalize(NGX_HTTP_PRECONDITION_FAILED);
        }
    }
    // If-Match: the entity tag must match. Strong comparison.
    if let Some(list) = request.headers_in.if_match {
        assert(before@.compares_if_match(iums as int) == before@.compares(list@));
        if !test_if_match(request, list, false, note) {
            assert(dates_read(before, parse_http_time, iums, ims));
            return Action::Finalize(NGX_HTTP_PRECONDITION_FAILED);
        }
    }
    if request.headers_in.if_modified_since.is_some()
        || request.headers_in.if_none_match.is_some() {
        // Either header alone is enough to prove the entity *did* change, in
        // which case the response is sent as-is.
        if let Some(value) = request.headers_in.if_modified_since {
            assert(before@.reads_if_modified_since(iums as int)
                == before@.heeds_if_modified_since());
            let changed = test_if_modified(request, parse_http_time);
            proof {
                if before@.heeds_if_modified_since() {
                    ims = choose|ims: i64| #[trigger]
                        parse_http_time.ensures((value,), ims) && changed
                            == before@.is_modified_since(ims as int);
                }
            }
            if changed {
                assert(dates_read(before, parse_http_time, iums, ims));
                return Action::NextFilter;
            }
        }
        assert(dates_read(before, parse_http_time, iums, ims));
        // If-None-Match uses weak comparison.
        if let Some(list) = request.headers_in.if_none_match {
            assert(before@.compares_if_none_match(iums as int, ims as int) == before@.compares(
                list@,
            ));
            if !test_if_match(request, list, true, note) {
                return Action::NextFilter;
            }
        }
        // Not modified: strip the response down to a bare 304.
        request.headers_out.status = NGX_HTTP_NOT_MODIFIED;
        request.headers_out.status_line_len = 0;
        request.headers_out.content_type_len = 0;

        clear_content_length(request);
        clear_accept_ranges(request);

        if let Some(i) = request.headers_out.content_encoding {
            request.headers_out.lines[i].hash = 0;
            request.headers_out.content_encoding = None;
        }
        assert(request@ =~= before@.not_modified());
        return Action::NextFilter;
    }
    assert(dates_read(before, parse_http_time, iums, ims));
    Action::NextFilter
}

} // verus!
