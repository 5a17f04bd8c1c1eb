//! What the filter sees of a request and of the response on its way out.

use vstd::prelude::*;

verus! {

/// Status of a plain successful response.
pub const NGX_HTTP_OK: usize = 200;

/// Status of a response whose entity the client already has.
pub const NGX_HTTP_NOT_MODIFIED: usize = 304;

/// Status of a request whose preconditions do not hold.
pub const NGX_HTTP_PRECONDITION_FAILED: usize = 412;

/// `if_modified_since off`: the header is ignored.
pub const NGX_HTTP_IMS_OFF: usize = 0;

/// `if_modified_since exact`: the date must be that of the entity.
pub const NGX_HTTP_IMS_EXACT: usize = 1;

/// `if_modified_since before`: the date must not be older than that of the entity.
pub const NGX_HTTP_IMS_BEFORE: usize = 2;

/// Stands in `last_modified_time` where the entity has no date.
pub const NO_TIME: i64 = -1;

/// Stands in `content_length_n` where the length is not known.
pub const NO_LENGTH: i64 = -1;

/// One line of the response header. A line whose `hash` is zero is not sent.
pub struct HeaderLine<'a> {
    pub hash: usize,
    pub value: &'a [u8],
}

/// The conditional headers of the request, each with its value where present.
pub struct HeadersIn<'a> {
    pub if_modified_since: Option<&'a [u8]>,
    pub if_unmodified_since: Option<&'a [u8]>,
    pub if_match: Option<&'a [u8]>,
    pub if_none_match: Option<&'a [u8]>,
}

/// The response header.
///
/// `content_length`, `accept_ranges`, `content_encoding` and `etag` say which of
/// the `lines` is the header of that name.
pub struct HeadersOut<'a> {
    pub lines: Vec<HeaderLine<'a>>,
    pub content_length: Option<usize>,
    pub accept_ranges: Option<usize>,
    pub content_encoding: Option<usize>,
    pub etag: Option<usize>,
    pub status: usize,
    pub status_line_len: usize,
    pub content_type_len: usize,
    pub content_length_n: i64,
    pub last_modified_time: i64,
}

/// A request whose response header passes the filter.
pub struct Request<'a> {
    /// Not a subrequest.
    pub is_main: bool,
    /// A handler has opted out.
    pub disable_not_modified: bool,
    pub allow_ranges: bool,
    /// What `if_modified_since` is set to, where the location is configured.
    pub if_modified_since: Option<usize>,
    pub headers_in: HeadersIn<'a>,
    pub headers_out: HeadersOut<'a>,
}

/// Model of a [`HeaderLine`].
pub struct LineView {
    pub hash: int,
    pub value: Seq<u8>,
}

/// Model of [`HeadersIn`].
pub struct HeadersInView {
    pub if_modified_since: Option<Seq<u8>>,
    pub if_unmodified_since: Option<Seq<u8>>,
    pub if_match: Option<Seq<u8>>,
    pub if_none_match: Option<Seq<u8>>,
}

/// Model of [`HeadersOut`].
#[verifier::ext_equal]
pub struct HeadersOutView {
    pub lines: Seq<LineView>,
    pub content_length: Option<int>,
    pub accept_ranges: Option<int>,
    pub content_encoding: Option<int>,
    pub etag: Option<int>,
    pub status: int,
    pub status_line_len: int,
    pub content_type_len: int,
    pub content_length_n: int,
    pub last_modified_time: int,
}

/// Model of a [`Request`].
#[verifier::ext_equal]
pub struct RequestView {
    pub is_main: bool,
    pub disable_not_modified: bool,
    pub allow_ranges: bool,
    pub if_modified_since: Option<int>,
    pub headers_in: HeadersInView,
    pub headers_out: HeadersOutView,
}

/// The bytes of a value that may be absent.
pub open spec fn bytes_of(value: Option<&[u8]>) -> Option<Seq<u8>> {
    match value {
        Some(bytes) => Some(bytes@),
        None => None,
    }
}

/// A number that may be absent.
pub open spec fn int_of(value: Option<usize>) -> Option<int> {
    match value {
        Some(n) => Some(n as int),
        None => None,
    }
}

impl<'a> View for HeaderLine<'a> {
    type V = LineView;

    open spec fn view(&self) -> LineView {
        LineView { hash: self.hash as int, value: self.value@ }
    }
}

impl<'a> View for HeadersIn<'a> {
    type V = HeadersInView;

    open spec fn view(&self) -> HeadersInView {
        HeadersInView {
            if_modified_since: bytes_of(self.if_modified_since),
            if_unmodified_since: bytes_of(self.if_unmodified_since),
            if_match: bytes_of(self.if_match),
            if_none_match: bytes_of(self.if_none_match),
        }
    }
}

impl<'a> View for HeadersOut<'a> {
    type V = HeadersOutView;

    open spec fn view(&self) -> HeadersOutView {
        HeadersOutView {
            lines: self.lines@.map_values(|line: HeaderLine<'a>| line@),
            content_length: int_of(self.content_length),
            accept_ranges: int_of(self.accept_ranges),
            content_encoding: int_of(self.content_encoding),
            etag: int_of(self.etag),
            status: self.status as int,
            status_line_len: self.status_line_len as int,
            content_type_len: self.content_type_len as int,
            content_length_n: self.content_length_n as int,
            last_modified_time: self.last_modified_time as int,
        }
    }
}

impl<'a> View for Request<'a> {
    type V = RequestView;

    open spec fn view(&self) -> RequestView {
        RequestView {
            is_main: self.is_main,
            disable_not_modified: self.disable_not_modified,
            allow_ranges: self.allow_ranges,
            if_modified_since: int_of(self.if_modified_since),
            headers_in: self.headers_in@,
            headers_out: self.headers_out@,
        }
    }
}

/// A slot is empty or names one of `len` lines.
pub open spec fn slot_in_range(slot: Option<int>, len: nat) -> bool {
    slot matches Some(i) ==> 0 <= i < len
}

/// `lines` with the line that `slot` names, if any, kept from being sent.
pub open spec fn hide_line(lines: Seq<LineView>, slot: Option<int>) -> Seq<LineView> {
    match slot {
        Some(i) => lines.update(i, LineView { hash: 0, value: lines[i].value }),
        None => lines,
    }
}

impl HeadersOutView {
    /// Every slot is empty or names a line of the header.
    pub open spec fn wf(self) -> bool {
        &&& slot_in_range(self.content_length, self.lines.len())
        &&& slot_in_range(self.accept_ranges, self.lines.len())
        &&& slot_in_range(self.content_encoding, self.lines.len())
        &&& slot_in_range(self.etag, self.lines.len())
    }

    /// The value of the `ETag` line, where there is one.
    pub open spec fn etag_value(self) -> Option<Seq<u8>> {
        match self.etag {
            Some(i) => Some(self.lines[i].value),
            None => None,
        }
    }
}

impl RequestView {
    /// Every slot of the response header is empty or names one of its lines.
    pub open spec fn wf(self) -> bool {
        self.headers_out.wf()
    }

    /// The request once the length of its response is no longer announced.
    pub open spec fn without_content_length(self) -> RequestView {
        RequestView {
            headers_out: HeadersOutView {
                lines: hide_line(self.headers_out.lines, self.headers_out.content_length),
                content_length: None,
                content_length_n: NO_LENGTH as int,
                ..self.headers_out
            },
            ..self
        }
    }

    /// The request once ranges of its response are no longer offered.
    pub open spec fn without_accept_ranges(self) -> RequestView {
        RequestView {
            allow_ranges: false,
            headers_out: HeadersOutView {
                lines: hide_line(self.headers_out.lines, self.headers_out.accept_ranges),
                accept_ranges: None,
                ..self.headers_out
            },
            ..self
        }
    }

    /// The request once the coding of its response is no longer announced.
    pub open spec fn without_content_encoding(self) -> RequestView {
        RequestView {
            headers_out: HeadersOutView {
                lines: hide_line(self.headers_out.lines, self.headers_out.content_encoding),
                content_encoding: None,
                ..self.headers_out
            },
            ..self
        }
    }
}

/// Withdraws the length of the response: the number and the header line.
pub fn clear_content_length(request: &mut Request<'_>)
    requires
        old(request)@.wf(),
    ensures
        final(request)@ == old(request)@.without_content_length(),
        final(request)@.wf(),
{
    request.headers_out.content_length_n = NO_LENGTH;

    if let Some(i) = request.headers_out.content_length {
        request.headers_out.lines[i].hash = 0;
        request.headers_out.content_length = None;
    }
    assert(request@ =~= old(request)@.without_content_length());
}

/// Withdraws the offer of ranges: the flag and the header line.
pub fn clear_accept_ranges(request: &mut Request<'_>)
    requires
        old(request)@.wf(),
    ensures
        final(request)@ == old(request)@.without_accept_ranges(),
        final(request)@.wf(),
{
    request.allow_ranges = false;

    if let Some(i) = request.headers_out.accept_ranges {
        request.headers_out.lines[i].hash = 0;
        request.headers_out.accept_ranges = None;
    }
    assert(request@ =~= old(request)@.without_accept_ranges());
}

} // verus!
