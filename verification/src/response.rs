//! The response to a request for a file: its status and its headers, and the
//! window of the file that its body carries.

use crate::decimal::{decimal_text, format_decimal, is_digit, lemma_decimal_text_denotes};
use crate::header_range::{parse_range_bytes, HeaderRange, RangeParseError, RangeSpec};
use crate::headers::{
    all_value_bytes, ascii_bytes, has_room, header_map_append, header_map_get, header_map_new,
    header_map_values, header_name_from_static, header_value_bytes, header_value_from_str,
    header_value_from_u64, is_plain_name, no_headers,
};
use crate::window::{serve_window, window_for, ServeWindow, WindowError};
use hyper::header::HeaderValue;
use hyper::HeaderMap;
use vstd::prelude::*;
use vstd::utf8::{encode_utf8, is_ascii_chars, is_ascii_chars_encode_utf8};

verus! {

/// The status of a response.
#[derive(Debug, Clone, Copy, PartialEq, Eq, Structural)]
pub enum Status {
    Success,
    PartialContent,
    BadRequest,
    NotFound,
    RangeNotSatisfiable,
    InternalServerError,
}

impl Status {
    /// The status code that goes on the wire.
    pub open spec fn spec_code(self) -> u16 {
        match self {
            Status::Success => 200,
            Status::PartialContent => 206,
            Status::BadRequest => 400,
            Status::NotFound => 404,
            Status::RangeNotSatisfiable => 416,
            Status::InternalServerError => 500,
        }
    }

    /// The status code that goes on the wire.
    #[verifier::when_used_as_spec(spec_code)]
    pub fn code(self) -> (code: u16)
        ensures
            code == self.spec_code(),
    {
        match self {
            Status::Success => 200,
            Status::PartialContent => 206,
            Status::BadRequest => 400,
            Status::NotFound => 404,
            Status::RangeNotSatisfiable => 416,
            Status::InternalServerError => 500,
        }
    }
}

/// Why a request for a file gets no content.
#[derive(Debug, Clone, Copy, PartialEq, Eq)]
pub enum ResponseError {
    /// The content type of the file cannot stand in a header.
    InvalidContentType,
    /// The `Range` header of the request is malformed.
    Range(RangeParseError),
    /// The range is given in a unit other than `bytes`.
    UnsupportedRangeUnit,
    /// The range starts at or behind the end of the file.
    RangeNotSatisfiable,
}

impl ResponseError {
    /// The status that tells the client of the error.
    pub open spec fn spec_status(self) -> Status {
        match self {
            ResponseError::InvalidContentType => Status::InternalServerError,
            ResponseError::Range(_) => Status::BadRequest,
            ResponseError::UnsupportedRangeUnit => Status::BadRequest,
            ResponseError::RangeNotSatisfiable => Status::RangeNotSatisfiable,
        }
    }

    /// The status that tells the client of the error: a malformed range or a
    /// unit other than bytes is a bad request, a range behind the end of the
    /// file cannot be satisfied, and a content type that no header can hold
    /// is the server's own fault.
    #[verifier::when_used_as_spec(spec_status)]
    pub fn status(self) -> (status: Status)
        ensures
            status == self.spec_status(),
    {
        match self {
            ResponseError::InvalidContentType => Status::InternalServerError,
            ResponseError::Range(_) => Status::BadRequest,
            ResponseError::UnsupportedRangeUnit => Status::BadRequest,
            ResponseError::RangeNotSatisfiable => Status::RangeNotSatisfiable,
        }
    }
}

/// The value of `Content-Range` for `window`:
/// `bytes {start}-{end}/{total_size}`.
pub open spec fn content_range(window: ServeWindow) -> Seq<char> {
    "bytes "@ + decimal_text(window.start as nat) + "-"@ + decimal_text(window.end as nat) + "/"@
        + decimal_text(window.total_size as nat)
}

/// Writes the value of `Content-Range` for `window`.
pub fn content_range_text(window: &ServeWindow) -> (text: String)
    ensures
        text@ == content_range(*window),
{
    let mut text = String::from_str("bytes ");
    text.append(format_decimal(window.start).as_str());
    text.append("-");
    text.append(format_decimal(window.end).as_str());
    text.append("/");
    text.append(format_decimal(window.total_size).as_str());
    text
}

/// Every character of `text` is printable ASCII or a space.
pub open spec fn is_printable(text: Seq<char>) -> bool {
    forall|i: int| 0 <= i < text.len() ==> ' ' <= #[trigger] text[i] && text[i] <= '~'
}

/// What a response is made of, but for its body.
#[derive(Debug)]
pub struct ResponsePlan {
    pub status: Status,
    pub headers: HeaderMap,
    /// The bytes of the file that the body carries; `None` stands for the
    /// whole file.
    pub window: Option<ServeWindow>,
}

/// What a [`ResponsePlan`] holds, as plain values: the headers are the values
/// under each header name.
pub struct PlanSpec {
    pub status: Status,
    pub headers: Map<Seq<char>, Seq<Seq<u8>>>,
    pub window: Option<ServeWindow>,
}

impl View for ResponsePlan {
    type V = PlanSpec;

    open spec fn view(&self) -> PlanSpec {
        PlanSpec {
            status: self.status,
            headers: header_map_values(self.headers),
            window: self.window,
        }
    }
}

/// The headers of a response that carries a whole file.
pub open spec fn full_headers(content_type: Seq<u8>) -> Map<Seq<char>, Seq<Seq<u8>>> {
    no_headers().insert("content-type"@, seq![content_type])
}

/// The headers of a response that carries `window`.
pub open spec fn ranged_headers(content_type: Seq<u8>, window: ServeWindow) -> Map<
    Seq<char>,
    Seq<Seq<u8>>,
> {
    full_headers(content_type).insert(
        "content-range"@,
        seq![ascii_bytes(content_range(window))],
    ).insert("accept-ranges"@, seq![ascii_bytes("bytes"@)]).insert(
        "content-length"@,
        seq![ascii_bytes(decimal_text(window.len()))],
    )
}

/// A response that carries a whole file has a content type and no other
/// header: nothing in it speaks of a range.
pub proof fn lemma_full_headers(content_type: Seq<u8>)
    ensures
        full_headers(content_type).dom() == set!["content-type"@],
        full_headers(content_type)["content-type"@] == seq![content_type],
        !full_headers(content_type).dom().contains("content-range"@),
{
    reveal_strlit("content-type");
    reveal_strlit("content-range");
    assert("content-type"@.len() != "content-range"@.len());
    assert(full_headers(content_type).dom() =~= set!["content-type"@]);
}

/// A response that carries a window has four headers, each with one value:
/// the content type, the window as `Content-Range`, the unit as
/// `Accept-Ranges` and the number of bytes in the window as
/// `Content-Length`.
pub proof fn lemma_ranged_headers(content_type: Seq<u8>, window: ServeWindow)
    ensures
        ranged_headers(content_type, window).dom() == set![
            "content-type"@,
            "content-range"@,
            "accept-ranges"@,
            "content-length"@,
        ],
        ranged_headers(content_type, window)["content-type"@] == seq![content_type],
        ranged_headers(content_type, window)["content-range"@] == seq![
            ascii_bytes(content_range(window)),
        ],
        ranged_headers(content_type, window)["accept-ranges"@] == seq![ascii_bytes("bytes"@)],
        ranged_headers(content_type, window)["content-length"@] == seq![
            ascii_bytes(decimal_text(window.len())),
        ],
{
    reveal_strlit("content-type");
    reveal_strlit("content-range");
    reveal_strlit("accept-ranges");
    reveal_strlit("content-length");
    assert("content-type"@.len() == 12 && "content-range"@.len() == 13);
    assert("accept-ranges"@.len() == 13 && "content-length"@.len() == 14);
    assert("accept-ranges"@[0] != "content-range"@[0]);
    assert(ranged_headers(content_type, window).dom() =~= set![
        "content-type"@,
        "content-range"@,
        "accept-ranges"@,
        "content-length"@,
    ]);
}

/// The response to a request with `range`, where the content type is
/// already a header value of the bytes `content_type`.
pub open spec fn plan_for(content_type: Seq<u8>, range: Option<RangeSpec>, total_size: u64) -> Result<
    PlanSpec,
    ResponseError,
> {
    match range {
        None => Ok(
            PlanSpec { status: Status::Success, headers: full_headers(content_type), window: None },
        ),
        Some(range) => match window_for(range, total_size) {
            Ok(window) => Ok(
                PlanSpec {
                    status: Status::PartialContent,
                    headers: ranged_headers(content_type, window),
                    window: Some(window),
                },
            ),
            Err(WindowError::UnsupportedRangeUnit) => Err(ResponseError::UnsupportedRangeUnit),
            Err(WindowError::RangeNotSatisfiable) => Err(ResponseError::RangeNotSatisfiable),
        },
    }
}

/// The header value that holds the printable `text`.
fn printable_value(text: &str) -> (value: HeaderValue)
    requires
        is_printable(text@),
    ensures
        header_value_bytes(value) == ascii_bytes(text@),
{
    proof {
        assert(is_ascii_chars(text@));
        is_ascii_chars_encode_utf8(text@);
        assert(encode_utf8(text@) =~= ascii_bytes(text@));
    }
    match header_value_from_str(text) {
        Ok(value) => value,
        Err(_) => vstd::pervasive::unreached(),
    }
}

/// Adds the header `name: value` to `headers`, which hold none of that name.
fn add_header(headers: &mut HeaderMap, name: &'static str, value: HeaderValue)
    requires
        is_plain_name(name@),
        has_room(*old(headers)),
        !header_map_values(*old(headers)).dom().contains(name@),
    ensures
        header_map_values(*final(headers)) == header_map_values(*old(headers)).insert(
            name@,
            seq![header_value_bytes(value)],
        ),
        header_map_values(*final(headers)).dom().finite(),
        header_map_values(*final(headers)).dom().len() == header_map_values(
            *old(headers),
        ).dom().len() + 1,
{
    let ghost bytes = header_value_bytes(value);
    header_map_append(headers, header_name_from_static(name), value);
    assert(Seq::<Seq<u8>>::empty().push(bytes) =~= seq![bytes]);
}

/// The value of `Content-Range` is printable, whatever the window.
proof fn lemma_content_range_printable(window: ServeWindow)
    ensures
        is_printable(content_range(window)),
{
    reveal_strlit("bytes ");
    reveal_strlit("-");
    reveal_strlit("/");
    lemma_decimal_text_denotes(window.start as nat);
    lemma_decimal_text_denotes(window.end as nat);
    lemma_decimal_text_denotes(window.total_size as nat);
    let start = decimal_text(window.start as nat);
    let end = decimal_text(window.end as nat);
    let total = decimal_text(window.total_size as nat);
    assert(is_printable("bytes "@));
    assert(is_printable(start)) by {
        assert forall|i: int| 0 <= i < start.len() implies is_digit(#[trigger] start[i]) by {}
    }
    assert(is_printable(end)) by {
        assert forall|i: int| 0 <= i < end.len() implies is_digit(#[trigger] end[i]) by {}
    }
    assert(is_printable(total)) by {
        assert forall|i: int| 0 <= i < total.len() implies is_digit(#[trigger] total[i]) by {}
    }
}

/// The range that an optional header stands for.
pub open spec fn range_view(range: Option<&HeaderRange>) -> Option<RangeSpec> {
    match range {
        Some(range) => Some(range@),
        None => None,
    }
}

/// Plans the response for `range` with a content type that is a header value
/// already.
fn plan(content_type: HeaderValue, range: Option<&HeaderRange>, total_size: u64) -> (result: Result<
    ResponsePlan,
    ResponseError,
>)
    ensures
        match result {
            Ok(plan) => plan_for(header_value_bytes(content_type), range_view(range), total_size)
                == Ok::<PlanSpec, ResponseError>(plan@),
            Err(error) => plan_for(header_value_bytes(content_type), range_view(range), total_size)
                == Err::<PlanSpec, ResponseError>(error),
        },
        result matches Ok(plan) ==> (plan.window matches Some(window) ==> window.well_formed()),
{
    proof {
        reveal_strlit("content-type");
        reveal_strlit("content-range");
        reveal_strlit("accept-ranges");
        reveal_strlit("content-length");
        reveal_strlit("bytes");
        assert("content-type"@.len() == 12 && "content-range"@.len() == 13);
        assert("accept-ranges"@.len() == 13 && "content-length"@.len() == 14);
        assert("accept-ranges"@[0] != "content-range"@[0]);
    }
    let mut headers = header_map_new();
    add_header(&mut headers, "content-type", content_type);
    let range = match range {
        Some(range) => range,
        None => {
            return Ok(ResponsePlan { status: Status::Success, headers, window: None });
        },
    };
    let window = match serve_window(range, total_size) {
        Ok(window) => window,
        Err(WindowError::UnsupportedRangeUnit) => {
            return Err(ResponseError::UnsupportedRangeUnit);
        },
        Err(WindowError::RangeNotSatisfiable) => {
            return Err(ResponseError::RangeNotSatisfiable);
        },
    };
    proof {
        lemma_content_range_printable(window);
    }
    let content_range = content_range_text(&window);
    add_header(&mut headers, "content-range", printable_value(content_range.as_str()));
    add_header(&mut headers, "accept-ranges", printable_value("bytes"));
    add_header(&mut headers, "content-length", header_value_from_u64(window.content_length()));
    Ok(ResponsePlan { status: Status::PartialContent, headers, window: Some(window) })
}

/// The response to a request with `range` for a file of `total_size` bytes
/// and of the given content type. Without a range the whole file is sent;
/// with one, the window that starts where the range starts.
pub open spec fn response_for(range: Option<RangeSpec>, content_type: Seq<char>, total_size: u64) -> Result<
    PlanSpec,
    ResponseError,
> {
    if all_value_bytes(encode_utf8(content_type)) {
        plan_for(encode_utf8(content_type), range, total_size)
    } else {
        Err(ResponseError::InvalidContentType)
    }
}

/// Plans the response to a request for a file of `total_size` bytes and of
/// the given content type, `range` being what the request's `Range` header
/// holds, if it has one.
pub fn respond(range: Option<&HeaderRange>, content_type: &str, total_size: u64) -> (result: Result<
    ResponsePlan,
    ResponseError,
>)
    ensures
        match result {
            Ok(plan) => response_for(range_view(range), content_type@, total_size) == Ok::<
                PlanSpec,
                ResponseError,
            >(plan@),
            Err(error) => response_for(range_view(range), content_type@, total_size) == Err::<
                PlanSpec,
                ResponseError,
            >(error),
        },
        result matches Ok(plan) ==> (plan.window matches Some(window) ==> window.well_formed()),
{
    match header_value_from_str(content_type) {
        Ok(content_type) => plan(content_type, range, total_size),
        Err(_) => Err(ResponseError::InvalidContentType),
    }
}

/// What the `Range` header among `headers` denotes, if there is one; of
/// several, the first counts.
pub open spec fn requested_range(headers: Map<Seq<char>, Seq<Seq<u8>>>) -> Option<
    Result<RangeSpec, RangeParseError>,
> {
    if headers.dom().contains("range"@) {
        Some(parse_range_bytes(headers["range"@][0]))
    } else {
        None
    }
}

/// The response to a request with the given headers for a file of
/// `total_size` bytes and of the given content type.
pub open spec fn response_to(
    headers: Map<Seq<char>, Seq<Seq<u8>>>,
    content_type: Seq<char>,
    total_size: u64,
) -> Result<PlanSpec, ResponseError> {
    if !all_value_bytes(encode_utf8(content_type)) {
        Err(ResponseError::InvalidContentType)
    } else {
        match requested_range(headers) {
            None => plan_for(encode_utf8(content_type), None, total_size),
            Some(Ok(range)) => plan_for(encode_utf8(content_type), Some(range), total_size),
            Some(Err(error)) => Err(ResponseError::Range(error)),
        }
    }
}

/// Plans the response to a request with the headers `req_headers` for a file
/// of `total_size` bytes and of the given content type.
pub fn respond_to_request(req_headers: &HeaderMap, content_type: &str, total_size: u64) -> (result:
    Result<ResponsePlan, ResponseError>)
    ensures
        match result {
            Ok(plan) => response_to(header_map_values(*req_headers), content_type@, total_size)
                == Ok::<PlanSpec, ResponseError>(plan@),
            Err(error) => response_to(header_map_values(*req_headers), content_type@, total_size)
                == Err::<PlanSpec, ResponseError>(error),
        },
        result matches Ok(plan) ==> (plan.window matches Some(window) ==> window.well_formed()),
{
    let content_type = match header_value_from_str(content_type) {
        Ok(content_type) => content_type,
        Err(_) => {
            return Err(ResponseError::InvalidContentType);
        },
    };
    proof {
        reveal_strlit("range");
    }
    let range_name = header_name_from_static("range");
    match header_map_get(req_headers, &range_name) {
        None => plan(content_type, None, total_size),
        Some(value) => match HeaderRange::from_header_value(value) {
            Ok(range) => plan(content_type, Some(&range), total_size),
            Err(error) => Err(ResponseError::Range(error)),
        },
    }
}

/// The same request for the same file is answered in the same way: two plans
/// that answer it have the same status, the same headers and the same
/// window.
pub proof fn lemma_response_repeatable(
    first: PlanSpec,
    second: PlanSpec,
    headers: Map<Seq<char>, Seq<Seq<u8>>>,
    content_type: Seq<char>,
    total_size: u64,
)
    requires
        response_to(headers, content_type, total_size) == Ok::<PlanSpec, ResponseError>(first),
        response_to(headers, content_type, total_size) == Ok::<PlanSpec, ResponseError>(second),
    ensures
        first == second,
{
}

} // verus!
