use crate::utils::lossy_text::{text_from_utf8_lossy, utf8_lossy};
use crate::websocket_types::{with_header, Headers, RequestStruct, RequestView};
use vstd::prelude::*;
use vstd::utf8::encode_utf8;

verus! {

/// The number of headers that a request may carry.
pub const MAX_HEADERS: usize = 16;

/// Why a request did not parse.
#[derive(Debug, Clone, Copy, PartialEq, Eq, Structural)]
pub enum ParseError {
    /// The request ends before its head does.
    InvalidRequest,
    /// The bytes are no HTTP request.
    Unexpected,
}

impl ParseError {
    /// The error in words.
    pub fn message(&self) -> (text: &'static str)
        ensures
            text@ == match self {
                ParseError::InvalidRequest => "invalid_request"@,
                ParseError::Unexpected => "unexpected"@,
            },
    {
        match self {
            ParseError::InvalidRequest => "invalid_request",
            ParseError::Unexpected => "unexpected",
        }
    }
}

/// What the tokenizer made of a buffer.
#[derive(Debug, Clone, PartialEq, Eq)]
pub enum ParsedHead {
    /// A whole request head: method, path, and the headers in their order,
    /// each value as the bytes that were received.
    Complete { method: Option<String>, path: Option<String>, headers: Vec<(String, Vec<u8>)> },
    /// The buffer ends before the head does.
    Partial,
    /// The bytes are no HTTP request, or carry more headers than allowed.
    Invalid,
}

/// A tokenized head as a mathematical value.
pub enum ParsedHeadView {
    Complete {
        method: Option<Seq<char>>,
        path: Option<Seq<char>>,
        headers: Seq<(Seq<char>, Seq<u8>)>,
    },
    Partial,
    Invalid,
}

/// Raw headers as a mathematical value.
pub open spec fn raw_headers_view(headers: Seq<(String, Vec<u8>)>) -> Seq<(Seq<char>, Seq<u8>)> {
    Seq::new(headers.len(), |i: int| (headers[i].0@, headers[i].1@))
}

impl View for ParsedHead {
    type V = ParsedHeadView;

    open spec fn view(&self) -> ParsedHeadView {
        match self {
            ParsedHead::Complete { method, path, headers } => ParsedHeadView::Complete {
                method: match method {
                    Some(m) => Some(m@),
                    None => None,
                },
                path: match path {
                    Some(p) => Some(p@),
                    None => None,
                },
                headers: raw_headers_view(headers@),
            },
            ParsedHead::Partial => ParsedHeadView::Partial,
            ParsedHead::Invalid => ParsedHeadView::Invalid,
        }
    }
}

/// What the HTTP tokenizer makes of `data` when it may keep `max_headers`
/// headers.
pub uninterp spec fn tokenized(data: Seq<u8>, max_headers: usize) -> ParsedHeadView;

/// `httparse::Request::parse` on a request with `max_headers` empty header
/// slots: the tokenizer's verdict on `data` and, where the head is whole,
/// its method, path and headers, copied out as they stand.
#[verifier::external_body]
fn tokenize(data: &[u8], max_headers: usize) -> (head: ParsedHead)
    ensures
        head@ == tokenized(data@, max_headers),
{
    let mut slots = vec![httparse::EMPTY_HEADER; max_headers];
    let mut request = httparse::Request::new(&mut slots);
    match request.parse(data) {
        Ok(httparse::Status::Complete(_)) => ParsedHead::Complete {
            method: request.method.map(str::to_owned),
            path: request.path.map(str::to_owned),
            headers: request.headers.iter().map(|h| (h.name.to_owned(), h.value.to_vec())).collect(),
        },
        Ok(httparse::Status::Partial) => ParsedHead::Partial,
        Err(_) => ParsedHead::Invalid,
    }
}

/// The header map that raw headers make: each value read leniently as
/// UTF-8, and of two headers with one name the later value in the place of
/// the earlier.
pub open spec fn headers_of(raw: Seq<(Seq<char>, Seq<u8>)>) -> Seq<(Seq<char>, Seq<char>)>
    decreases raw.len(),
{
    if raw.len() == 0 {
        Seq::empty()
    } else {
        with_header(headers_of(raw.drop_last()), raw.last().0, utf8_lossy(raw.last().1))
    }
}

/// The request that a tokenized head stands for, or the error.
pub open spec fn request_of(head: ParsedHeadView) -> Result<RequestView, ParseError> {
    match head {
        ParsedHeadView::Complete { method: Some(method), path: Some(path), headers } => Ok(
            RequestView { method, uri: path, headers: headers_of(headers) },
        ),
        ParsedHeadView::Complete { .. } => Err(ParseError::Unexpected),
        ParsedHeadView::Partial => Err(ParseError::InvalidRequest),
        ParsedHeadView::Invalid => Err(ParseError::Unexpected),
    }
}

/// Whether `parsed` is the request or the error that `expected` says.
pub open spec fn request_matches(
    parsed: Result<RequestStruct, ParseError>,
    expected: Result<RequestView, ParseError>,
) -> bool {
    match expected {
        Ok(view) => parsed is Ok && parsed->Ok_0@ == view && parsed->Ok_0.headers.wf(),
        Err(e) => parsed == Err::<RequestStruct, ParseError>(e),
    }
}

/// Makes a header map of raw headers.
pub fn convert_headers(headers: &Vec<(String, Vec<u8>)>) -> (converted: Headers)
    ensures
        converted@ == headers_of(raw_headers_view(headers@)),
        converted.wf(),
{
    let mut hashmap: Headers = Headers::new();
    let ghost raw = raw_headers_view(headers@);
    let mut i: usize = 0;
    while i < headers.len()
        invariant
            i <= headers@.len(),
            raw == raw_headers_view(headers@),
            hashmap@ == headers_of(raw.take(i as int)),
            hashmap.wf(),
        decreases headers@.len() - i,
    {
        let name: String = headers[i].0.clone();
        let value: String = text_from_utf8_lossy(headers[i].1.as_slice());
        hashmap.insert(name, value);
        proof {
            assert(raw.take(i + 1).drop_last() =~= raw.take(i as int));
        }
        i += 1;
    }
    assert(raw.take(i as int) =~= raw);
    hashmap
}

/// The request that a tokenized head stands for.
pub fn request_from_head(head: ParsedHead) -> (parsed: Result<RequestStruct, ParseError>)
    ensures
        request_matches(parsed, request_of(head@)),
{
    match head {
        ParsedHead::Complete { method: Some(method), path: Some(path), headers } => {
            let converted: Headers = convert_headers(&headers);
            Ok(RequestStruct { method, uri: path, headers: converted })
        },
        ParsedHead::Complete { .. } => Err(ParseError::Unexpected),
        ParsedHead::Partial => Err(ParseError::InvalidRequest),
        ParsedHead::Invalid => Err(ParseError::Unexpected),
    }
}

/// Parses the head of an HTTP request: the request whose method, path and
/// headers the tokenizer finds in `data`, or the error where it finds the
/// head incomplete or no request at all.
pub fn parse_request(data: String) -> (parsed: Result<RequestStruct, ParseError>)
    ensures
        request_matches(parsed, request_of(tokenized(encode_utf8(data@), MAX_HEADERS))),
{
    request_from_head(tokenize(data.as_str().as_bytes(), MAX_HEADERS))
}

} // verus!
