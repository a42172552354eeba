use crate::http_types::HttpStatus;
use crate::utils::generate_key::{accept_of, generate_accept};
use crate::websocket_types::{
    lemma_position_absent, lemma_upgrade_names_differ, value_of, Headers, RequestStruct,
    ResponseStruct, ResponseView,
};
use vstd::prelude::*;
use vstd::string::StringExecFns;

verus! {

/// The answer that an upgrade request with the headers `headers` gets.
///
/// With a `Sec-WebSocket-Key` the upgrade is accepted: the response switches
/// protocols and carries the accept value derived from the key. Without one
/// the request is bad, and the response carries no header at all.
pub open spec fn handshake_response(headers: Seq<(Seq<char>, Seq<char>)>) -> ResponseView {
    match value_of(headers, "Sec-WebSocket-Key"@) {
        Some(key) => ResponseView {
            status: HttpStatus::SwitchingProtocols,
            headers: seq![
                ("Upgrade"@, "websocket"@),
                ("Connection"@, "Upgrade"@),
                ("Sec-WebSocket-Accept"@, accept_of(key)),
            ],
        },
        None => ResponseView { status: HttpStatus::BadRequest, headers: Seq::empty() },
    }
}

/// Builds the answer to an upgrade request: `101 Switching Protocols` with
/// the accept value where the request carries a key, `400 Bad Request`
/// where it does not.
pub fn create_response(request: RequestStruct) -> (response: ResponseStruct)
    ensures
        response@ == handshake_response(request@.headers),
        response.headers.wf(),
{
    response_for(&request.headers)
}

/// The answer to a request with these headers, as `create_response` gives
/// it, for a caller that keeps the request.
pub fn response_for(headers: &Headers) -> (response: ResponseStruct)
    ensures
        response@ == handshake_response(headers@),
        response.headers.wf(),
{
    match headers.get("Sec-WebSocket-Key") {
        Some(key) => {
            let mut response: ResponseStruct = ResponseStruct::default();
            let accept: String = generate_accept(key.clone());
            proof {
                lemma_upgrade_names_differ();
                lemma_position_absent(response.headers@, "Sec-WebSocket-Accept"@);
            }
            response.headers.insert(String::from_str("Sec-WebSocket-Accept"), accept);
            assert(response@.headers =~= handshake_response(headers@).headers);
            response
        },
        None => ResponseStruct { status: HttpStatus::BadRequest, headers: Headers::new() },
    }
}

} // verus!
