use crate::http_types::HttpStatus;
use crate::websocket_types::ResponseStruct;
use vstd::prelude::*;
use vstd::string::StringExecFns;

verus! {

/// One header on the wire: its name, a colon and a space, its value, and the
/// line end.
pub open spec fn header_line(name: Seq<char>, value: Seq<char>) -> Seq<char> {
    name + ": "@ + value + "\r\n"@
}

/// The headers on the wire, one line each, in their order.
pub open spec fn header_lines(headers: Seq<(Seq<char>, Seq<char>)>) -> Seq<char>
    decreases headers.len(),
{
    if headers.len() == 0 {
        Seq::empty()
    } else {
        header_lines(headers.drop_last()) + header_line(headers.last().0, headers.last().1)
    }
}

/// A response on the wire: the status line, the header lines, and the empty
/// line that ends the head.
pub open spec fn response_text(status: HttpStatus, headers: Seq<(Seq<char>, Seq<char>)>) -> Seq<
    char,
> {
    status.status_line() + "\r\n"@ + header_lines(headers) + "\r\n"@
}

/// Writes a response as it goes on the wire.
pub fn build_response(data: ResponseStruct) -> (response: String)
    ensures
        response@ == response_text(data@.status, data@.headers),
{
    let mut response_string: String = data.status.as_str();
    response_string.append("\r\n");
    let ghost head: Seq<char> = response_string@;
    let mut i: usize = 0;
    while i < data.headers.len()
        invariant
            i <= data.headers@.len(),
            response_string@ == head + header_lines(data.headers@.take(i as int)),
        decreases data.headers@.len() - i,
    {
        response_string.append(data.headers.name_at(i).as_str());
        response_string.append(": ");
        response_string.append(data.headers.value_at(i).as_str());
        response_string.append("\r\n");
        proof {
            let next = data.headers@.take(i + 1);
            assert(next.drop_last() =~= data.headers@.take(i as int));
        }
        i += 1;
    }
    assert(data.headers@.take(i as int) =~= data.headers@);
    response_string.append("\r\n");
    response_string
}

} // verus!
