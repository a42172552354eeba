use vstd::prelude::*;
use vstd::string::StringExecFns;

verus! {

/// The protocol version of every status line.
pub const HTTP_VERSION: &'static str = "HTTP/1.1";

/// The statuses that the server answers an upgrade request with.
#[derive(Debug, Clone, Copy, PartialEq, Eq, Structural)]
pub enum HttpStatus {
    SwitchingProtocols,
    BadRequest,
    Unauthorized,
    Forbidden,
    NotFound,
    InternalServerError,
}

impl HttpStatus {
    /// The status code and its reason phrase.
    pub open spec fn reason(self) -> Seq<char> {
        match self {
            HttpStatus::SwitchingProtocols => "101 Switching Protocols"@,
            HttpStatus::BadRequest => "400 Bad Request"@,
            HttpStatus::Unauthorized => "401 Unauthorized"@,
            HttpStatus::Forbidden => "403 Forbidden"@,
            HttpStatus::NotFound => "404 Not Found"@,
            HttpStatus::InternalServerError => "500 Internal Server Error"@,
        }
    }

    /// The status line without its line end: the protocol version, a space,
    /// the status code and its reason phrase.
    pub open spec fn status_line(self) -> Seq<char> {
        HTTP_VERSION@ + " "@ + self.reason()
    }

    /// The status line without its line end.
    pub fn as_str(&self) -> (status: String)
        ensures
            status@ == self.status_line(),
    {
        let status_code: &str = match self {
            HttpStatus::SwitchingProtocols => "101 Switching Protocols",
            HttpStatus::BadRequest => "400 Bad Request",
            HttpStatus::Unauthorized => "401 Unauthorized",
            HttpStatus::Forbidden => "403 Forbidden",
            HttpStatus::NotFound => "404 Not Found",
            HttpStatus::InternalServerError => "500 Internal Server Error",
        };
        let mut status: String = String::from_str(HTTP_VERSION);
        status.append(" ");
        status.append(status_code);
        status
    }
}

} // verus!
