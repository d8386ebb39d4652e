//! Response status codes and their reason phrases.

use vstd::prelude::*;
use crate::text::free_of;

verus! {

/// The status of a response. `Other` carries a code outside the named set.
#[derive(Debug, Clone, Copy, Hash)]
pub enum StatusCode {
    Continue,
    SwitchingProtocols,
    OK,
    Created,
    Accepted,
    NoContent,
    MovedPermanently,
    Found,
    SeeOther,
    NotModified,
    TemporaryRedirect,
    PermanentRedirect,
    BadRequest,
    Unauthorized,
    Forbidden,
    NotFound,
    MethodNotAllowed,
    RequestTimeout,
    InternalError,
    NotImplemented,
    BadGateway,
    ServiceUnavailable,
    GatewayTimeout,
    Other(u16),
}

/// The canonical reason phrase of a status code; empty for a code outside the
/// named set.
pub open spec fn reason_of(code: u16) -> Seq<char> {
    if code == 100 {
        "Continue"@
    } else if code == 101 {
        "Switching Protocols"@
    } else if code == 200 {
        "OK"@
    } else if code == 201 {
        "Created"@
    } else if code == 202 {
        "Accepted"@
    } else if code == 204 {
        "No Content"@
    } else if code == 301 {
        "Moved Permanently"@
    } else if code == 302 {
        "Found"@
    } else if code == 303 {
        "See Other"@
    } else if code == 304 {
        "Not Modified"@
    } else if code == 307 {
        "Temporary Redirect"@
    } else if code == 308 {
        "Permanent Redirect"@
    } else if code == 400 {
        "Bad Request"@
    } else if code == 401 {
        "Unauthorized"@
    } else if code == 403 {
        "Forbidden"@
    } else if code == 404 {
        "Not Found"@
    } else if code == 405 {
        "Method Not Allowed"@
    } else if code == 408 {
        "Request Timeout"@
    } else if code == 500 {
        "Internal Server Error"@
    } else if code == 501 {
        "Not Implemented"@
    } else if code == 502 {
        "Bad Gateway"@
    } else if code == 503 {
        "Service Unavailable"@
    } else if code == 504 {
        "Gateway Timeout"@
    } else {
        ""@
    }
}

impl View for StatusCode {
    type V = u16;

    /// A status is its numeric code.
    open spec fn view(&self) -> u16 {
        match self {
            StatusCode::Continue => 100,
            StatusCode::SwitchingProtocols => 101,
            StatusCode::OK => 200,
            StatusCode::Created => 201,
            StatusCode::Accepted => 202,
            StatusCode::NoContent => 204,
            StatusCode::MovedPermanently => 301,
            StatusCode::Found => 302,
            StatusCode::SeeOther => 303,
            StatusCode::NotModified => 304,
            StatusCode::TemporaryRedirect => 307,
            StatusCode::PermanentRedirect => 308,
            StatusCode::BadRequest => 400,
            StatusCode::Unauthorized => 401,
            StatusCode::Forbidden => 403,
            StatusCode::NotFound => 404,
            StatusCode::MethodNotAllowed => 405,
            StatusCode::RequestTimeout => 408,
            StatusCode::InternalError => 500,
            StatusCode::NotImplemented => 501,
            StatusCode::BadGateway => 502,
            StatusCode::ServiceUnavailable => 503,
            StatusCode::GatewayTimeout => 504,
            StatusCode::Other(code) => *code,
        }
    }
}

impl StatusCode {
    /// The numeric code.
    pub fn code(&self) -> (r: u16)
        ensures
            r == self@,
    {
        match self {
            StatusCode::Continue => 100,
            StatusCode::SwitchingProtocols => 101,
            StatusCode::OK => 200,
            StatusCode::Created => 201,
            StatusCode::Accepted => 202,
            StatusCode::NoContent => 204,
            StatusCode::MovedPermanently => 301,
            StatusCode::Found => 302,
            StatusCode::SeeOther => 303,
            StatusCode::NotModified => 304,
            StatusCode::TemporaryRedirect => 307,
            StatusCode::PermanentRedirect => 308,
            StatusCode::BadRequest => 400,
            StatusCode::Unauthorized => 401,
            StatusCode::Forbidden => 403,
            StatusCode::NotFound => 404,
            StatusCode::MethodNotAllowed => 405,
            StatusCode::RequestTimeout => 408,
            StatusCode::InternalError => 500,
            StatusCode::NotImplemented => 501,
            StatusCode::BadGateway => 502,
            StatusCode::ServiceUnavailable => 503,
            StatusCode::GatewayTimeout => 504,
            StatusCode::Other(code) => *code,
        }
    }

    /// The status with the given numeric code.
    pub fn from_code(code: u16) -> (r: StatusCode)
        ensures
            r@ == code,
    {
        if code == 100 {
            StatusCode::Continue
        } else if code == 101 {
            StatusCode::SwitchingProtocols
        } else if code == 200 {
            StatusCode::OK
        } else if code == 201 {
            StatusCode::Created
        } else if code == 202 {
            StatusCode::Accepted
        } else if code == 204 {
            StatusCode::NoContent
        } else if code == 301 {
            StatusCode::MovedPermanently
        } else if code == 302 {
            StatusCode::Found
        } else if code == 303 {
            StatusCode::SeeOther
        } else if code == 304 {
            StatusCode::NotModified
        } else if code == 307 {
            StatusCode::TemporaryRedirect
        } else if code == 308 {
            StatusCode::PermanentRedirect
        } else if code == 400 {
            StatusCode::BadRequest
        } else if code == 401 {
            StatusCode::Unauthorized
        } else if code == 403 {
            StatusCode::Forbidden
        } else if code == 404 {
            StatusCode::NotFound
        } else if code == 405 {
            StatusCode::MethodNotAllowed
        } else if code == 408 {
            StatusCode::RequestTimeout
        } else if code == 500 {
            StatusCode::InternalError
        } else if code == 501 {
            StatusCode::NotImplemented
        } else if code == 502 {
            StatusCode::BadGateway
        } else if code == 503 {
            StatusCode::ServiceUnavailable
        } else if code == 504 {
            StatusCode::GatewayTimeout
        } else {
            StatusCode::Other(code)
        }
    }

    /// The canonical reason phrase.
    pub fn reason(&self) -> (r: &'static str)
        ensures
            r@ == reason_of(self@),
    {
        let code = self.code();
        if code == 100 {
            "Continue"
        } else if code == 101 {
            "Switching Protocols"
        } else if code == 200 {
            "OK"
        } else if code == 201 {
            "Created"
        } else if code == 202 {
            "Accepted"
        } else if code == 204 {
            "No Content"
        } else if code == 301 {
            "Moved Permanently"
        } else if code == 302 {
            "Found"
        } else if code == 303 {
            "See Other"
        } else if code == 304 {
            "Not Modified"
        } else if code == 307 {
            "Temporary Redirect"
        } else if code == 308 {
            "Permanent Redirect"
        } else if code == 400 {
            "Bad Request"
        } else if code == 401 {
            "Unauthorized"
        } else if code == 403 {
            "Forbidden"
        } else if code == 404 {
            "Not Found"
        } else if code == 405 {
            "Method Not Allowed"
        } else if code == 408 {
            "Request Timeout"
        } else if code == 500 {
            "Internal Server Error"
        } else if code == 501 {
            "Not Implemented"
        } else if code == 502 {
            "Bad Gateway"
        } else if code == 503 {
            "Service Unavailable"
        } else if code == 504 {
            "Gateway Timeout"
        } else {
            ""
        }
    }
}

impl PartialEq for StatusCode {
    fn eq(&self, other: &Self) -> (r: bool) {
        self.code() == other.code()
    }
}

impl vstd::std_specs::cmp::PartialEqSpecImpl for StatusCode {
    open spec fn obeys_eq_spec() -> bool {
        true
    }

    open spec fn eq_spec(&self, other: &Self) -> bool {
        self@ == other@
    }
}

impl Eq for StatusCode {

}

/// Every reason phrase is plain text on one line.
pub proof fn lemma_reason_plain(code: u16)
    ensures
        free_of(reason_of(code), '\n'),
        free_of(reason_of(code), '\r'),
        vstd::utf8::is_ascii_chars(reason_of(code)),
{
    reveal_strlit("Continue");
    reveal_strlit("Switching Protocols");
    reveal_strlit("OK");
    reveal_strlit("Created");
    reveal_strlit("Accepted");
    reveal_strlit("No Content");
    reveal_strlit("Moved Permanently");
    reveal_strlit("Found");
    reveal_strlit("See Other");
    reveal_strlit("Not Modified");
    reveal_strlit("Temporary Redirect");
    reveal_strlit("Permanent Redirect");
    reveal_strlit("Bad Request");
    reveal_strlit("Unauthorized");
    reveal_strlit("Forbidden");
    reveal_strlit("Not Found");
    reveal_strlit("Method Not Allowed");
    reveal_strlit("Request Timeout");
    reveal_strlit("Internal Server Error");
    reveal_strlit("Not Implemented");
    reveal_strlit("Bad Gateway");
    reveal_strlit("Service Unavailable");
    reveal_strlit("Gateway Timeout");
    reveal_strlit("");
}

} // verus!
