//! HTTP header names and header lists.
//!
//! A header name is either one of a closed set of well-known names or a
//! free-form custom name. A header list keeps its entries in insertion order,
//! duplicates included, and hands them out in serialisation order on request.

use vstd::prelude::*;
use std::cmp::Ordering;
use crate::text::{chars_lt, chars_of, lex_lt, str_eq, to_ascii_lowercase, ascii_lower};
use crate::text::lemma_lex_lt_asymmetric;

verus! {

/// The name of a header.
#[derive(Debug, Hash)]
pub enum HeaderType {
    /// Informs the server about the types of data that can be sent back.
    Accept,
    /// Informs the server about the accepted character encodings.
    AcceptCharset,
    /// Indicates the content encodings understood by the client.
    AcceptEncoding,
    /// Informs the server about the client's languages.
    AcceptLanguage,
    /// Names the method of the actual request in a preflight request.
    AccessControlRequestMethod,
    /// Provides credentials for HTTP authentication.
    Authorization,
    /// Indicates how caches should behave.
    CacheControl,
    /// Indicates what should happen to the connection afterwards.
    Connection,
    /// Lists the encodings used on the payload.
    ContentEncoding,
    /// Indicates the length of the payload body.
    ContentLength,
    /// Indicates the MIME type of the payload body.
    ContentType,
    /// Shares applicable HTTP cookies with the server.
    Cookie,
    /// Indicates the date and time at which the message was sent.
    Date,
    /// Indicates expectations that the server must meet.
    Expect,
    /// May contain reverse-proxy information.
    Forwarded,
    /// Indicates the email address of the client.
    From,
    /// Specifies the host to which the request is sent.
    Host,
    /// Indicates the origin that caused the request.
    Origin,
    /// Contains backwards-compatible caching information.
    Pragma,
    /// Indicates the address of the page making the request.
    Referer,
    /// Asks for the connection to be upgraded to another protocol.
    Upgrade,
    /// Informs the server of basic browser and device information.
    UserAgent,
    /// Contains the proxies through which the message was forwarded.
    Via,
    /// Contains information about possible problems.
    Warning,
    /// Indicates whether the response can be shared with other origins.
    AccessControlAllowOrigin,
    /// Contains the time in seconds that the object has been cached.
    Age,
    /// The set of methods supported by the resource.
    Allow,
    /// Indicates whether the payload is displayed or downloaded.
    ContentDisposition,
    /// Informs the client of the language of the payload.
    ContentLanguage,
    /// Indicates an alternative location for the returned data.
    ContentLocation,
    /// Identifies a specific version of a resource.
    ETag,
    /// Contains the time at which the response expires.
    Expires,
    /// Indicates when the resource was last modified.
    LastModified,
    /// Serialises links in the headers.
    Link,
    /// Indicates where the resource can be found; used for redirects.
    Location,
    /// Contains information about the server that served the request.
    Server,
    /// Asks the client to set the given cookies.
    SetCookie,
    /// Indicates the encoding used in the transfer of the payload.
    TransferEncoding,
    /// A header outside the well-known set, with its name as given.
    Custom(String),
}

/// The group a header belongs to when a message is written out.
#[derive(Debug, Clone, Copy, PartialEq, Eq, Structural)]
pub enum HeaderCategory {
    General,
    Response,
    Entity,
    Other,
}

/// What a header name is in contracts: its place in the well-known set
/// (`CUSTOM_ORDINAL` for a custom name) and its text.
pub struct HeaderId {
    pub ordinal: nat,
    pub category: HeaderCategory,
    pub text: Seq<char>,
}

impl HeaderId {
    /// Whether a header named `self` is written before one named `other` in a
    /// message: by group first, then by name in lexicographic order.
    pub open spec fn before(self, other: HeaderId) -> bool {
        self.category.rank() < other.category.rank() || (self.category.rank()
            == other.category.rank() && lex_lt(self.text, other.text))
    }
}

/// The ordinal that every custom header name has.
pub open spec fn custom_ordinal() -> nat {
    38
}

/// The header name that a custom name with the given text is.
pub open spec fn custom_id(text: Seq<char>) -> HeaderId {
    HeaderId { ordinal: custom_ordinal(), category: HeaderCategory::Other, text }
}

impl HeaderCategory {
    /// The position of the group in a written message.
    pub open spec fn rank(self) -> nat {
        match self {
            HeaderCategory::General => 0,
            HeaderCategory::Response => 1,
            HeaderCategory::Entity => 2,
            HeaderCategory::Other => 3,
        }
    }

    /// The position of the group in a written message.
    pub fn position(&self) -> (r: u8)
        ensures
            r == self.rank(),
    {
        match self {
            HeaderCategory::General => 0,
            HeaderCategory::Response => 1,
            HeaderCategory::Entity => 2,
            HeaderCategory::Other => 3,
        }
    }
}

impl HeaderType {
    /// The place of the name in the well-known set.
    pub open spec fn ordinal(self) -> nat {
        match self {
            HeaderType::Accept => 0,
            HeaderType::AcceptCharset => 1,
            HeaderType::AcceptEncoding => 2,
            HeaderType::AcceptLanguage => 3,
            HeaderType::AccessControlRequestMethod => 4,
            HeaderType::Authorization => 5,
            HeaderType::CacheControl => 6,
            HeaderType::Connection => 7,
            HeaderType::ContentEncoding => 8,
            HeaderType::ContentLength => 9,
            HeaderType::ContentType => 10,
            HeaderType::Cookie => 11,
            HeaderType::Date => 12,
            HeaderType::Expect => 13,
            HeaderType::Forwarded => 14,
            HeaderType::From => 15,
            HeaderType::Host => 16,
            HeaderType::Origin => 17,
            HeaderType::Pragma => 18,
            HeaderType::Referer => 19,
            HeaderType::Upgrade => 20,
            HeaderType::UserAgent => 21,
            HeaderType::Via => 22,
            HeaderType::Warning => 23,
            HeaderType::AccessControlAllowOrigin => 24,
            HeaderType::Age => 25,
            HeaderType::Allow => 26,
            HeaderType::ContentDisposition => 27,
            HeaderType::ContentLanguage => 28,
            HeaderType::ContentLocation => 29,
            HeaderType::ETag => 30,
            HeaderType::Expires => 31,
            HeaderType::LastModified => 32,
            HeaderType::Link => 33,
            HeaderType::Location => 34,
            HeaderType::Server => 35,
            HeaderType::SetCookie => 36,
            HeaderType::TransferEncoding => 37,
            HeaderType::Custom(_) => custom_ordinal(),
        }
    }

    /// The name as it is written in a message.
    pub open spec fn name_text(self) -> Seq<char> {
        match self {
            HeaderType::Accept => "Accept"@,
            HeaderType::AcceptCharset => "Accept-Charset"@,
            HeaderType::AcceptEncoding => "Accept-Encoding"@,
            HeaderType::AcceptLanguage => "Accept-Language"@,
            HeaderType::AccessControlRequestMethod => "Access-Control-Request-Method"@,
            HeaderType::Authorization => "Authorization"@,
            HeaderType::CacheControl => "Cache-Control"@,
            HeaderType::Connection => "Connection"@,
            HeaderType::ContentEncoding => "Content-Encoding"@,
            HeaderType::ContentLength => "Content-Length"@,
            HeaderType::ContentType => "Content-Type"@,
            HeaderType::Cookie => "Cookie"@,
            HeaderType::Date => "Date"@,
            HeaderType::Expect => "Expect"@,
            HeaderType::Forwarded => "Forwarded"@,
            HeaderType::From => "From"@,
            HeaderType::Host => "Host"@,
            HeaderType::Origin => "Origin"@,
            HeaderType::Pragma => "Pragma"@,
            HeaderType::Referer => "Referer"@,
            HeaderType::Upgrade => "Upgrade"@,
            HeaderType::UserAgent => "User-Agent"@,
            HeaderType::Via => "Via"@,
            HeaderType::Warning => "Warning"@,
            HeaderType::AccessControlAllowOrigin => "Access-Control-Allow-Origin"@,
            HeaderType::Age => "Age"@,
            HeaderType::Allow => "Allow"@,
            HeaderType::ContentDisposition => "Content-Disposition"@,
            HeaderType::ContentLanguage => "Content-Language"@,
            HeaderType::ContentLocation => "Content-Location"@,
            HeaderType::ETag => "ETag"@,
            HeaderType::Expires => "Expires"@,
            HeaderType::LastModified => "Last-Modified"@,
            HeaderType::Link => "Link"@,
            HeaderType::Location => "Location"@,
            HeaderType::Server => "Server"@,
            HeaderType::SetCookie => "Set-Cookie"@,
            HeaderType::TransferEncoding => "Transfer-Encoding"@,
            HeaderType::Custom(name) => name@,
        }
    }

    /// The group of the name.
    pub open spec fn spec_category(self) -> HeaderCategory {
        match self {
            HeaderType::Accept => HeaderCategory::Entity,
            HeaderType::AcceptCharset => HeaderCategory::Entity,
            HeaderType::AcceptEncoding => HeaderCategory::Entity,
            HeaderType::AcceptLanguage => HeaderCategory::Entity,
            HeaderType::AccessControlRequestMethod => HeaderCategory::Other,
            HeaderType::Authorization => HeaderCategory::General,
            HeaderType::CacheControl => HeaderCategory::General,
            HeaderType::Connection => HeaderCategory::General,
            HeaderType::ContentEncoding => HeaderCategory::Entity,
            HeaderType::ContentLength => HeaderCategory::Entity,
            HeaderType::ContentType => HeaderCategory::Entity,
            HeaderType::Cookie => HeaderCategory::General,
            HeaderType::Date => HeaderCategory::General,
            HeaderType::Expect => HeaderCategory::Entity,
            HeaderType::Forwarded => HeaderCategory::Response,
            HeaderType::From => HeaderCategory::Response,
            HeaderType::Host => HeaderCategory::General,
            HeaderType::Origin => HeaderCategory::General,
            HeaderType::Pragma => HeaderCategory::General,
            HeaderType::Referer => HeaderCategory::General,
            HeaderType::Upgrade => HeaderCategory::General,
            HeaderType::UserAgent => HeaderCategory::General,
            HeaderType::Via => HeaderCategory::General,
            HeaderType::Warning => HeaderCategory::General,
            HeaderType::AccessControlAllowOrigin => HeaderCategory::Other,
            HeaderType::Age => HeaderCategory::Response,
            HeaderType::Allow => HeaderCategory::Entity,
            HeaderType::ContentDisposition => HeaderCategory::Entity,
            HeaderType::ContentLanguage => HeaderCategory::Entity,
            HeaderType::ContentLocation => HeaderCategory::Entity,
            HeaderType::ETag => HeaderCategory::Response,
            HeaderType::Expires => HeaderCategory::Entity,
            HeaderType::LastModified => HeaderCategory::Entity,
            HeaderType::Link => HeaderCategory::Other,
            HeaderType::Location => HeaderCategory::Response,
            HeaderType::Server => HeaderCategory::Response,
            HeaderType::SetCookie => HeaderCategory::Other,
            HeaderType::TransferEncoding => HeaderCategory::Entity,
            HeaderType::Custom(_) => HeaderCategory::Other,
        }
    }

    /// The well-known name whose lower-case form is `lower`, if there is one.
    pub open spec fn known_by_name(lower: Seq<char>) -> Option<HeaderType> {
        if lower == "accept"@ {
            Some(HeaderType::Accept)
        } else if lower == "accept-charset"@ {
            Some(HeaderType::AcceptCharset)
        } else if lower == "accept-encoding"@ {
            Some(HeaderType::AcceptEncoding)
        } else if lower == "accept-language"@ {
            Some(HeaderType::AcceptLanguage)
        } else if lower == "access-control-request-method"@ {
            Some(HeaderType::AccessControlRequestMethod)
        } else if lower == "authorization"@ {
            Some(HeaderType::Authorization)
        } else if lower == "cache-control"@ {
            Some(HeaderType::CacheControl)
        } else if lower == "connection"@ {
            Some(HeaderType::Connection)
        } else if lower == "content-encoding"@ {
            Some(HeaderType::ContentEncoding)
        } else if lower == "content-length"@ {
            Some(HeaderType::ContentLength)
        } else if lower == "content-type"@ {
            Some(HeaderType::ContentType)
        } else if lower == "cookie"@ {
            Some(HeaderType::Cookie)
        } else if lower == "date"@ {
            Some(HeaderType::Date)
        } else if lower == "expect"@ {
            Some(HeaderType::Expect)
        } else if lower == "forwarded"@ {
            Some(HeaderType::Forwarded)
        } else if lower == "from"@ {
            Some(HeaderType::From)
        } else if lower == "host"@ {
            Some(HeaderType::Host)
        } else if lower == "origin"@ {
            Some(HeaderType::Origin)
        } else if lower == "pragma"@ {
            Some(HeaderType::Pragma)
        } else if lower == "referer"@ {
            Some(HeaderType::Referer)
        } else if lower == "upgrade"@ {
            Some(HeaderType::Upgrade)
        } else if lower == "user-agent"@ {
            Some(HeaderType::UserAgent)
        } else if lower == "via"@ {
            Some(HeaderType::Via)
        } else if lower == "warning"@ {
            Some(HeaderType::Warning)
        } else if lower == "access-control-allow-origin"@ {
            Some(HeaderType::AccessControlAllowOrigin)
        } else if lower == "age"@ {
            Some(HeaderType::Age)
        } else if lower == "allow"@ {
            Some(HeaderType::Allow)
        } else if lower == "content-disposition"@ {
            Some(HeaderType::ContentDisposition)
        } else if lower == "content-language"@ {
            Some(HeaderType::ContentLanguage)
        } else if lower == "content-location"@ {
            Some(HeaderType::ContentLocation)
        } else if lower == "etag"@ {
            Some(HeaderType::ETag)
        } else if lower == "expires"@ {
            Some(HeaderType::Expires)
        } else if lower == "last-modified"@ {
            Some(HeaderType::LastModified)
        } else if lower == "link"@ {
            Some(HeaderType::Link)
        } else if lower == "location"@ {
            Some(HeaderType::Location)
        } else if lower == "server"@ {
            Some(HeaderType::Server)
        } else if lower == "set-cookie"@ {
            Some(HeaderType::SetCookie)
        } else if lower == "transfer-encoding"@ {
            Some(HeaderType::TransferEncoding)
        } else {
            None
        }
    }

    /// The header name that a name in a message stands for: matched against
    /// the well-known names without regard to ASCII case, and otherwise a
    /// custom name in lower case.
    pub open spec fn id_of_name(name: Seq<char>) -> HeaderId {
        match HeaderType::known_by_name(ascii_lower(name)) {
            Some(h) => h@,
            None => (HeaderId {
                ordinal: custom_ordinal(),
                category: HeaderCategory::Other,
                text: ascii_lower(name),
            }),
        }
    }

    /// The place of the name in the well-known set.
    pub fn rank(&self) -> (r: u8)
        ensures
            r == self.ordinal(),
    {
        match self {
            HeaderType::Accept => 0,
            HeaderType::AcceptCharset => 1,
            HeaderType::AcceptEncoding => 2,
            HeaderType::AcceptLanguage => 3,
            HeaderType::AccessControlRequestMethod => 4,
            HeaderType::Authorization => 5,
            HeaderType::CacheControl => 6,
            HeaderType::Connection => 7,
            HeaderType::ContentEncoding => 8,
            HeaderType::ContentLength => 9,
            HeaderType::ContentType => 10,
            HeaderType::Cookie => 11,
            HeaderType::Date => 12,
            HeaderType::Expect => 13,
            HeaderType::Forwarded => 14,
            HeaderType::From => 15,
            HeaderType::Host => 16,
            HeaderType::Origin => 17,
            HeaderType::Pragma => 18,
            HeaderType::Referer => 19,
            HeaderType::Upgrade => 20,
            HeaderType::UserAgent => 21,
            HeaderType::Via => 22,
            HeaderType::Warning => 23,
            HeaderType::AccessControlAllowOrigin => 24,
            HeaderType::Age => 25,
            HeaderType::Allow => 26,
            HeaderType::ContentDisposition => 27,
            HeaderType::ContentLanguage => 28,
            HeaderType::ContentLocation => 29,
            HeaderType::ETag => 30,
            HeaderType::Expires => 31,
            HeaderType::LastModified => 32,
            HeaderType::Link => 33,
            HeaderType::Location => 34,
            HeaderType::Server => 35,
            HeaderType::SetCookie => 36,
            HeaderType::TransferEncoding => 37,
            HeaderType::Custom(_) => 38,
        }
    }

    /// The group of the name, which decides where it is written in a message.
    pub fn category(&self) -> (r: HeaderCategory)
        ensures
            r == self.spec_category(),
    {
        match self {
            HeaderType::Accept => HeaderCategory::Entity,
            HeaderType::AcceptCharset => HeaderCategory::Entity,
            HeaderType::AcceptEncoding => HeaderCategory::Entity,
            HeaderType::AcceptLanguage => HeaderCategory::Entity,
            HeaderType::AccessControlRequestMethod => HeaderCategory::Other,
            HeaderType::Authorization => HeaderCategory::General,
            HeaderType::CacheControl => HeaderCategory::General,
            HeaderType::Connection => HeaderCategory::General,
            HeaderType::ContentEncoding => HeaderCategory::Entity,
            HeaderType::ContentLength => HeaderCategory::Entity,
            HeaderType::ContentType => HeaderCategory::Entity,
            HeaderType::Cookie => HeaderCategory::General,
            HeaderType::Date => HeaderCategory::General,
            HeaderType::Expect => HeaderCategory::Entity,
            HeaderType::Forwarded => HeaderCategory::Response,
            HeaderType::From => HeaderCategory::Response,
            HeaderType::Host => HeaderCategory::General,
            HeaderType::Origin => HeaderCategory::General,
            HeaderType::Pragma => HeaderCategory::General,
            HeaderType::Referer => HeaderCategory::General,
            HeaderType::Upgrade => HeaderCategory::General,
            HeaderType::UserAgent => HeaderCategory::General,
            HeaderType::Via => HeaderCategory::General,
            HeaderType::Warning => HeaderCategory::General,
            HeaderType::AccessControlAllowOrigin => HeaderCategory::Other,
            HeaderType::Age => HeaderCategory::Response,
            HeaderType::Allow => HeaderCategory::Entity,
            HeaderType::ContentDisposition => HeaderCategory::Entity,
            HeaderType::ContentLanguage => HeaderCategory::Entity,
            HeaderType::ContentLocation => HeaderCategory::Entity,
            HeaderType::ETag => HeaderCategory::Response,
            HeaderType::Expires => HeaderCategory::Entity,
            HeaderType::LastModified => HeaderCategory::Entity,
            HeaderType::Link => HeaderCategory::Other,
            HeaderType::Location => HeaderCategory::Response,
            HeaderType::Server => HeaderCategory::Response,
            HeaderType::SetCookie => HeaderCategory::Other,
            HeaderType::TransferEncoding => HeaderCategory::Entity,
            HeaderType::Custom(_) => HeaderCategory::Other,
        }
    }

    /// The name as it is written in a message.
    pub fn to_string(&self) -> (r: String)
        ensures
            r@ == self.name_text(),
    {
        match self {
            HeaderType::Accept => "Accept".to_string(),
            HeaderType::AcceptCharset => "Accept-Charset".to_string(),
            HeaderType::AcceptEncoding => "Accept-Encoding".to_string(),
            HeaderType::AcceptLanguage => "Accept-Language".to_string(),
            HeaderType::AccessControlRequestMethod => "Access-Control-Request-Method".to_string(),
            HeaderType::Authorization => "Authorization".to_string(),
            HeaderType::CacheControl => "Cache-Control".to_string(),
            HeaderType::Connection => "Connection".to_string(),
            HeaderType::ContentEncoding => "Content-Encoding".to_string(),
            HeaderType::ContentLength => "Content-Length".to_string(),
            HeaderType::ContentType => "Content-Type".to_string(),
            HeaderType::Cookie => "Cookie".to_string(),
            HeaderType::Date => "Date".to_string(),
            HeaderType::Expect => "Expect".to_string(),
            HeaderType::Forwarded => "Forwarded".to_string(),
            HeaderType::From => "From".to_string(),
            HeaderType::Host => "Host".to_string(),
            HeaderType::Origin => "Origin".to_string(),
            HeaderType::Pragma => "Pragma".to_string(),
            HeaderType::Referer => "Referer".to_string(),
            HeaderType::Upgrade => "Upgrade".to_string(),
            HeaderType::UserAgent => "User-Agent".to_string(),
            HeaderType::Via => "Via".to_string(),
            HeaderType::Warning => "Warning".to_string(),
            HeaderType::AccessControlAllowOrigin => "Access-Control-Allow-Origin".to_string(),
            HeaderType::Age => "Age".to_string(),
            HeaderType::Allow => "Allow".to_string(),
            HeaderType::ContentDisposition => "Content-Disposition".to_string(),
            HeaderType::ContentLanguage => "Content-Language".to_string(),
            HeaderType::ContentLocation => "Content-Location".to_string(),
            HeaderType::ETag => "ETag".to_string(),
            HeaderType::Expires => "Expires".to_string(),
            HeaderType::LastModified => "Last-Modified".to_string(),
            HeaderType::Link => "Link".to_string(),
            HeaderType::Location => "Location".to_string(),
            HeaderType::Server => "Server".to_string(),
            HeaderType::SetCookie => "Set-Cookie".to_string(),
            HeaderType::TransferEncoding => "Transfer-Encoding".to_string(),
            HeaderType::Custom(name) => name.clone(),
        }
    }

    /// The header name that `name` stands for. Well-known names are found
    /// without regard to ASCII case; any other name becomes a custom name in
    /// lower case.
    pub fn from_name(name: &str) -> (r: HeaderType)
        ensures
            r@ == HeaderType::id_of_name(name@),
            match HeaderType::known_by_name(ascii_lower(name@)) {
                Some(h) => r == h,
                None => r matches HeaderType::Custom(s) && s@ == ascii_lower(name@),
            },
    {
        let lower = to_ascii_lowercase(name);
        let s = lower.as_str();
        if str_eq(s, "accept") {
            HeaderType::Accept
        } else if str_eq(s, "accept-charset") {
            HeaderType::AcceptCharset
        } else if str_eq(s, "accept-encoding") {
            HeaderType::AcceptEncoding
        } else if str_eq(s, "accept-language") {
            HeaderType::AcceptLanguage
        } else if str_eq(s, "access-control-request-method") {
            HeaderType::AccessControlRequestMethod
        } else if str_eq(s, "authorization") {
            HeaderType::Authorization
        } else if str_eq(s, "cache-control") {
            HeaderType::CacheControl
        } else if str_eq(s, "connection") {
            HeaderType::Connection
        } else if str_eq(s, "content-encoding") {
            HeaderType::ContentEncoding
        } else if str_eq(s, "content-length") {
            HeaderType::ContentLength
        } else if str_eq(s, "content-type") {
            HeaderType::ContentType
        } else if str_eq(s, "cookie") {
            HeaderType::Cookie
        } else if str_eq(s, "date") {
            HeaderType::Date
        } else if str_eq(s, "expect") {
            HeaderType::Expect
        } else if str_eq(s, "forwarded") {
            HeaderType::Forwarded
        } else if str_eq(s, "from") {
            HeaderType::From
        } else if str_eq(s, "host") {
            HeaderType::Host
        } else if str_eq(s, "origin") {
            HeaderType::Origin
        } else if str_eq(s, "pragma") {
            HeaderType::Pragma
        } else if str_eq(s, "referer") {
            HeaderType::Referer
        } else if str_eq(s, "upgrade") {
            HeaderType::Upgrade
        } else if str_eq(s, "user-agent") {
            HeaderType::UserAgent
        } else if str_eq(s, "via") {
            HeaderType::Via
        } else if str_eq(s, "warning") {
            HeaderType::Warning
        } else if str_eq(s, "access-control-allow-origin") {
            HeaderType::AccessControlAllowOrigin
        } else if str_eq(s, "age") {
            HeaderType::Age
        } else if str_eq(s, "allow") {
            HeaderType::Allow
        } else if str_eq(s, "content-disposition") {
            HeaderType::ContentDisposition
        } else if str_eq(s, "content-language") {
            HeaderType::ContentLanguage
        } else if str_eq(s, "content-location") {
            HeaderType::ContentLocation
        } else if str_eq(s, "etag") {
            HeaderType::ETag
        } else if str_eq(s, "expires") {
            HeaderType::Expires
        } else if str_eq(s, "last-modified") {
            HeaderType::LastModified
        } else if str_eq(s, "link") {
            HeaderType::Link
        } else if str_eq(s, "location") {
            HeaderType::Location
        } else if str_eq(s, "server") {
            HeaderType::Server
        } else if str_eq(s, "set-cookie") {
            HeaderType::SetCookie
        } else if str_eq(s, "transfer-encoding") {
            HeaderType::TransferEncoding
        } else {
            HeaderType::Custom(lower)
        }
    }

    /// Whether `self` is written before `other` in a message.
    pub fn precedes(&self, other: &HeaderType) -> (r: bool)
        ensures
            r == self@.before(other@),
    {
        let a = self.category().position();
        let b = other.category().position();
        if a != b {
            a < b
        } else {
            let x = chars_of(self.to_string().as_str());
            let y = chars_of(other.to_string().as_str());
            chars_lt(&x, &y)
        }
    }
}

impl View for HeaderType {
    type V = HeaderId;

    open spec fn view(&self) -> HeaderId {
        HeaderId {
            ordinal: self.ordinal(),
            category: self.spec_category(),
            text: self.name_text(),
        }
    }
}

impl Clone for HeaderType {
    fn clone(&self) -> (r: Self)
        ensures
            r@ == self@,
            r.ordinal() == self.ordinal(),
    {
        match self {
            HeaderType::Accept => HeaderType::Accept,
            HeaderType::AcceptCharset => HeaderType::AcceptCharset,
            HeaderType::AcceptEncoding => HeaderType::AcceptEncoding,
            HeaderType::AcceptLanguage => HeaderType::AcceptLanguage,
            HeaderType::AccessControlRequestMethod => HeaderType::AccessControlRequestMethod,
            HeaderType::Authorization => HeaderType::Authorization,
            HeaderType::CacheControl => HeaderType::CacheControl,
            HeaderType::Connection => HeaderType::Connection,
            HeaderType::ContentEncoding => HeaderType::ContentEncoding,
            HeaderType::ContentLength => HeaderType::ContentLength,
            HeaderType::ContentType => HeaderType::ContentType,
            HeaderType::Cookie => HeaderType::Cookie,
            HeaderType::Date => HeaderType::Date,
            HeaderType::Expect => HeaderType::Expect,
            HeaderType::Forwarded => HeaderType::Forwarded,
            HeaderType::From => HeaderType::From,
            HeaderType::Host => HeaderType::Host,
            HeaderType::Origin => HeaderType::Origin,
            HeaderType::Pragma => HeaderType::Pragma,
            HeaderType::Referer => HeaderType::Referer,
            HeaderType::Upgrade => HeaderType::Upgrade,
            HeaderType::UserAgent => HeaderType::UserAgent,
            HeaderType::Via => HeaderType::Via,
            HeaderType::Warning => HeaderType::Warning,
            HeaderType::AccessControlAllowOrigin => HeaderType::AccessControlAllowOrigin,
            HeaderType::Age => HeaderType::Age,
            HeaderType::Allow => HeaderType::Allow,
            HeaderType::ContentDisposition => HeaderType::ContentDisposition,
            HeaderType::ContentLanguage => HeaderType::ContentLanguage,
            HeaderType::ContentLocation => HeaderType::ContentLocation,
            HeaderType::ETag => HeaderType::ETag,
            HeaderType::Expires => HeaderType::Expires,
            HeaderType::LastModified => HeaderType::LastModified,
            HeaderType::Link => HeaderType::Link,
            HeaderType::Location => HeaderType::Location,
            HeaderType::Server => HeaderType::Server,
            HeaderType::SetCookie => HeaderType::SetCookie,
            HeaderType::TransferEncoding => HeaderType::TransferEncoding,
            HeaderType::Custom(name) => HeaderType::Custom(name.clone()),
        }
    }
}

impl PartialEq for HeaderType {
    fn eq(&self, other: &Self) -> (r: bool) {
        match (self, other) {
            (HeaderType::Custom(a), HeaderType::Custom(b)) => str_eq(a.as_str(), b.as_str()),
            _ => self.rank() == other.rank(),
        }
    }
}

impl vstd::std_specs::cmp::PartialEqSpecImpl for HeaderType {
    open spec fn obeys_eq_spec() -> bool {
        true
    }

    open spec fn eq_spec(&self, other: &Self) -> bool {
        self@ == other@
    }
}

impl Eq for HeaderType {

}

impl PartialOrd for HeaderType {
    /// The order in which header names are written: by group first, then by
    /// the text of the name.
    fn partial_cmp(&self, other: &Self) -> (r: Option<Ordering>) {
        if self.precedes(other) {
            Some(Ordering::Less)
        } else if other.precedes(self) {
            Some(Ordering::Greater)
        } else {
            Some(Ordering::Equal)
        }
    }
}

impl vstd::std_specs::cmp::PartialOrdSpecImpl for HeaderType {
    open spec fn obeys_partial_cmp_spec() -> bool {
        true
    }

    open spec fn partial_cmp_spec(&self, other: &Self) -> Option<Ordering> {
        if self@.before(other@) {
            Some(Ordering::Less)
        } else if other@.before(self@) {
            Some(Ordering::Greater)
        } else {
            Some(Ordering::Equal)
        }
    }
}

/// What the conversion yields is stated by the contract of `from` itself: a
/// custom name holds a string, which no expression here could make.
impl vstd::std_specs::convert::FromSpecImpl<&str> for HeaderType {
    open spec fn obeys_from_spec() -> bool {
        false
    }

    open spec fn from_spec(name: &str) -> Self {
        arbitrary()
    }
}

impl From<&str> for HeaderType {
    /// The header name that `name` stands for, as `from_name` gives it.
    fn from(name: &str) -> (r: Self)
        ensures
            r@ == HeaderType::id_of_name(name@),
    {
        HeaderType::from_name(name)
    }
}

/// Anything that names a header: a header name itself, or text that is turned
/// into one as `HeaderType::from_name` does.
pub trait HeaderLike: Sized {
    /// The header name that `self` stands for.
    spec fn header_id(self) -> HeaderId;

    /// Turns `self` into a header name.
    fn as_header(self) -> (h: HeaderType)
        ensures
            h@ == self.header_id(),
    ;
}

impl HeaderLike for HeaderType {
    open spec fn header_id(self) -> HeaderId {
        self@
    }

    fn as_header(self) -> (h: HeaderType) {
        self
    }
}

impl HeaderLike for &HeaderType {
    open spec fn header_id(self) -> HeaderId {
        self@
    }

    fn as_header(self) -> (h: HeaderType) {
        self.clone()
    }
}

impl HeaderLike for &str {
    open spec fn header_id(self) -> HeaderId {
        HeaderType::id_of_name(self@)
    }

    fn as_header(self) -> (h: HeaderType) {
        HeaderType::from_name(self)
    }
}

impl HeaderLike for String {
    open spec fn header_id(self) -> HeaderId {
        HeaderType::id_of_name(self@)
    }

    fn as_header(self) -> (h: HeaderType) {
        HeaderType::from_name(self.as_str())
    }
}

/// One header: a name and its value.
#[derive(Debug, Hash)]
pub struct Header {
    pub name: HeaderType,
    pub value: String,
}

/// What a header is in contracts.
pub struct HeaderView {
    pub name: HeaderId,
    pub value: Seq<char>,
}

impl View for Header {
    type V = HeaderView;

    open spec fn view(&self) -> HeaderView {
        HeaderView { name: self.name@, value: self.value@ }
    }
}

impl Header {
    /// A header with the given name and value.
    pub fn new<N: HeaderLike>(name: N, value: &str) -> (r: Header)
        ensures
            r@ == (HeaderView { name: name.header_id(), value: value@ }),
    {
        Header { name: name.as_header(), value: value.to_string() }
    }
}

impl Clone for Header {
    fn clone(&self) -> (r: Self)
        ensures
            r@ == self@,
    {
        Header { name: self.name.clone(), value: self.value.clone() }
    }
}

impl PartialEq for Header {
    fn eq(&self, other: &Self) -> (r: bool) {
        self.name == other.name && str_eq(self.value.as_str(), other.value.as_str())
    }
}

impl vstd::std_specs::cmp::PartialEqSpecImpl for Header {
    open spec fn obeys_eq_spec() -> bool {
        true
    }

    open spec fn eq_spec(&self, other: &Self) -> bool {
        self@ == other@
    }
}

impl Eq for Header {

}

/// The views of a sequence of headers, in order.
pub open spec fn header_views(s: Seq<Header>) -> Seq<HeaderView> {
    Seq::new(s.len(), |i: int| s[i]@)
}

/// The index of the first header in `s` with the given name, or the length of
/// `s` if no header has it.
pub open spec fn first_index(s: Seq<HeaderView>, id: HeaderId) -> int
    decreases s.len(),
{
    if s.len() == 0 {
        0
    } else if s[0].name == id {
        0
    } else {
        1 + first_index(s.drop_first(), id)
    }
}

/// The values of the headers in `s` with the given name, in order.
pub open spec fn values_of(s: Seq<HeaderView>, id: HeaderId) -> Seq<Seq<char>> {
    s.filter(|h: HeaderView| h.name == id).map_values(|h: HeaderView| h.value)
}

/// The headers in `s` whose name is not the given one, in order.
pub open spec fn without(s: Seq<HeaderView>, id: HeaderId) -> Seq<HeaderView> {
    s.filter(|h: HeaderView| h.name != id)
}

/// Whether header `a` is written before header `b` in a message: by group
/// first, then by name.
pub open spec fn written_before(a: HeaderView, b: HeaderView) -> bool {
    a.name.before(b.name)
}

/// Whether `s` is in serialisation order: no header stands directly before one
/// that is written before it.
pub open spec fn in_written_order(s: Seq<HeaderView>) -> bool {
    forall|i: int| 0 <= i < s.len() - 1 ==> !written_before(#[trigger] s[i + 1], s[i])
}

/// `t` with `x` put behind the last header that is not written after `x`.
pub open spec fn insert_written(t: Seq<HeaderView>, x: HeaderView) -> Seq<HeaderView>
    decreases t.len(),
{
    if t.len() > 0 && written_before(x, t.last()) {
        insert_written(t.drop_last(), x).push(t.last())
    } else {
        t.push(x)
    }
}

/// The headers of `s` in serialisation order; headers that are written at the
/// same place keep the order they have in `s`.
pub open spec fn written_order(s: Seq<HeaderView>) -> Seq<HeaderView>
    decreases s.len(),
{
    if s.len() == 0 {
        s
    } else {
        insert_written(written_order(s.drop_last()), s.last())
    }
}

/// Where `x` goes: behind position `pos - 1`, which is not written after it,
/// and before everything from `pos` on, which is.
pub proof fn lemma_insert_written_at(t: Seq<HeaderView>, x: HeaderView, pos: int)
    requires
        0 <= pos <= t.len(),
        forall|k: int| pos <= k < t.len() ==> written_before(x, #[trigger] t[k]),
        pos > 0 ==> !written_before(x, t[pos - 1]),
    ensures
        insert_written(t, x) == t.insert(pos, x),
    decreases t.len(),
{
    if t.len() > pos {
        let shorter = t.drop_last();
        assert forall|k: int| pos <= k < shorter.len() implies written_before(
            x,
            #[trigger] shorter[k],
        ) by {
            assert(shorter[k] == t[k]);
        }
        lemma_insert_written_at(shorter, x, pos);
        assert(shorter.insert(pos, x).push(t.last()) =~= t.insert(pos, x));
    } else {
        assert(t.push(x) =~= t.insert(pos, x));
    }
}

/// Putting a header in its place adds it to the headers and takes none away.
pub proof fn lemma_insert_written_permutes(t: Seq<HeaderView>, x: HeaderView)
    ensures
        insert_written(t, x).to_multiset() == t.to_multiset().insert(x),
        insert_written(t, x).len() == t.len() + 1,
    decreases t.len(),
{
    if t.len() > 0 && written_before(x, t.last()) {
        let shorter = t.drop_last();
        lemma_insert_written_permutes(shorter, x);
        vstd::seq_lib::to_multiset_build(insert_written(shorter, x), t.last());
        vstd::seq_lib::to_multiset_build(shorter, t.last());
        assert(shorter.push(t.last()) =~= t);
        assert(shorter.to_multiset().insert(x).insert(t.last()) =~= shorter.to_multiset().insert(
            t.last(),
        ).insert(x));
    } else {
        vstd::seq_lib::to_multiset_build(t, x);
    }
}

/// Serialisation order holds the same headers, each as often as before.
pub proof fn lemma_written_order_permutes(s: Seq<HeaderView>)
    ensures
        written_order(s).to_multiset() == s.to_multiset(),
        written_order(s).len() == s.len(),
    decreases s.len(),
{
    if s.len() > 0 {
        lemma_written_order_permutes(s.drop_last());
        lemma_insert_written_permutes(written_order(s.drop_last()), s.last());
        vstd::seq_lib::to_multiset_build(s.drop_last(), s.last());
        assert(s.drop_last().push(s.last()) =~= s);
    }
}

/// Putting a header in its place keeps a list in serialisation order.
pub proof fn lemma_insert_written_sorted(t: Seq<HeaderView>, x: HeaderView)
    requires
        in_written_order(t),
    ensures
        in_written_order(insert_written(t, x)),
    decreases t.len(),
{
    let r = insert_written(t, x);
    if t.len() > 0 && written_before(x, t.last()) {
        let shorter = t.drop_last();
        assert forall|i: int| 0 <= i < shorter.len() - 1 implies !written_before(
            #[trigger] shorter[i + 1],
            shorter[i],
        ) by {
            assert(shorter[i + 1] == t[i + 1]);
        }
        lemma_insert_written_sorted(shorter, x);
        lemma_insert_written_permutes(shorter, x);
        let inner = insert_written(shorter, x);
        lemma_written_before_asymmetric(x, t.last());
        assert forall|i: int| 0 <= i < r.len() - 1 implies !written_before(
            #[trigger] r[i + 1],
            r[i],
        ) by {
            if i + 1 < inner.len() {
                assert(r[i + 1] == inner[i + 1] && r[i] == inner[i]);
            } else {
                assert(r[i + 1] == t.last());
                assert(r[i] == inner.last());
                if shorter.len() > 0 && written_before(x, shorter.last()) {
                    assert(inner.last() == shorter.last());
                    assert(shorter.last() == t[t.len() - 2]);
                    assert(t.last() == t[t.len() - 2 + 1]);
                } else {
                    assert(inner.last() == x);
                }
            }
        }
    } else {
        assert forall|i: int| 0 <= i < r.len() - 1 implies !written_before(
            #[trigger] r[i + 1],
            r[i],
        ) by {
            if i + 1 < t.len() {
                assert(r[i + 1] == t[i + 1] && r[i] == t[i]);
            } else {
                assert(r[i + 1] == x && r[i] == t.last());
            }
        }
    }
}

/// Serialisation order is an order: no header stands directly before one
/// that is written before it.
pub proof fn lemma_written_order_sorted(s: Seq<HeaderView>)
    ensures
        in_written_order(written_order(s)),
    decreases s.len(),
{
    if s.len() > 0 {
        lemma_written_order_sorted(s.drop_last());
        lemma_insert_written_sorted(written_order(s.drop_last()), s.last());
    }
}

/// A list that is in serialisation order already stays as it is.
pub proof fn lemma_written_order_fixed(s: Seq<HeaderView>)
    requires
        in_written_order(s),
    ensures
        written_order(s) == s,
    decreases s.len(),
{
    if s.len() > 0 {
        let shorter = s.drop_last();
        assert forall|i: int| 0 <= i < shorter.len() - 1 implies !written_before(
            #[trigger] shorter[i + 1],
            shorter[i],
        ) by {
            assert(shorter[i + 1] == s[i + 1]);
        }
        lemma_written_order_fixed(shorter);
        if shorter.len() > 0 {
            assert(shorter.last() == s[s.len() - 2]);
            assert(s.last() == s[s.len() - 2 + 1]);
        }
        assert(shorter.push(s.last()) =~= s);
    }
}

/// The first index and containment agree.
pub proof fn lemma_first_index(s: Seq<HeaderView>, id: HeaderId)
    ensures
        0 <= first_index(s, id) <= s.len(),
        first_index(s, id) < s.len() ==> s[first_index(s, id)].name == id,
        forall|j: int| 0 <= j < first_index(s, id) ==> (#[trigger] s[j]).name != id,
    decreases s.len(),
{
    if s.len() > 0 && s[0].name != id {
        let t = s.drop_first();
        lemma_first_index(t, id);
        assert forall|j: int| 0 <= j < first_index(s, id) implies (#[trigger] s[j]).name
            != id by {
            if j > 0 {
                assert(s[j] == t[j - 1]);
            }
        }
    }
}

/// An ordered list of headers. Entries keep the order in which they were
/// added, and a name may occur more than once.
#[derive(Debug, Hash)]
pub struct Headers(Vec<Header>);

impl View for Headers {
    type V = Seq<HeaderView>;

    closed spec fn view(&self) -> Seq<HeaderView> {
        header_views(self.0@)
    }
}

impl Headers {
    /// An empty list.
    pub fn new() -> (r: Headers)
        ensures
            r@ == Seq::<HeaderView>::empty(),
    {
        let r = Headers(Vec::new());
        assert(r@ =~= Seq::<HeaderView>::empty());
        r
    }

    /// The number of headers, duplicates included.
    pub fn len(&self) -> (n: usize)
        ensures
            n == self@.len(),
    {
        self.0.len()
    }

    /// Adds a header with the given name and value at the end.
    pub fn add<N: HeaderLike>(&mut self, name: N, value: &str)
        ensures
            final(self)@ == old(self)@.push(
                (HeaderView { name: name.header_id(), value: value@ }),
            ),
    {
        let header = Header::new(name, value);
        self.push(header);
    }

    /// Adds a header at the end.
    pub fn push(&mut self, header: Header)
        ensures
            final(self)@ == old(self)@.push(header@),
    {
        self.0.push(header);
        assert(self@ =~= old(self)@.push(header@));
    }

    /// The header at position `i` in insertion order.
    pub fn at(&self, i: usize) -> (h: &Header)
        requires
            i < self@.len(),
        ensures
            h@ == self@[i as int],
    {
        &self.0[i]
    }

    /// The position of the first header with the given name, or the number of
    /// headers if there is none.
    pub fn position(&self, name: &HeaderType) -> (i: usize)
        ensures
            i == first_index(self@, name@),
            i <= self@.len(),
    {
        let mut i: usize = 0;
        assert(self@.skip(0) =~= self@);
        while i < self.0.len()
            invariant
                i <= self.0.len(),
                self@.len() == self.0.len(),
                first_index(self@, name@) == i + first_index(self@.skip(i as int), name@),
            decreases self.0.len() - i,
        {
            proof {
                let t = self@.skip(i as int);
                assert(t[0] == self@[i as int]);
                assert(t.drop_first() =~= self@.skip(i + 1));
            }
            if self.0[i].name == *name {
                return i;
            }
            i += 1;
        }
        i
    }

    /// The value of the first header with the given name.
    pub fn get<N: HeaderLike>(&self, name: N) -> (r: Option<&str>)
        ensures
            r is Some <==> first_index(self@, name.header_id()) < self@.len(),
            r matches Some(v) ==> v@ == self@[first_index(self@, name.header_id())].value,
    {
        let header = name.as_header();
        let i = self.position(&header);
        if i < self.0.len() {
            Some(self.0[i].value.as_str())
        } else {
            None
        }
    }

    /// A mutable reference to the value of the first header with the given
    /// name. What is written through it becomes that header's value; nothing
    /// else changes.
    pub fn get_mut<N: HeaderLike>(&mut self, name: N) -> (r: Option<&mut String>)
        ensures
            r is Some <==> first_index(old(self)@, name.header_id()) < old(self)@.len(),
            r is None ==> final(self)@ == old(self)@,
            r matches Some(v) ==> v@ == old(self)@[first_index(
                old(self)@,
                name.header_id(),
            )].value && final(self)@ == old(self)@.update(
                first_index(old(self)@, name.header_id()),
                (HeaderView { name: name.header_id(), value: final(v)@ }),
            ),
    {
        let header = name.as_header();
        let i = self.position(&header);
        proof {
            lemma_first_index(self@, header@);
        }
        if i < self.0.len() {
            let entry = &mut self.0[i];
            Some(&mut entry.value)
        } else {
            None
        }
    }

    /// The values of all headers with the given name, in insertion order.
    pub fn get_all<N: HeaderLike>(&self, name: N) -> (r: Vec<&str>)
        ensures
            r@.len() == values_of(self@, name.header_id()).len(),
            forall|k: int|
                0 <= k < r@.len() ==> (#[trigger] r@[k])@ == values_of(
                    self@,
                    name.header_id(),
                )[k],
    {
        let header = name.as_header();
        let ghost id = header@;
        let ghost keep = |h: HeaderView| h.name == id;
        let mut out: Vec<&str> = Vec::new();
        let mut i: usize = 0;
        assert(self@.take(0) =~= Seq::<HeaderView>::empty());
        while i < self.0.len()
            invariant
                i <= self.0.len(),
                self@.len() == self.0.len(),
                id == header@,
                keep == |h: HeaderView| h.name == id,
                out@.len() == values_of(self@.take(i as int), id).len(),
                forall|k: int|
                    0 <= k < out@.len() ==> (#[trigger] out@[k])@ == values_of(
                        self@.take(i as int),
                        id,
                    )[k],
            decreases self.0.len() - i,
        {
            proof {
                lemma_filter_step(self@, i as int, keep);
            }
            if self.0[i].name == header {
                out.push(self.0[i].value.as_str());
            }
            i += 1;
        }
        assert(self@.take(i as int) =~= self@);
        out
    }

    /// Removes every header with the given name; the others keep their order.
    pub fn remove<N: HeaderLike>(&mut self, name: N)
        ensures
            final(self)@ == without(old(self)@, name.header_id()),
    {
        let header = name.as_header();
        let ghost id = header@;
        let ghost keep = |h: HeaderView| h.name != id;
        let mut out: Vec<Header> = Vec::new();
        let mut i: usize = 0;
        assert(self@.take(0) =~= Seq::<HeaderView>::empty());
        while i < self.0.len()
            invariant
                i <= self.0.len(),
                self@.len() == self.0.len(),
                id == header@,
                keep == |h: HeaderView| h.name != id,
                header_views(out@) == without(self@.take(i as int), id),
            decreases self.0.len() - i,
        {
            proof {
                lemma_filter_step(self@, i as int, keep);
            }
            if self.0[i].name != header {
                out.push(self.0[i].clone());
                assert(header_views(out@) =~= without(self@.take(i + 1), id));
            }
            i += 1;
        }
        assert(self@.take(i as int) =~= self@);
        self.0 = out;
    }

    /// The headers in serialisation order: grouped General, Response, Entity,
    /// Other, and by name within a group. Headers that are written at the
    /// same place keep their insertion order.
    pub fn iter(&self) -> (r: Vec<Header>)
        ensures
            header_views(r@) == written_order(self@),
    {
        let mut out: Vec<Header> = Vec::new();
        let mut i: usize = 0;
        assert(self@.take(0) =~= Seq::<HeaderView>::empty());
        assert(header_views(out@) =~= Seq::<HeaderView>::empty());
        while i < self.0.len()
            invariant
                i <= self.0.len(),
                self@.len() == self.0.len(),
                header_views(out@) == written_order(self@.take(i as int)),
            decreases self.0.len() - i,
        {
            let item = self.0[i].clone();
            let mut pos: usize = out.len();
            let mut placed = false;
            while pos > 0 && !placed
                invariant
                    pos <= out.len(),
                    forall|k: int| pos <= k < out.len() ==> written_before(item@, (#[trigger] out@[k])@),
                    placed ==> pos > 0 && !written_before(item@, out@[pos - 1]@),
                decreases pos + (if placed { 0int } else { 1int }),
            {
                if item.name.precedes(&out[pos - 1].name) {
                    pos -= 1;
                } else {
                    placed = true;
                }
            }
            proof {
                let before = header_views(out@);
                assert forall|k: int| pos <= k < before.len() implies written_before(
                    item@,
                    #[trigger] before[k],
                ) by {
                    assert(before[k] == out@[k]@);
                }
                if pos > 0 {
                    assert(before[pos - 1] == out@[pos - 1]@);
                }
                lemma_insert_written_at(before, item@, pos as int);
                assert(self@.take(i + 1).drop_last() =~= self@.take(i as int));
                assert(self@.take(i + 1).last() == item@);
                assert(header_views(out@.insert(pos as int, item)) =~= before.insert(
                    pos as int,
                    item@,
                ));
            }
            out.insert(pos, item);
            i += 1;
        }
        assert(self@.take(i as int) =~= self@);
        out
    }
}

impl Default for Headers {
    fn default() -> (r: Self)
        ensures
            r@ == Seq::<HeaderView>::empty(),
    {
        Headers::new()
    }
}

impl PartialEq for Headers {
    fn eq(&self, other: &Self) -> (r: bool) {
        if self.0.len() != other.0.len() {
            assert(self@.len() != other@.len());
            return false;
        }
        let mut i: usize = 0;
        while i < self.0.len()
            invariant
                i <= self.0@.len(),
                self.0@.len() == other.0@.len(),
                forall|k: int| 0 <= k < i ==> self@[k] == other@[k],
            decreases self.0@.len() - i,
        {
            if self.0[i] != other.0[i] {
                assert(self@[i as int] != other@[i as int]);
                return false;
            }
            i += 1;
        }
        assert(self@ =~= other@);
        true
    }
}

impl vstd::std_specs::cmp::PartialEqSpecImpl for Headers {
    open spec fn obeys_eq_spec() -> bool {
        true
    }

    open spec fn eq_spec(&self, other: &Self) -> bool {
        self@ == other@
    }
}

impl Eq for Headers {

}

impl Clone for Headers {
    fn clone(&self) -> (r: Self)
        ensures
            r@ == self@,
    {
        let mut out: Vec<Header> = Vec::new();
        let mut i: usize = 0;
        while i < self.0.len()
            invariant
                i <= self.0.len(),
                out@.len() == i,
                forall|k: int| 0 <= k < i ==> (#[trigger] out@[k])@ == self.0@[k]@,
            decreases self.0.len() - i,
        {
            out.push(self.0[i].clone());
            i += 1;
        }
        let r = Headers(out);
        assert(r@ =~= self@);
        r
    }
}

/// No header is written before itself, and no two are written before each other.
pub proof fn lemma_written_before_asymmetric(a: HeaderView, b: HeaderView)
    ensures
        written_before(a, b) ==> !written_before(b, a),
{
    lemma_lex_lt_asymmetric(a.name.text, b.name.text);
}

/// One step of a filter over a growing prefix: the prefix one longer is
/// filtered by filtering the shorter one and keeping or dropping the new
/// element.
pub proof fn lemma_filter_step<A>(s: Seq<A>, i: int, keep: spec_fn(A) -> bool)
    requires
        0 <= i < s.len(),
    ensures
        s.take(i + 1).filter(keep) == if keep(s[i]) {
            s.take(i).filter(keep).push(s[i])
        } else {
            s.take(i).filter(keep)
        },
{
    reveal(Seq::filter);
    assert(s.take(i + 1).drop_last() =~= s.take(i));
    assert(s.take(i + 1).last() == s[i]);
}

} // verus!
