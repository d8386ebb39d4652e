//! Request methods.

use vstd::prelude::*;
use crate::text::str_eq;

verus! {

/// The method of a request: one of the standard methods, or an extension
/// method with its token as given.
#[derive(Debug, Hash)]
pub enum Method {
    Get,
    Head,
    Post,
    Put,
    Delete,
    Options,
    Patch,
    Trace,
    Connect,
    Other(String),
}

impl View for Method {
    type V = Seq<char>;

    /// A method is its token.
    open spec fn view(&self) -> Seq<char> {
        match self {
            Method::Get => "GET"@,
            Method::Head => "HEAD"@,
            Method::Post => "POST"@,
            Method::Put => "PUT"@,
            Method::Delete => "DELETE"@,
            Method::Options => "OPTIONS"@,
            Method::Patch => "PATCH"@,
            Method::Trace => "TRACE"@,
            Method::Connect => "CONNECT"@,
            Method::Other(token) => token@,
        }
    }
}

impl Method {
    /// The method that a token stands for. Standard methods are matched in
    /// upper case; any other token is an extension method.
    pub fn from_name(name: &str) -> (r: Method)
        ensures
            r@ == name@,
    {
        if str_eq(name, "GET") {
            Method::Get
        } else if str_eq(name, "HEAD") {
            Method::Head
        } else if str_eq(name, "POST") {
            Method::Post
        } else if str_eq(name, "PUT") {
            Method::Put
        } else if str_eq(name, "DELETE") {
            Method::Delete
        } else if str_eq(name, "OPTIONS") {
            Method::Options
        } else if str_eq(name, "PATCH") {
            Method::Patch
        } else if str_eq(name, "TRACE") {
            Method::Trace
        } else if str_eq(name, "CONNECT") {
            Method::Connect
        } else {
            Method::Other(name.to_string())
        }
    }

    /// The token of the method.
    pub fn to_string(&self) -> (r: String)
        ensures
            r@ == self@,
    {
        match self {
            Method::Get => "GET".to_string(),
            Method::Head => "HEAD".to_string(),
            Method::Post => "POST".to_string(),
            Method::Put => "PUT".to_string(),
            Method::Delete => "DELETE".to_string(),
            Method::Options => "OPTIONS".to_string(),
            Method::Patch => "PATCH".to_string(),
            Method::Trace => "TRACE".to_string(),
            Method::Connect => "CONNECT".to_string(),
            Method::Other(token) => token.clone(),
        }
    }
}

impl Clone for Method {
    fn clone(&self) -> (r: Self)
        ensures
            r@ == self@,
    {
        match self {
            Method::Get => Method::Get,
            Method::Head => Method::Head,
            Method::Post => Method::Post,
            Method::Put => Method::Put,
            Method::Delete => Method::Delete,
            Method::Options => Method::Options,
            Method::Patch => Method::Patch,
            Method::Trace => Method::Trace,
            Method::Connect => Method::Connect,
            Method::Other(token) => Method::Other(token.clone()),
        }
    }
}

impl PartialEq for Method {
    fn eq(&self, other: &Self) -> (r: bool) {
        str_eq(self.to_string().as_str(), other.to_string().as_str())
    }
}

impl vstd::std_specs::cmp::PartialEqSpecImpl for Method {
    open spec fn obeys_eq_spec() -> bool {
        true
    }

    open spec fn eq_spec(&self, other: &Self) -> bool {
        self@ == other@
    }
}

impl Eq for Method {

}

} // verus!
