//! The endpoints of the companion application's API that the driver knows, described as
//! plain requests, and how a request and its response are handled.
use vstd::prelude::*;

use crate::errors::LcuDriverError;
use crate::models::api_error::{maps_api_error, ApiError};

pub mod champ_select;
pub mod gameflow;
pub mod perks;
pub mod summoner;

verus! {

/// The HTTP methods the API is called with.
#[derive(Debug, Clone, Copy, PartialEq, Eq, Structural)]
pub enum Method {
    Get,
    Post,
    Patch,
    Delete,
}

impl Method {
    /// The method's name on the wire.
    pub fn as_str(&self) -> (r: &'static str)
        ensures
            r@ == match self {
                Method::Get => "GET"@,
                Method::Post => "POST"@,
                Method::Patch => "PATCH"@,
                Method::Delete => "DELETE"@,
            },
    {
        match self {
            Method::Get => "GET",
            Method::Post => "POST",
            Method::Patch => "PATCH",
            Method::Delete => "DELETE",
        }
    }
}

/// One request to the API: a path under the session's root, a method, extra headers, and a
/// body when there is one.
pub struct EndpointInfo {
    pub url: String,
    pub method: Method,
    pub headers: Option<Vec<(String, String)>>,
    pub body: Option<String>,
}

/// The header that marks a JSON body.
pub open spec fn json_content_type() -> (Seq<char>, Seq<char>) {
    ("Content-Type"@, "application/json"@)
}

/// The headers a request carries beyond the session's defaults, in the order they are set
/// (a later one replaces an earlier one of the same name): the caller's, then the JSON
/// content type when there is a body.
pub open spec fn request_headers_of(
    headers: Option<Seq<(Seq<char>, Seq<char>)>>,
    has_body: bool,
) -> Seq<(Seq<char>, Seq<char>)> {
    let given = match headers {
        Some(h) => h,
        None => Seq::empty(),
    };
    if has_body {
        given.push(json_content_type())
    } else {
        given
    }
}

pub open spec fn header_views(h: Seq<(String, String)>) -> Seq<(Seq<char>, Seq<char>)> {
    h.map_values(|p: (String, String)| (p.0@, p.1@))
}

impl EndpointInfo {
    /// The headers this request sets beyond the session's defaults.
    pub fn request_headers(&self) -> (r: Vec<(String, String)>)
        ensures
            header_views(r@) == request_headers_of(
                match self.headers {
                    Some(h) => Some(header_views(h@)),
                    None => None,
                },
                self.body is Some,
            ),
    {
        let mut out: Vec<(String, String)> = Vec::new();
        match &self.headers {
            Some(h) => {
                let mut i: usize = 0;
                while i < h.len()
                    invariant
                        i <= h@.len(),
                        header_views(out@) == header_views(h@.take(i as int)),
                    decreases h@.len() - i,
                {
                    let ghost old_out = out@;
                    let (k, v) = &h[i];
                    out.push((k.clone(), v.clone()));
                    proof {
                        let item = (h@[i as int].0@, h@[i as int].1@);
                        assert(h@.take(i + 1) =~= h@.take(i as int).push(h@[i as int]));
                        assert(header_views(out@) =~= header_views(old_out).push(item));
                        assert(header_views(h@.take(i + 1)) =~= header_views(h@.take(i as int)).push(
                            item,
                        ));
                    }
                    i = i + 1;
                }
                proof {
                    assert(h@.take(h@.len() as int) =~= h@);
                }
            },
            None => {
                proof {
                    assert(header_views(out@) =~= Seq::<(Seq<char>, Seq<char>)>::empty());
                }
            },
        }
        if self.body.is_some() {
            let ghost before = header_views(out@);
            out.push((String::from_str("Content-Type"), String::from_str("application/json")));
            proof {
                assert(header_views(out@) =~= before.push(json_content_type()));
            }
        }
        out
    }
}

/// Whether a response status reports success.
pub open spec fn is_success(status: u16) -> bool {
    200 <= status <= 299
}

/// Whether a response status reports success: any status from 200 to 299.
pub fn is_success_status(status: u16) -> (r: bool)
    ensures
        r == is_success(status),
{
    200 <= status && status <= 299
}

/// The error for an unsuccessful response, given its body read as an API error, or the
/// text of the reason it could not be read as one.
pub fn error_of_response(decoded: Result<ApiError, String>) -> (r: LcuDriverError)
    ensures
        match decoded {
            Ok(e) => r == maps_api_error(e),
            Err(m) => r == LcuDriverError::Other(m),
        },
{
    match decoded {
        Ok(e) => LcuDriverError::from(e),
        Err(m) => LcuDriverError::Other(m),
    }
}

} // verus!
