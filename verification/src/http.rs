//! Plain models of the HTTP values the pipeline mediates: a request as
//! method, host, path and body; a response as status, headers and body.
//! The composition root converts between these and its transport.

use crate::strutil::spec_digits;
use crate::strutil::u64_to_string;
use vstd::prelude::*;
use vstd::slice::slice_to_vec;
use vstd::string::StringExecFns;

verus! {

/// The request methods the pipeline distinguishes; everything else is
/// routed like a read that no pattern matches.
#[derive(PartialEq, Eq, Structural, Clone, Copy)]
pub enum Method {
    Get,
    Post,
    Other,
}

/// An inbound request: method, the host it was addressed to, its path,
/// and its raw body bytes.
pub struct Request {
    pub method: Method,
    pub host: String,
    pub path: String,
    pub body: Vec<u8>,
}

/// An outbound response: status code, headers in order, body bytes.
pub struct Response {
    pub status: u16,
    pub headers: Vec<(String, String)>,
    pub body: Vec<u8>,
}

/// The mathematical shape of a header list.
pub open spec fn headers_view(hs: Seq<(String, String)>) -> Seq<(Seq<char>, Seq<char>)> {
    Seq::new(hs.len(), |i: int| (hs[i].0@, hs[i].1@))
}

/// The mathematical shape of a response.
pub struct GResp {
    pub status: u16,
    pub headers: Seq<(Seq<char>, Seq<char>)>,
    pub body: Seq<u8>,
}

pub open spec fn resp_view(r: Response) -> GResp {
    GResp { status: r.status, headers: headers_view(r.headers@), body: r.body@ }
}

impl Response {
    /// A bare 200 response with no headers.
    pub fn ok(body: Vec<u8>) -> (r: Response)
        ensures
            resp_view(r) == (GResp { status: 200, headers: Seq::empty(), body: body@ }),
    {
        let r = Response { status: 200, headers: Vec::new(), body };
        proof {
            assert(headers_view(r.headers@) =~= Seq::<(Seq<char>, Seq<char>)>::empty());
        }
        r
    }

    /// A response with the given status and no headers.
    pub fn with_status(status: u16, body: Vec<u8>) -> (r: Response)
        ensures
            resp_view(r) == (GResp { status: status, headers: Seq::empty(), body: body@ }),
    {
        let r = Response { status, headers: Vec::new(), body };
        proof {
            assert(headers_view(r.headers@) =~= Seq::<(Seq<char>, Seq<char>)>::empty());
        }
        r
    }

    /// Appends one header.
    pub fn add_header(&mut self, name: &str, value: &str)
        ensures
            final(self).status == old(self).status,
            final(self).body@ == old(self).body@,
            headers_view(final(self).headers@) == headers_view(old(self).headers@).push(
                (name@, value@),
            ),
    {
        self.headers.push((name.to_owned(), value.to_owned()));
        proof {
            assert(headers_view(self.headers@) =~= headers_view(old(self).headers@).push(
                (name@, value@),
            ));
        }
    }

    /// Appends the `Cache-Control` directive for `seconds` of caching.
    pub fn cache_for(&mut self, seconds: u64)
        ensures
            final(self).status == old(self).status,
            final(self).body@ == old(self).body@,
            headers_view(final(self).headers@) == headers_view(old(self).headers@).push(
                ("Cache-Control"@, "max-age="@ + spec_digits(seconds as int)),
            ),
    {
        let mut v = "max-age=".to_owned();
        let num = u64_to_string(seconds);
        v.append(num.as_str());
        self.add_header("Cache-Control", v.as_str());
    }

    /// An independent copy: same status, headers and body.
    pub fn duplicate(&self) -> (r: Response)
        ensures
            resp_view(r) == resp_view(*self),
    {
        let mut headers: Vec<(String, String)> = Vec::new();
        let n = self.headers.len();
        let mut i: usize = 0;
        while i < n
            invariant
                i <= n,
                n == self.headers@.len(),
                headers@.len() == i,
                forall|j: int|
                    0 <= j < i ==> headers@[j].0@ == self.headers@[j].0@ && headers@[j].1@
                        == self.headers@[j].1@,
            decreases n - i,
        {
            let name = self.headers[i].0.clone();
            let value = self.headers[i].1.clone();
            headers.push((name, value));
            i += 1;
        }
        let r = Response { status: self.status, headers, body: slice_to_vec(self.body.as_slice()) };
        proof {
            assert(headers_view(r.headers@) =~= headers_view(self.headers@));
        }
        r
    }
}

/// The JSON envelope of a successful upload: `{"id":"<id>"}`.
pub fn json_id(id: &str) -> (r: String)
    ensures
        r@ == "{\"id\":\""@ + id@ + "\"}"@,
{
    let mut r = "{\"id\":\"".to_owned();
    r.append(id);
    r.append("\"}");
    proof {
        assert(r@ =~= "{\"id\":\""@ + id@ + "\"}"@);
    }
    r
}

/// The uniform JSON error body: `{"code":<code>,"message":"<message>"}`.
pub fn json_error(code: u16, message: &str) -> (r: String)
    ensures
        r@ == "{\"code\":"@ + spec_digits(code as int) + ",\"message\":\""@ + message@ + "\"}"@,
{
    let mut r = "{\"code\":".to_owned();
    let num = u64_to_string(code as u64);
    r.append(num.as_str());
    r.append(",\"message\":\"");
    r.append(message);
    r.append("\"}");
    proof {
        assert(r@ =~= "{\"code\":"@ + spec_digits(code as int) + ",\"message\":\""@ + message@
            + "\"}"@);
    }
    r
}

} // verus!
