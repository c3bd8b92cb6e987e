//! The request-level state machines and the cache-aside middleware.
//!
//! Upload runs strictly through receive, size check, decompress,
//! validate, hash, encode id, map path, store, respond; any failure
//! short-circuits to its error and nothing later runs — in particular
//! nothing is hashed or stored for an oversized body, and nothing is
//! stored for an invalid one.  Download runs through id validation,
//! fetch with retry, and respond or not-found.  The middleware serves
//! repeat GETs from the edge cache and populates it from a detached
//! background task.

use crate::cache::{CacheTask, EdgeCache, Scheduler};
use crate::codec;
use crate::error::Error;
use crate::hashing;
use crate::http::{headers_view, json_error, json_id, resp_view, GResp, Method, Request, Response};
use crate::ids;
use crate::router;
use crate::storage::{attempts_needed, consumed_after, leading_failures, sat_add, Backend, ATTEMPTS};
use crate::strutil::{spec_digits, str_eq};
use crate::validator;
use crate::MAX_UPLOAD_SIZE;
use vstd::prelude::*;
use vstd::string::StrSliceExecFns;
use vstd::string::StringExecFns;
use vstd::string::StringSliceAdditionalSpecFns;
use vstd::utf8::encode_utf8;

verus! {

/// The identifier an upload of these bytes receives.
pub open spec fn upload_id(data: Seq<u8>) -> Seq<char> {
    ids::spec_short_id(hashing::sha1_of(data), ids::ID_LEN as int)
}

/// The storage key an upload of these bytes lands under.
pub open spec fn upload_key(data: Seq<u8>) -> Seq<char> {
    ids::spec_storage_key(upload_id(data))
}

/// Whether decompressed text passes the validation gate.
pub open spec fn doc_passes(t: Seq<u8>) -> bool {
    crate::xml::parse_doc(t) matches Some(root) && validator::doc_ok(root)
}

/// The response of a successful upload: a JSON envelope or the bare
/// identifier, per entry route.
pub open spec fn upload_response_ok(resp: Response, id: Seq<char>, json: bool) -> bool {
    if json {
        resp_view(resp) == (GResp {
            status: 200,
            headers: seq![("Content-Type"@, "application/json"@)],
            body: encode_utf8("{\"id\":\""@ + id + "\"}"@),
        })
    } else {
        resp_view(resp) == (GResp { status: 200, headers: Seq::empty(), body: encode_utf8(id) })
    }
}

/// Everything the upload pipeline guarantees, relating the backend
/// before (`s0`) and after (`s1`) to the result.
pub open spec fn upload_outcome(
    data: Seq<u8>,
    json: bool,
    s0: Backend,
    s1: Backend,
    r: Result<Response, Error>,
) -> bool {
    let lf = leading_failures(s0.fault_script());
    &&& s1.wf()
    &&& (data.len() > MAX_UPLOAD_SIZE as int ==> (r matches Err(e) && e is BadRequest) && s1 == s0)
    &&& (data.len() <= MAX_UPLOAD_SIZE as int && codec::spec_decompress(data) is None ==> (
    r matches Err(e) && e is BadRequest) && s1 == s0)
    &&& (data.len() <= MAX_UPLOAD_SIZE as int && (codec::spec_decompress(data) matches Some(t)
        && !doc_passes(t)) ==> (r matches Err(e) && e is InvalidPaste) && s1 == s0)
    &&& (data.len() <= MAX_UPLOAD_SIZE as int && (codec::spec_decompress(data) matches Some(t)
        && doc_passes(t)) ==> {
        &&& s1.get_count() == s0.get_count()
        &&& s1.fault_script() == consumed_after(
            s0.fault_script(),
            attempts_needed(s0.fault_script()),
        )
        &&& s1.put_count() == sat_add(s0.put_count(), attempts_needed(s0.fault_script()))
        &&& (lf < ATTEMPTS as int ==> s1.contents() == s0.contents().insert(
            upload_key(data),
            data,
        ) && (r matches Ok(resp) && upload_response_ok(resp, upload_id(data), json)))
        &&& (lf >= ATTEMPTS as int ==> (r matches Err(e) && e is StorageError) && s1.contents()
            == s0.contents())
    })
}

/// Everything the download pipeline guarantees for identifier `id`.
pub open spec fn download_outcome(
    id: Seq<char>,
    s0: Backend,
    s1: Backend,
    r: Result<Response, Error>,
) -> bool {
    let key = ids::spec_storage_key(id);
    let lf = leading_failures(s0.fault_script());
    &&& s1.wf()
    &&& s1.contents() == s0.contents()
    &&& s1.put_count() == s0.put_count()
    &&& (!ids::valid_id(id) ==> (r matches Err(e) && e is BadRequest) && s1 == s0)
    &&& (ids::valid_id(id) ==> {
        &&& s1.fault_script() == consumed_after(
            s0.fault_script(),
            attempts_needed(s0.fault_script()),
        )
        &&& s1.get_count() == sat_add(s0.get_count(), attempts_needed(s0.fault_script()))
        &&& (lf >= ATTEMPTS as int ==> (r matches Err(e) && e is StorageError))
        &&& (lf < ATTEMPTS as int ==> (if s0.contents().contains_key(key) {
            r matches Ok(resp) && resp_view(resp) == (GResp {
                status: 200,
                headers: seq![
                    ("Content-Type"@, "text/plain"@),
                    ("Cache-Control"@, "max-age="@ + spec_digits(31536000)),
                ],
                body: s0.contents()[key],
            })
        } else {
            r matches Err(e) && e is NotFound
        }))
    })
}

/// Handles an upload: size gate, decompress, validate, hash, encode,
/// map, store with retry, respond.
///
/// The size gate runs before anything else: an oversized body causes no
/// hashing and no storage traffic.  A body that fails decompression or
/// validation likewise never reaches the backend.
pub fn handle_upload(data: &Vec<u8>, return_json: bool, store: &mut Backend) -> (r: Result<
    Response,
    Error,
>)
    requires
        old(store).wf(),
    ensures
        upload_outcome(data@, return_json, *old(store), *final(store), r),
{
    if data.len() > MAX_UPLOAD_SIZE {
        return Err(Error::BadRequest("Paste too large".to_owned()));
    }
    let text = match codec::decompress(data.as_slice()) {
        Ok(t) => t,
        Err(e) => {
            return Err(Error::BadRequest(e.message().to_owned()));
        },
    };
    match validator::parse(text.as_str()) {
        Ok(_) => {},
        Err(pe) => {
            return Err(Error::InvalidPaste(pe.message().to_owned(), text));
        },
    }
    let digest = hashing::sha1(data);
    let id = match ids::hash_to_short_id(&digest, ids::ID_LEN) {
        Ok(id) => id,
        Err(e) => {
            return Err(e);
        },
    };
    proof {
        crate::b64::lemma_b64_encode_len(digest@);
        ids::lemma_short_id_valid(digest@, ids::ID_LEN as int);
    }
    let key = match ids::to_path(id.as_str()) {
        Ok(k) => k,
        Err(e) => {
            return Err(e);
        },
    };
    match store.put(key.as_str(), data) {
        Ok(_) => {},
        Err(e) => {
            return Err(e);
        },
    }
    if return_json {
        let body = json_id(id.as_str());
        let mut resp = Response::ok(body.as_str().as_bytes_vec());
        resp.add_header("Content-Type", "application/json");
        proof {
            assert(headers_view(resp.headers@) =~= seq![("Content-Type"@, "application/json"@)]);
        }
        Ok(resp)
    } else {
        Ok(Response::ok(id.as_str().as_bytes_vec()))
    }
}

/// Handles a download: validate the identifier, fetch with retry, and
/// respond with the immutable object (cacheable for a year) or not
/// found.
pub fn handle_download(id: &str, store: &mut Backend) -> (r: Result<Response, Error>)
    requires
        old(store).wf(),
    ensures
        download_outcome(id@, *old(store), *final(store), r),
{
    let key = match ids::to_path(id) {
        Ok(k) => k,
        Err(e) => {
            return Err(e);
        },
    };
    match store.get(key.as_str()) {
        Ok(Some(bytes)) => {
            let mut resp = Response::ok(bytes);
            resp.add_header("Content-Type", "text/plain");
            resp.cache_for(31536000);
            proof {
                assert(headers_view(resp.headers@) =~= seq![
                    ("Content-Type"@, "text/plain"@),
                    ("Cache-Control"@, "max-age="@ + spec_digits(31536000)),
                ]);
            }
            Ok(resp)
        },
        Ok(None) => Err(Error::NotFound(id.to_owned())),
        Err(e) => Err(e),
    }
}

/// What `try_handle` does for a request: dispatch by method and path.
pub open spec fn handle_outcome(
    req: Request,
    s0: Backend,
    s1: Backend,
    r: Result<Option<Response>, Error>,
) -> bool {
    if req.method == Method::Post && req.path@ == "/api/v1/paste/"@ {
        &&& (r matches Ok(o) ==> o matches Some(resp) && upload_outcome(
            req.body@,
            true,
            s0,
            s1,
            Ok(resp),
        ))
        &&& (r matches Err(e) ==> upload_outcome(req.body@, true, s0, s1, Err(e)))
    } else if req.method == Method::Post && req.path@ == "/pob/"@ {
        &&& (r matches Ok(o) ==> o matches Some(resp) && upload_outcome(
            req.body@,
            false,
            s0,
            s1,
            Ok(resp),
        ))
        &&& (r matches Err(e) ==> upload_outcome(req.body@, false, s0, s1, Err(e)))
    } else if router::spec_download_id(req.path@, req.method) is Some {
        let id = router::spec_download_id(req.path@, req.method)->0;
        &&& (r matches Ok(o) ==> o matches Some(resp) && download_outcome(id, s0, s1, Ok(resp)))
        &&& (r matches Err(e) ==> download_outcome(id, s0, s1, Err(e)))
    } else {
        r == Result::<Option<Response>, Error>::Ok(None) && s1 == s0
    }
}

/// Dispatches a request to the upload or download pipeline, or passes
/// it by.
pub fn try_handle(req: &Request, store: &mut Backend) -> (r: Result<Option<Response>, Error>)
    requires
        old(store).wf(),
    ensures
        handle_outcome(*req, *old(store), *final(store), r),
        final(store).wf(),
{
    if matches!(req.method, Method::Post) && str_eq(req.path.as_str(), "/api/v1/paste/") {
        return match handle_upload(&req.body, true, store) {
            Ok(resp) => Ok(Some(resp)),
            Err(e) => Err(e),
        };
    }
    if matches!(req.method, Method::Post) && str_eq(req.path.as_str(), "/pob/") {
        return match handle_upload(&req.body, false, store) {
            Ok(resp) => Ok(Some(resp)),
            Err(e) => Err(e),
        };
    }
    match router::is_download_url(req.path.as_str(), req.method) {
        Some(id) => match handle_download(id.as_str(), store) {
            Ok(resp) => Ok(Some(resp)),
            Err(e) => Err(e),
        },
        None => Ok(None),
    }
}

/// The discovery document for a host: name and canonical address.
pub open spec fn oembed_body(host: Seq<char>) -> Seq<char> {
    "{\"provider_name\":\"Paste of Exile - POB B.in\",\"provider_url\":\"https://"@ + host + "\"}"@
}

/// What `try_main` does: the API dispatch, then the static discovery
/// document, then fall-through to the rendering collaborator.
pub open spec fn main_outcome(
    req: Request,
    s0: Backend,
    s1: Backend,
    r: Result<Option<Response>, Error>,
) -> bool {
    if req.method == Method::Post && req.path@ == "/api/v1/paste/"@ {
        handle_outcome(req, s0, s1, r)
    } else if req.method == Method::Post && req.path@ == "/pob/"@ {
        handle_outcome(req, s0, s1, r)
    } else if router::spec_download_id(req.path@, req.method) is Some {
        handle_outcome(req, s0, s1, r)
    } else if req.method == Method::Get && req.path@ == "/oembed.json"@ {
        &&& s1 == s0
        &&& r matches Ok(o) && o matches Some(resp) && resp_view(resp) == (GResp {
            status: 200,
            headers: seq![
                ("Content-Type"@, "application/json"@),
                ("Cache-Control"@, "max-age="@ + spec_digits(43200)),
            ],
            body: encode_utf8(oembed_body(req.host@)),
        })
    } else {
        r == Result::<Option<Response>, Error>::Ok(None) && s1 == s0
    }
}

/// Runs a request through the API, then the discovery document, then
/// falls through for the rendering collaborator to answer.
pub fn try_main(req: &Request, store: &mut Backend) -> (r: Result<Option<Response>, Error>)
    requires
        old(store).wf(),
    ensures
        main_outcome(*req, *old(store), *final(store), r),
        final(store).wf(),
{
    let handled = try_handle(req, store);
    match handled {
        Ok(None) => {},
        other => {
            return other;
        },
    }
    if matches!(req.method, Method::Get) && str_eq(req.path.as_str(), "/oembed.json") {
        let mut body = "{\"provider_name\":\"Paste of Exile - POB B.in\",\"provider_url\":\"https://"
            .to_owned();
        body.append(req.host.as_str());
        body.append("\"}");
        proof {
            assert(body@ =~= oembed_body(req.host@));
        }
        let mut resp = Response::ok(body.as_str().as_bytes_vec());
        resp.add_header("Content-Type", "application/json");
        resp.cache_for(43200);
        proof {
            assert(headers_view(resp.headers@) =~= seq![
                ("Content-Type"@, "application/json"@),
                ("Cache-Control"@, "max-age="@ + spec_digits(43200)),
            ]);
        }
        return Ok(Some(resp));
    }
    Ok(None)
}

/// What the paste route's page context is built from: the stored wire
/// text for the name, or nothing.  An identifier that fails path
/// validation is treated as an unknown paste, not as an error, so the
/// page pipeline renders its not-found view; only a backend failure
/// after retries surfaces as an error.
pub open spec fn resolve_outcome(
    name: Seq<char>,
    s0: Backend,
    s1: Backend,
    r: Result<Option<Vec<u8>>, Error>,
) -> bool {
    let key = ids::spec_storage_key(name);
    let lf = leading_failures(s0.fault_script());
    &&& s1.wf()
    &&& s1.contents() == s0.contents()
    &&& s1.put_count() == s0.put_count()
    &&& (!ids::valid_id(name) ==> r == Result::<Option<Vec<u8>>, Error>::Ok(None) && s1 == s0)
    &&& (ids::valid_id(name) ==> {
        &&& s1.fault_script() == consumed_after(
            s0.fault_script(),
            attempts_needed(s0.fault_script()),
        )
        &&& s1.get_count() == sat_add(s0.get_count(), attempts_needed(s0.fault_script()))
        &&& (lf >= ATTEMPTS as int ==> (r matches Err(e) && e is StorageError))
        &&& (lf < ATTEMPTS as int ==> (if s0.contents().contains_key(key) {
            r matches Ok(o) && o matches Some(bytes) && bytes@ == s0.contents()[key]
        } else {
            r == Result::<Option<Vec<u8>>, Error>::Ok(None)
        }))
    })
}

/// Looks the paste a page route names up in storage, for the rendering
/// collaborator to build its context from.
pub fn resolve_paste(name: &str, store: &mut Backend) -> (r: Result<Option<Vec<u8>>, Error>)
    requires
        old(store).wf(),
    ensures
        resolve_outcome(name@, *old(store), *final(store), r),
{
    let key = match ids::to_path(name) {
        Ok(k) => k,
        Err(_) => {
            return Ok(None);
        },
    };
    match store.get(key.as_str()) {
        Ok(found) => Ok(found),
        Err(e) => Err(e),
    }
}

/// The key under which a request's response is cached: its host and
/// path, normalized to one string.
pub open spec fn norm_key(req: Request) -> Seq<char> {
    req.host@ + req.path@
}

fn norm_key_exec(req: &Request) -> (r: String)
    ensures
        r@ == norm_key(*req),
{
    let mut r = req.host.clone();
    r.append(req.path.as_str());
    r
}

/// A view of a response with the cache-status header appended.
pub open spec fn with_cache_status(v: GResp, status: Seq<char>) -> GResp {
    GResp {
        status: v.status,
        headers: v.headers.push(("Cf-Cache-Status"@, status)),
        body: v.body,
    }
}

/// What the middleware guarantees.  Non-GET requests bypass the cache
/// in both directions.  A GET answered from the cache touches neither
/// the backend nor the scheduler.  A GET miss runs the inner pipeline
/// and, for a successful response, schedules one detached population
/// task; the response goes back at once either way, marked `MISS`.
pub open spec fn cached_outcome(
    req: Request,
    s0: Backend,
    s1: Backend,
    c0: EdgeCache,
    c1: EdgeCache,
    q0: Seq<(Seq<char>, GResp)>,
    q1: Seq<(Seq<char>, GResp)>,
    r: Result<Option<Response>, Error>,
) -> bool {
    &&& c1 == c0
    &&& (req.method != Method::Get ==> q1 == q0 && main_outcome(req, s0, s1, r))
    &&& (req.method == Method::Get && c0.contents().contains_key(norm_key(req)) ==> {
        &&& s1 == s0
        &&& q1 == q0
        &&& r matches Ok(o) && o matches Some(resp) && resp_view(resp) == with_cache_status(
            c0.contents()[norm_key(req)],
            "HIT"@,
        )
    })
    &&& (req.method == Method::Get && !c0.contents().contains_key(norm_key(req)) ==> {
        &&& (r matches Ok(Some(resp)) ==> exists|inner: Response|
            {
                &&& #[trigger] main_outcome(req, s0, s1, Ok(Some(inner)))
                &&& resp_view(resp) == with_cache_status(resp_view(inner), "MISS"@)
                &&& (resp_view(inner).status == 200 ==> q1 == q0.push(
                    (norm_key(req), resp_view(inner)),
                ))
                &&& (resp_view(inner).status != 200 ==> q1 == q0)
            })
        &&& (r matches Ok(None) ==> main_outcome(req, s0, s1, Ok(None)) && q1 == q0)
        &&& (r matches Err(e) ==> main_outcome(req, s0, s1, Err(e)) && q1 == q0)
    })
}

/// The cache-aside middleware around the whole pipeline.
pub fn cached(
    req: &Request,
    cache: &EdgeCache,
    store: &mut Backend,
    sched: &mut Scheduler,
) -> (r: Result<Option<Response>, Error>)
    requires
        old(store).wf(),
        cache.wf(),
    ensures
        final(store).wf(),
        cached_outcome(
            *req,
            *old(store),
            *final(store),
            *cache,
            *cache,
            old(sched).queue(),
            final(sched).queue(),
            r,
        ),
{
    if !matches!(req.method, Method::Get) {
        return try_main(req, store);
    }
    let key = norm_key_exec(req);
    match cache.get(key.as_str()) {
        Some(mut resp) => {
            resp.add_header("Cf-Cache-Status", "HIT");
            Ok(Some(resp))
        },
        None => {
            let inner = match try_main(req, store) {
                Ok(Some(inner)) => inner,
                other => {
                    return other;
                },
            };
            let ghost inner_ghost = inner;
            if inner.status == 200 {
                let copy = inner.duplicate();
                sched.spawn_detached(CacheTask { key, response: copy });
            }
            let mut resp = inner;
            resp.add_header("Cf-Cache-Status", "MISS");
            Ok(Some(resp))
        },
    }
}

/// The outcome of one whole mediated request: either a final response,
/// or fall-through for the rendering collaborator; beside it, the error
/// forwarded to the external reporter — server-class failures only.
pub enum Handled {
    Done(Response),
    Fallthrough,
}

/// Serializes a terminal error to the wire: matching status, uniform
/// JSON body, nothing of the internals beyond the short message.
pub fn error_response(err: &Error) -> (r: Response)
    ensures
        resp_view(r) == (GResp {
            status: err.spec_code(),
            headers: seq![("Content-Type"@, "application/json"@)],
            body: encode_utf8(
                "{\"code\":"@ + spec_digits(err.spec_code() as int) + ",\"message\":\""@
                    + err.spec_message() + "\"}"@,
            ),
        }),
{
    let code = err.code();
    let message = err.message();
    let body = json_error(code, message.as_str());
    let mut resp = Response::with_status(code, body.as_str().as_bytes_vec());
    resp.add_header("Content-Type", "application/json");
    proof {
        assert(headers_view(resp.headers@) =~= seq![("Content-Type"@, "application/json"@)]);
    }
    resp
}

/// Runs one request through the middleware and maps any terminal error
/// to the wire; a server-class error is also handed back for the
/// external reporter.
pub fn handle_request(
    req: &Request,
    cache: &EdgeCache,
    store: &mut Backend,
    sched: &mut Scheduler,
) -> (r: (Handled, Option<Error>))
    requires
        old(store).wf(),
        cache.wf(),
    ensures
        final(store).wf(),
        match r.0 {
            Handled::Done(resp) => {
                ||| (cached_outcome(
                    *req,
                    *old(store),
                    *final(store),
                    *cache,
                    *cache,
                    old(sched).queue(),
                    final(sched).queue(),
                    Ok(Some(resp)),
                ) && r.1 is None)
                ||| (exists|e: Error|
                    {
                        &&& #[trigger] cached_outcome(
                            *req,
                            *old(store),
                            *final(store),
                            *cache,
                            *cache,
                            old(sched).queue(),
                            final(sched).queue(),
                            Err(e),
                        )
                        &&& resp_view(resp) == (GResp {
                            status: e.spec_code(),
                            headers: seq![("Content-Type"@, "application/json"@)],
                            body: encode_utf8(
                                "{\"code\":"@ + spec_digits(e.spec_code() as int)
                                    + ",\"message\":\""@ + e.spec_message() + "\"}"@,
                            ),
                        })
                        &&& (e.spec_is_server_class() ==> (r.1 matches Some(rep) && rep == e))
                        &&& (!e.spec_is_server_class() ==> r.1 is None)
                    })
            },
            Handled::Fallthrough => cached_outcome(
                *req,
                *old(store),
                *final(store),
                *cache,
                *cache,
                old(sched).queue(),
                final(sched).queue(),
                Ok(None),
            ) && r.1 is None,
        },
{
    match cached(req, cache, store, sched) {
        Ok(Some(resp)) => (Handled::Done(resp), None),
        Ok(None) => (Handled::Fallthrough, None),
        Err(e) => {
            let resp = error_response(&e);
            if e.is_server_class() {
                (Handled::Done(resp), Some(e))
            } else {
                (Handled::Done(resp), None)
            }
        },
    }
}

} // verus!
