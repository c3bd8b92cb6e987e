//! The store's governing properties, stated once and proved from the
//! pipeline's contracts.

use crate::api::{upload_id, upload_key, upload_outcome};
use crate::api::{cached_outcome, norm_key};
use crate::error::Error;
use crate::http::{GResp, Request, Response, Method};
use crate::cache::EdgeCache;
use crate::storage::Backend;
use crate::MAX_UPLOAD_SIZE;
use vstd::prelude::*;

verus! {

/// Determinism and idempotence: identical bytes always receive the
/// identical identifier, and writing the same bytes under that
/// identifier a second time leaves the stored contents exactly as the
/// first write did.
pub proof fn lemma_upload_deterministic(b1: Seq<u8>, b2: Seq<u8>, m: Map<Seq<char>, Seq<u8>>)
    requires
        b1 == b2,
    ensures
        upload_id(b1) == upload_id(b2),
        m.insert(upload_key(b1), b1).insert(upload_key(b2), b2) == m.insert(upload_key(b1), b1),
{
    assert(m.insert(upload_key(b1), b1).insert(upload_key(b2), b2) =~= m.insert(
        upload_key(b1),
        b1,
    ));
}

/// Determinism and idempotence at the pipeline level: when an upload
/// of `data` succeeds and the same bytes are uploaded again within the
/// retry budget, the second run also succeeds and leaves the stored
/// contents exactly as the first run did.
pub proof fn lemma_second_upload_is_noop(
    data: Seq<u8>,
    json: bool,
    s0: Backend,
    s1: Backend,
    s2: Backend,
    r1: Result<Response, Error>,
    r2: Result<Response, Error>,
)
    requires
        upload_outcome(data, json, s0, s1, r1),
        upload_outcome(data, json, s1, s2, r2),
        data.len() <= MAX_UPLOAD_SIZE as int,
        crate::codec::spec_decompress(data) matches Some(t) && crate::api::doc_passes(t),
        crate::storage::leading_failures(s0.fault_script()) < crate::storage::ATTEMPTS as int,
        crate::storage::leading_failures(s1.fault_script()) < crate::storage::ATTEMPTS as int,
    ensures
        r1 is Ok,
        r2 is Ok,
        s2.contents() == s1.contents(),
{
    assert(s1.contents().insert(upload_key(data), data) =~= s1.contents());
}

/// The size gate: an oversized upload is a `BadRequest` and the backend
/// is left exactly as it was — nothing was hashed for it and no storage
/// call was made.
pub proof fn lemma_size_gate(
    data: Seq<u8>,
    json: bool,
    s0: Backend,
    s1: Backend,
    r: Result<Response, Error>,
)
    requires
        upload_outcome(data, json, s0, s1, r),
        data.len() > MAX_UPLOAD_SIZE as int,
    ensures
        r matches Err(e) && e is BadRequest,
        s1 == s0,
        s1.put_count() == s0.put_count(),
        s1.get_count() == s0.get_count(),
{
}

/// The validation gate: a body that decompresses but fails structural
/// parsing is an `InvalidPaste` and nothing is written — the backend is
/// left exactly as it was.
pub proof fn lemma_validation_gate(
    data: Seq<u8>,
    json: bool,
    s0: Backend,
    s1: Backend,
    r: Result<Response, Error>,
)
    requires
        upload_outcome(data, json, s0, s1, r),
        data.len() <= MAX_UPLOAD_SIZE as int,
        crate::codec::spec_decompress(data) matches Some(t) && !crate::api::doc_passes(t),
    ensures
        r matches Err(e) && e is InvalidPaste,
        s1 == s0,
        s1.put_count() == s0.put_count(),
{
}

/// The round trip: after a put of `v` under `k`, a get of `k` finds
/// exactly `v`.  The storage contracts speak of the contents map, so
/// the law is the map's own: the association is present and holds `v`.
pub proof fn lemma_put_get_round_trip(m: Map<Seq<char>, Seq<u8>>, k: Seq<char>, v: Seq<u8>)
    ensures
        m.insert(k, v).contains_key(k),
        m.insert(k, v)[k] == v,
{
}

/// Cache behavior, the hit half: a GET whose normalized request is
/// cached is answered from the cache alone — the storage backend is not
/// invoked (its counters do not move) and no task is scheduled.
pub proof fn lemma_cache_hit_bypasses_storage(
    req: Request,
    s0: Backend,
    s1: Backend,
    c: EdgeCache,
    q0: Seq<(Seq<char>, GResp)>,
    q1: Seq<(Seq<char>, GResp)>,
    r: Result<Option<Response>, Error>,
)
    requires
        cached_outcome(req, s0, s1, c, c, q0, q1, r),
        req.method == Method::Get,
        c.contents().contains_key(norm_key(req)),
    ensures
        s1 == s0,
        s1.get_count() == s0.get_count(),
        s1.put_count() == s0.put_count(),
        q1 == q0,
        r matches Ok(o) && o is Some,
{
}

/// Cache behavior, the miss half: a GET whose normalized request is
/// not cached runs the inner pipeline, and only a successful response
/// schedules exactly one detached population task for that key.
pub proof fn lemma_cache_miss_populates(
    req: Request,
    s0: Backend,
    s1: Backend,
    c: EdgeCache,
    q0: Seq<(Seq<char>, GResp)>,
    q1: Seq<(Seq<char>, GResp)>,
    r: Result<Option<Response>, Error>,
)
    requires
        cached_outcome(req, s0, s1, c, c, q0, q1, r),
        req.method == Method::Get,
        !c.contents().contains_key(norm_key(req)),
        r matches Ok(o) && o is Some,
    ensures
        exists|inner: Response|
            {
                &&& #[trigger] crate::api::main_outcome(req, s0, s1, Ok(Some(inner)))
                &&& (crate::http::resp_view(inner).status == 200 ==> q1 == q0.push(
                    (norm_key(req), crate::http::resp_view(inner)),
                ))
                &&& (crate::http::resp_view(inner).status != 200 ==> q1 == q0)
            },
{
}

} // verus!
