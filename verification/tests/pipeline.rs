use pobbin::api::{handle_download, handle_request, handle_upload, resolve_paste, try_main, Handled};
use pobbin::b64::b64_encode;
use pobbin::cache::{EdgeCache, Scheduler};
use pobbin::codec::compress;
use pobbin::error::Error;
use pobbin::http::{Method, Request, Response};
use pobbin::storage::{backoff_ms, should_retry, Backend};
use sha1::{Digest, Sha1};

fn sample_export() -> &'static str {
    "<PathOfBuilding><Build level=\"90\" className=\"Witch\" ascendClassName=\"Necromancer\" mainSocketGroup=\"1\"/><Skills><Skill mainActiveSkill=\"1\"><Gem nameSpec=\"Fireball\"/></Skill></Skills><Tree activeSpec=\"1\"><Spec title=\"Default\"/></Tree></PathOfBuilding>"
}

fn sample_payload() -> Vec<u8> {
    compress(sample_export()).into_bytes()
}

fn header<'a>(resp: &'a Response, name: &str) -> Option<&'a str> {
    for (k, v) in &resp.headers {
        if k == name {
            return Some(v);
        }
    }
    None
}

fn body_string(resp: &Response) -> String {
    String::from_utf8(resp.body.clone()).unwrap()
}

fn upload_ok(store: &mut Backend, json: bool) -> Response {
    match handle_upload(&sample_payload(), json, store) {
        Ok(resp) => resp,
        Err(_) => panic!("a well-formed upload must succeed"),
    }
}

fn id_of(resp: &Response) -> String {
    let body = body_string(resp);
    assert!(body.starts_with("{\"id\":\""));
    assert!(body.ends_with("\"}"));
    body["{\"id\":\"".len()..body.len() - 2].to_string()
}

#[test]
fn upload_returns_json_id_of_nine_alphabet_chars() {
    let mut store = Backend::new();
    let resp = upload_ok(&mut store, true);
    assert_eq!(resp.status, 200);
    assert_eq!(header(&resp, "Content-Type"), Some("application/json"));
    let id = id_of(&resp);
    assert_eq!(id.len(), 9);
    assert!(id.bytes().all(
        |c| c.is_ascii_alphanumeric() || c == b'-' || c == b'_'
    ));
}

#[test]
fn upload_id_is_the_truncated_digest_encoding() {
    let mut store = Backend::new();
    let payload = sample_payload();
    let resp = match handle_upload(&payload, true, &mut store) {
        Ok(resp) => resp,
        Err(_) => panic!("a well-formed upload must succeed"),
    };
    let id = id_of(&resp);
    // Recompute the identifier independently: SHA-1 of the raw body,
    // base64url-encoded, truncated to nine characters.
    let digest = Sha1::digest(&payload).to_vec();
    let expected: Vec<u8> = b64_encode(&digest)[..9].to_vec();
    assert_eq!(id.as_bytes(), expected.as_slice());
}

#[test]
fn legacy_upload_returns_bare_id() {
    let mut store = Backend::new();
    let resp = upload_ok(&mut store, false);
    assert_eq!(resp.status, 200);
    assert!(resp.headers.is_empty());
    assert_eq!(resp.body.len(), 9);
}

#[test]
fn identical_uploads_get_identical_ids_without_error() {
    let mut store = Backend::new();
    let first = upload_ok(&mut store, true);
    let second = upload_ok(&mut store, true);
    assert_eq!(id_of(&first), id_of(&second));
}

#[test]
fn oversized_upload_is_rejected_before_any_storage_call() {
    let mut store = Backend::new();
    let oversized = vec![b'A'; 2097153];
    match handle_upload(&oversized, true, &mut store) {
        Err(e) => assert_eq!(e.code(), 400),
        Ok(_) => panic!("an oversized body must be rejected"),
    }
    assert_eq!(store.puts(), 0);
    assert_eq!(store.gets(), 0);
}

#[test]
fn invalid_document_is_rejected_without_any_write() {
    let mut store = Backend::new();
    let payload = compress("<NotAnExport/>").into_bytes();
    match handle_upload(&payload, true, &mut store) {
        Err(Error::InvalidPaste(_, offending)) => {
            assert_eq!(offending, "<NotAnExport/>", "the offending text rides along");
        }
        _ => panic!("an invalid document must be rejected as InvalidPaste"),
    }
    assert_eq!(store.puts(), 0);
}

#[test]
fn undecodable_upload_is_a_bad_request() {
    let mut store = Backend::new();
    let garbage = b"!!! not base64 !!!".to_vec();
    match handle_upload(&garbage, true, &mut store) {
        Err(e @ Error::BadRequest(_)) => assert_eq!(e.code(), 400),
        _ => panic!("an undecodable body must be rejected as BadRequest"),
    }
    assert_eq!(store.puts(), 0);
}

#[test]
fn download_returns_exactly_the_posted_bytes() {
    let mut store = Backend::new();
    let payload = sample_payload();
    let resp = match handle_upload(&payload, true, &mut store) {
        Ok(resp) => resp,
        Err(_) => panic!("upload must succeed"),
    };
    let id = id_of(&resp);
    let got = match handle_download(&id, &mut store) {
        Ok(got) => got,
        Err(_) => panic!("a stored id must download"),
    };
    assert_eq!(got.status, 200);
    assert_eq!(got.body, payload);
    assert_eq!(header(&got, "Content-Type"), Some("text/plain"));
    assert_eq!(header(&got, "Cache-Control"), Some("max-age=31536000"));
}

#[test]
fn download_of_unknown_id_is_not_found() {
    let mut store = Backend::new();
    match handle_download("unknownid", &mut store) {
        Err(Error::NotFound(id)) => assert_eq!(id, "unknownid"),
        _ => panic!("an unknown id must be NotFound"),
    }
}

#[test]
fn storage_put_survives_one_transient_fault() {
    let mut store = Backend::new();
    store.script_fault(true);
    store.script_fault(false);
    let bytes = vec![1u8, 2, 3];
    assert!(store.put("pastes/abc", &bytes).is_ok());
    assert_eq!(store.puts(), 2, "one failed attempt and one success");
    match store.get("pastes/abc") {
        Ok(Some(v)) => assert_eq!(v, bytes),
        _ => panic!("a stored key must read back"),
    }
}

#[test]
fn storage_gives_up_after_the_attempt_budget() {
    let mut store = Backend::new();
    store.script_fault(true);
    store.script_fault(true);
    store.script_fault(true);
    let bytes = vec![1u8];
    match store.put("pastes/abc", &bytes) {
        Err(e) => assert_eq!(e.code(), 502),
        Ok(_) => panic!("three faults exhaust the budget"),
    }
    assert_eq!(store.puts(), 3);
    match store.get("pastes/abc") {
        Ok(None) => {}
        _ => panic!("nothing may have been written"),
    }
}

#[test]
fn missing_key_is_not_retried() {
    let mut store = Backend::new();
    match store.get("pastes/nothere") {
        Ok(None) => {}
        _ => panic!("a missing key is a successful empty read"),
    }
    assert_eq!(store.gets(), 1, "exactly one backend read, no retry");
}

#[test]
fn second_put_of_identical_bytes_changes_nothing() {
    let mut store = Backend::new();
    let bytes = vec![9u8, 8, 7];
    assert!(store.put("pastes/k", &bytes).is_ok());
    assert!(store.put("pastes/k", &bytes).is_ok());
    match store.get("pastes/k") {
        Ok(Some(v)) => assert_eq!(v, bytes),
        _ => panic!("the key must hold the bytes"),
    }
}

#[test]
fn retry_decision_and_backoff() {
    assert!(should_retry(true, 1));
    assert!(should_retry(true, 2));
    assert!(!should_retry(true, 3));
    assert!(!should_retry(false, 1));
    assert_eq!(backoff_ms(1), 200);
    assert_eq!(backoff_ms(2), 400);
}

fn get_request(path: &str) -> Request {
    Request {
        method: Method::Get,
        host: "pobb.in".to_string(),
        path: path.to_string(),
        body: Vec::new(),
    }
}

#[test]
fn full_flow_first_get_misses_then_hits_without_storage() {
    let mut store = Backend::new();
    let mut cache = EdgeCache::new();
    let mut sched = Scheduler::new();

    let post = Request {
        method: Method::Post,
        host: "pobb.in".to_string(),
        path: "/api/v1/paste/".to_string(),
        body: sample_payload(),
    };
    let (handled, report) = handle_request(&post, &cache, &mut store, &mut sched);
    assert!(report.is_none());
    let id = match handled {
        Handled::Done(resp) => {
            assert_eq!(resp.status, 200);
            id_of(&resp)
        }
        Handled::Fallthrough => panic!("the upload route must answer"),
    };
    assert_eq!(sched.pending(), 0, "mutating requests never touch the cache");

    let raw = format!("/{}/raw", id);
    let (first, _) = handle_request(&get_request(&raw), &cache, &mut store, &mut sched);
    let first_resp = match first {
        Handled::Done(resp) => resp,
        Handled::Fallthrough => panic!("a stored id must answer"),
    };
    assert_eq!(header(&first_resp, "Cf-Cache-Status"), Some("MISS"));
    assert_eq!(first_resp.body, sample_payload());
    assert_eq!(sched.pending(), 1, "one detached population task");
    let gets_after_miss = store.gets();
    assert!(gets_after_miss > 0);

    sched.drain(&mut cache);
    assert_eq!(sched.pending(), 0);

    let (second, _) = handle_request(&get_request(&raw), &cache, &mut store, &mut sched);
    let second_resp = match second {
        Handled::Done(resp) => resp,
        Handled::Fallthrough => panic!("the cached id must answer"),
    };
    assert_eq!(header(&second_resp, "Cf-Cache-Status"), Some("HIT"));
    assert_eq!(second_resp.body, sample_payload());
    assert_eq!(store.gets(), gets_after_miss, "a hit never invokes the storage backend");
    assert_eq!(sched.pending(), 0, "a hit schedules nothing");
}

#[test]
fn unknown_id_get_is_a_json_404() {
    let mut store = Backend::new();
    let cache = EdgeCache::new();
    let mut sched = Scheduler::new();
    let (handled, report) = handle_request(
        &get_request("/unknown-id/raw"),
        &cache,
        &mut store,
        &mut sched,
    );
    assert!(report.is_none(), "a 404 is client-class and is not reported");
    match handled {
        Handled::Done(resp) => {
            assert_eq!(resp.status, 404);
            assert_eq!(body_string(&resp), "{\"code\":404,\"message\":\"not found\"}");
        }
        Handled::Fallthrough => panic!("a download-shaped path must answer"),
    }
}

#[test]
fn storage_failure_surfaces_as_server_error_and_is_reported() {
    let mut store = Backend::new();
    let cache = EdgeCache::new();
    let mut sched = Scheduler::new();
    store.script_fault(true);
    store.script_fault(true);
    store.script_fault(true);
    let (handled, report) = handle_request(
        &get_request("/abcdefghi/raw"),
        &cache,
        &mut store,
        &mut sched,
    );
    match handled {
        Handled::Done(resp) => assert_eq!(resp.status, 502),
        Handled::Fallthrough => panic!("the route must answer"),
    }
    match report {
        Some(e) => assert_eq!(e.code(), 502),
        None => panic!("server-class failures go to the reporter"),
    }
}

#[test]
fn oembed_document_is_served_and_cacheable() {
    let mut store = Backend::new();
    let r = match try_main(&get_request("/oembed.json"), &mut store) {
        Ok(Some(resp)) => resp,
        _ => panic!("the discovery document must answer"),
    };
    assert_eq!(r.status, 200);
    assert_eq!(
        body_string(&r),
        "{\"provider_name\":\"Paste of Exile - POB B.in\",\"provider_url\":\"https://pobb.in\"}"
    );
    assert_eq!(header(&r, "Cache-Control"), Some("max-age=43200"));
}

#[test]
fn unmatched_paths_fall_through_to_the_renderer() {
    let mut store = Backend::new();
    match try_main(&get_request("/"), &mut store) {
        Ok(None) => {}
        _ => panic!("unmatched paths fall through"),
    }
    match try_main(&get_request("/some-page"), &mut store) {
        Ok(None) => {}
        _ => panic!("unmatched paths fall through"),
    }
}

#[test]
fn page_route_resolves_stored_pastes() {
    let mut store = Backend::new();
    let payload = sample_payload();
    let resp = match handle_upload(&payload, true, &mut store) {
        Ok(resp) => resp,
        Err(_) => panic!("upload must succeed"),
    };
    let id = id_of(&resp);
    match resolve_paste(&id, &mut store) {
        Ok(Some(bytes)) => assert_eq!(bytes, payload),
        _ => panic!("a stored paste must resolve"),
    }
    match resolve_paste("missingid", &mut store) {
        Ok(None) => {}
        _ => panic!("an unknown paste resolves to nothing"),
    }
    match resolve_paste("../escape", &mut store) {
        Ok(None) => {}
        _ => panic!("an unsafe name is an unknown paste, not an error"),
    }
}

#[test]
fn concurrent_identical_uploads_race_harmlessly() {
    // Two interleaved pipelines over the same backend: both succeed and
    // agree on the identifier, by content addressing.
    let mut store = Backend::new();
    let a = upload_ok(&mut store, true);
    let b = upload_ok(&mut store, false);
    let id_a = id_of(&a);
    let id_b = body_string(&b);
    assert_eq!(id_a, id_b);
    let got = match handle_download(&id_a, &mut store) {
        Ok(got) => got,
        Err(_) => panic!("the id must download"),
    };
    assert_eq!(got.body, sample_payload());
}
