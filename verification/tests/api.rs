use bmkg_edge::api::{
    decorate, fetch_json, fetch_text, is_storable, is_success, json_err, json_ok, request_headers, respond,
    ApiError, Fetched, Header,
};
use bmkg_edge::json::Json;

fn header<'a>(hs: &'a [Header], name: &str) -> Option<&'a str> {
    hs.iter().find(|h| h.name == name).map(|h| h.value.as_str())
}

#[test]
fn every_error_has_a_status_and_a_code() {
    let m = || "m".to_string();
    for (e, status, code) in [
        (ApiError::NotFound(m()), 404, "not_found"),
        (ApiError::BadRequest(m()), 400, "bad_request"),
        (ApiError::UpstreamNotFound(m()), 404, "upstream_not_found"),
        (
            ApiError::UpstreamUnavailable(m()),
            502,
            "upstream_unavailable",
        ),
        (ApiError::UpstreamParse(m()), 502, "upstream_parse"),
        (ApiError::Internal(m()), 500, "internal"),
    ] {
        assert_eq!(e.status(), status);
        assert_eq!(e.code(), code);
        assert_eq!(e.message(), "m");
        let v = e.to_value();
        assert_eq!(v.get("ok"), Some(&Json::Bool(false)));
        assert_eq!(v.get("error").unwrap().get_text("code"), Some(code));
        assert_eq!(v.get("error").unwrap().get_text("message"), Some("m"));
        let r = json_err(&e);
        assert_eq!(r.status, status);
        assert_eq!(r.body, v);
        assert_eq!(header(&r.headers, "cache-control"), Some("no-store"));
    }
}

#[test]
fn successes_are_wrapped() {
    let r = json_ok(Json::unsigned(7), "src", 60, "2026".into());
    assert_eq!(r.status, 200);
    assert_eq!(r.body.get("ok"), Some(&Json::Bool(true)));
    assert_eq!(r.body.get_unsigned("data"), Some(7));
    let meta = r.body.get("meta").unwrap();
    assert_eq!(meta.get_text("source"), Some("src"));
    assert_eq!(meta.get_unsigned("cached_seconds"), Some(60));
    assert_eq!(meta.get_text("generated_at"), Some("2026"));
    assert_eq!(
        header(&r.headers, "cache-control"),
        Some("public, max-age=60, stale-while-revalidate=240")
    );
    assert_eq!(header(&r.headers, "x-bmkg-edge-version"), Some("0.1.0"));
    assert_eq!(header(&r.headers, "access-control-allow-origin"), Some("*"));
}

#[test]
fn respond_takes_either() {
    let ok = respond(Ok(Json::bool(true)), "s", 0, "t".into());
    assert_eq!(ok.status, 200);
    assert_eq!(header(&ok.headers, "cache-control"), Some("no-store"));
    let err = respond(Err(ApiError::BadRequest("no".into())), "s", 60, "t".into());
    assert_eq!(err.status, 400);
    assert_eq!(header(&err.headers, "cache-control"), Some("no-store"));
}

#[test]
fn only_a_lifetime_makes_a_reply_storable() {
    assert!(!is_storable(None));
    assert!(!is_storable(Some("no-store")));
    assert!(!is_storable(Some("private, no-store")));
    assert!(is_storable(Some("public, max-age=300")));
    for ttl in [0, 1, 60, 86_400] {
        let h = decorate(ttl);
        assert_eq!(is_storable(header(&h, "cache-control")), ttl > 0);
    }
}

#[test]
fn upstream_answers_become_results() {
    let answer = |status: u16| {
        fetch_text(
            "u",
            Fetched::Answer {
                status,
                body: Ok("body".into()),
            },
        )
    };
    assert!(is_success(200) && is_success(299) && !is_success(199) && !is_success(300));
    assert_eq!(answer(200), Ok("body".into()));
    assert_eq!(answer(299), Ok("body".into()));
    assert_eq!(
        answer(404),
        Err(ApiError::UpstreamNotFound("BMKG has no record at u".into()))
    );
    for s in [199, 300, 403, 500] {
        assert_eq!(
            answer(s),
            Err(ApiError::UpstreamUnavailable(format!(
                "u returned HTTP {s}"
            )))
        );
    }
    assert_eq!(
        fetch_text(
            "u",
            Fetched::Answer {
                status: 200,
                body: Err("cut".into())
            }
        ),
        Err(ApiError::UpstreamUnavailable("reading u: cut".into()))
    );
    assert_eq!(
        fetch_text("u", Fetched::Send("dns".into())),
        Err(ApiError::UpstreamUnavailable("u: dns".into()))
    );
    assert_eq!(
        fetch_text("u", Fetched::Build("bad".into())),
        Err(ApiError::Internal("building request for u: bad".into()))
    );
    assert_eq!(
        fetch_text("u", Fetched::Headers("bad".into())),
        Err(ApiError::Internal("bad".into()))
    );
}

#[test]
fn a_changed_payload_is_named() {
    assert_eq!(fetch_json("u", Ok(Ok(3))), Ok(3));
    for e in [
        || ApiError::UpstreamNotFound("gone".into()),
        || ApiError::UpstreamParse("odd".into()),
    ] {
        assert_eq!(fetch_json::<u8>("u", Err(e())), Err(e()));
    }
    assert_eq!(
        fetch_json::<u8>("u", Ok(Err("missing field".into()))),
        Err(ApiError::UpstreamParse(
            "u: missing field (BMKG changed its payload shape)".into()
        ))
    );
}

#[test]
fn requests_say_who_asks() {
    let h = request_headers();
    assert_eq!(
        header(&h, "user-agent"),
        Some("bmkg-edge (+https://github.com/galohot/bmkg-edge)")
    );
    assert_eq!(header(&h, "accept"), Some("application/json, text/xml, */*"));
}

#[test]
fn only_what_cannot_be_read_is_named() {
    assert_eq!(
        ApiError::UpstreamParse("odd".into()).naming("https://x"),
        ApiError::UpstreamParse("https://x: odd".into())
    );
    assert_eq!(
        ApiError::Internal("odd".into()).naming("https://x"),
        ApiError::Internal("odd".into())
    );
}
