//! Replies: statuses, envelopes, lifetimes, and what an upstream answer amounts to.

use vstd::prelude::*;
use crate::api::{
    cache_policy, decoration, fetched_text, meta_tree, reply_body, reply_status,
    request_header_set, success, unknown_shape, ApiError, Failure, Fetched,
};
use crate::earthquake::Quake;
use crate::json::Tree;
use crate::landing::page_headers;
use crate::laws::responses::lookups;
use crate::mcp::stream_headers;
use crate::nowcast::Alert;
use crate::openapi::document_headers;
use crate::router::{check_tree, check_trees, health_tree, preflight_headers, verdict_tree, Timed};
use crate::task::Task;
use crate::text::{a_part_is_contained, contains, decimal};
use crate::weather::Forecast;

verus! {

/// Every error has its own status, its own code, and the message it was made with.
pub proof fn each_error_has_its_status_and_code(e: ApiError)
    ensures
        match e {
            ApiError::NotFound(m) => e@.status() == 404 && e@.code() == "not_found"@ && e@.message()
                == m@,
            ApiError::BadRequest(m) => e@.status() == 400 && e@.code() == "bad_request"@
                && e@.message() == m@,
            ApiError::UpstreamNotFound(m) => e@.status() == 404 && e@.code()
                == "upstream_not_found"@ && e@.message() == m@,
            ApiError::UpstreamUnavailable(m) => e@.status() == 502 && e@.code()
                == "upstream_unavailable"@ && e@.message() == m@,
            ApiError::UpstreamParse(m) => e@.status() == 502 && e@.code() == "upstream_parse"@
                && e@.message() == m@,
            ApiError::Internal(m) => e@.status() == 500 && e@.code() == "internal"@ && e@.message()
                == m@,
        },
{
}

/// An error is answered with its status, and with its code and message under `error`.
pub proof fn an_error_is_answered_with_its_code(
    e: ApiError,
    source: Seq<char>,
    ttl: nat,
    generated_at: Seq<char>,
)
    ensures
        reply_status(Err(e@)) == e@.status(),
        reply_body(Err(e@), source, ttl, generated_at).member("ok"@) == Some(Tree::Bool(false)),
        reply_body(Err(e@), source, ttl, generated_at).member("data"@) is None,
        reply_body(Err(e@), source, ttl, generated_at).member("error"@) matches Some(x)
            && x.member("code"@) == Some(Tree::Text(e@.code())) && x.member("message"@) == Some(
            Tree::Text(e@.message()),
        ),
{
    crate::api::one_response_shape(Tree::Null, source, ttl, generated_at, e@);
}

/// Data is answered with status 200, as it is, beside where it comes from, for how long it
/// may be kept, and when it was made.
pub proof fn data_is_answered_as_it_is(
    data: Tree,
    source: Seq<char>,
    ttl: nat,
    generated_at: Seq<char>,
)
    ensures
        reply_status(Ok(data)) == 200,
        reply_body(Ok(data), source, ttl, generated_at) == success(data, source, ttl, generated_at),
        success(data, source, ttl, generated_at).member("ok"@) == Some(Tree::Bool(true)),
        success(data, source, ttl, generated_at).member("data"@) == Some(data),
        success(data, source, ttl, generated_at).member("meta"@) matches Some(m) && m.member(
            "source"@,
        ) == Some(Tree::Text(source)) && m.member("cached_seconds"@) == Some(Tree::Unsigned(ttl))
            && m.member("generated_at"@) == Some(Tree::Text(generated_at)),
{
    crate::api::one_response_shape(data, source, ttl, generated_at, Failure::Internal(Seq::empty()));
    lookups();
    reveal_strlit("source");
    reveal_strlit("cached_seconds");
    reveal_strlit("generated_at");
    assert("source"@.len() == 6
        && "cached_seconds"@.len() == 14
        && "generated_at"@.len() == 12);
    let m = meta_tree(source, ttl, generated_at);
    assert(m->Object_0 =~= Seq::<(Seq<char>, Tree)>::empty().push(
        ("source"@, Tree::Text(source)),
    ).push(("cached_seconds"@, Tree::Unsigned(ttl))).push(
        ("generated_at"@, Tree::Text(generated_at)),
    ));
}

/// The value that a list of headers gives this name.
pub open spec fn has_header(
    headers: Seq<(Seq<char>, Seq<char>)>,
    name: Seq<char>,
    value: Seq<char>,
) -> bool {
    exists|i: int| 0 <= i < headers.len() && #[trigger] headers[i] == (name, value)
}

/// A response that may be kept says for how long, and may be served stale for four times as
/// long; one that may not says so. Every response is open to all origins.
pub proof fn a_lifetime_is_told_in_seconds(ttl: nat)
    ensures
        ttl > 0 ==> has_header(
            decoration(ttl),
            "cache-control"@,
            "public, max-age="@ + decimal(ttl) + ", stale-while-revalidate="@ + decimal(ttl * 4),
        ),
        has_header(decoration(0), "cache-control"@, "no-store"@),
        has_header(decoration(ttl), "access-control-allow-origin"@, "*"@),
        has_header(decoration(ttl), "access-control-allow-methods"@, "GET, POST, OPTIONS"@),
        has_header(decoration(ttl), "access-control-allow-headers"@, "content-type"@),
{
    assert(decoration(ttl)[0] == ("access-control-allow-origin"@, "*"@));
    assert(decoration(ttl)[1] == ("access-control-allow-headers"@, "content-type"@));
    assert(decoration(ttl)[2] == ("access-control-allow-methods"@, "GET, POST, OPTIONS"@));
    assert(decoration(ttl)[4] == ("cache-control"@, cache_policy(ttl)));
    assert(decoration(0)[4] == ("cache-control"@, cache_policy(0)));
}

/// A browser is told before a request that any origin may make it, and with what.
pub proof fn a_preflight_opens_the_service()
    ensures
        has_header(preflight_headers(), "access-control-allow-origin"@, "*"@),
        has_header(preflight_headers(), "access-control-allow-methods"@, "GET, POST, OPTIONS"@),
        has_header(
            preflight_headers(),
            "access-control-allow-headers"@,
            "content-type, mcp-session-id, mcp-protocol-version"@,
        ),
        has_header(preflight_headers(), "access-control-max-age"@, "86400"@),
{
    let h = preflight_headers();
    assert(h[0] == ("access-control-allow-origin"@, "*"@));
    assert(h[1] == ("access-control-allow-methods"@, "GET, POST, OPTIONS"@));
    assert(h[2] == (
        "access-control-allow-headers"@,
        "content-type, mcp-session-id, mcp-protocol-version"@,
    ));
    assert(h[3] == ("access-control-max-age"@, "86400"@));
}

/// What each kind of data is kept for, and where it comes from.
pub proof fn each_task_has_its_lifetime_and_source(task: Task)
    ensures
        task is LatestEarthquake ==> task@.ttl() == 60 && task@.source() == "BMKG autogempa"@,
        task is FeltEarthquakes ==> task@.ttl() == 60 && task@.source() == "BMKG gempadirasakan"@,
        task is RecentEarthquakes ==> task@.ttl() == 300 && task@.source() == "BMKG gempaterkini"@,
        task is NearbyEarthquakes ==> task@.ttl() == 300 && task@.source()
            == "BMKG gempaterkini + gempadirasakan"@,
        task is FindWeather || task is WeatherForecast || task is CurrentWeather ==> task@.ttl()
            == 600 && task@.source() == "BMKG prakiraan-cuaca"@,
        task is Warnings || task is WarningCheck ==> task@.ttl() == 120 && task@.source()
            == "BMKG nowcast RSS"@,
        task is WarningDetail ==> task@.ttl() == 900 && task@.source() == "BMKG CAP alert"@,
        task is Provinces || task is Children || task is RegionSearch || task is Region
            ==> task@.ttl() == 24 * 60 * 60 && task@.source() == "Kemendagri via cahyadsn/wilayah"@,
{
}

// ------------------------------------------------------------------ upstream answers

/// A successful answer is its text; a 404 is `upstream_not_found`; any other answer, and none,
/// is `upstream_unavailable`; what goes wrong before the request is sent is our own fault.
/// Whatever came back from BMKG is reported with the URL.
pub proof fn an_answer_is_its_text_or_a_failure_that_names_the_url(
    url: Seq<char>,
    status: u16,
    text: String,
    e: String,
)
    ensures
        200 <= status <= 299 ==> fetched_text(
            url,
            Fetched::Answer { status, body: Ok(text) },
        ) == Ok::<Seq<char>, Failure>(text@),
        200 <= status <= 299 ==> (fetched_text(
            url,
            Fetched::Answer { status, body: Err(e) },
        ) matches Err(Failure::UpstreamUnavailable(m)) && contains(m, url) && contains(m, e@)),
        status == 404 ==> (fetched_text(
            url,
            Fetched::Answer { status, body: Ok(text) },
        ) matches Err(Failure::UpstreamNotFound(m)) && contains(m, url)),
        !(200 <= status <= 299) && status != 404 ==> (fetched_text(
            url,
            Fetched::Answer { status, body: Ok(text) },
        ) matches Err(Failure::UpstreamUnavailable(m)) && contains(m, url) && contains(
            m,
            decimal(status as nat),
        )),
        fetched_text(url, Fetched::Send(e)) matches Err(Failure::UpstreamUnavailable(m)) && contains(
            m,
            url,
        ) && contains(m, e@),
        fetched_text(url, Fetched::Build(e)) matches Err(Failure::Internal(m)) && contains(m, url)
            && contains(m, e@),
        fetched_text(url, Fetched::Headers(e)) == Err::<Seq<char>, Failure>(Failure::Internal(e@)),
{
    let read = "reading "@;
    a_part_is_contained(read, url, ": "@ + e@);
    assert(read + url + (": "@ + e@) =~= read + url + ": "@ + e@);
    a_part_is_contained(read + url + ": "@, e@, Seq::empty());
    a_part_is_contained("BMKG has no record at "@, url, Seq::empty());
    let code = decimal(status as nat);
    a_part_is_contained(Seq::empty(), url, " returned HTTP "@ + code);
    assert(url + (" returned HTTP "@ + code) =~= url + " returned HTTP "@ + code);
    a_part_is_contained(url + " returned HTTP "@, code, Seq::empty());
    a_part_is_contained(Seq::empty(), url, ": "@ + e@);
    assert(url + (": "@ + e@) =~= url + ": "@ + e@);
    a_part_is_contained(url + ": "@, e@, Seq::empty());
    let build = "building request for "@;
    a_part_is_contained(build, url, ": "@ + e@);
    assert(build + url + (": "@ + e@) =~= build + url + ": "@ + e@);
    a_part_is_contained(build + url + ": "@, e@, Seq::empty());
}

/// An upstream is asked under our own name, for JSON or XML.
pub proof fn upstreams_know_who_asks()
    ensures
        has_header(
            request_header_set(),
            "user-agent"@,
            "bmkg-edge (+https://github.com/galohot/bmkg-edge)"@,
        ),
        has_header(request_header_set(), "accept"@, "application/json, text/xml, */*"@),
{
    let h = request_header_set();
    assert(h[0] == ("user-agent"@, "bmkg-edge (+https://github.com/galohot/bmkg-edge)"@));
    assert(h[1] == ("accept"@, "application/json, text/xml, */*"@));
}

// ------------------------------------------------------------------ health

/// A check tells which upstream it is of, whether that answered, how many items came or what
/// went wrong, and how long it took; the verdict is told beside the checks.
pub proof fn a_check_tells_how_its_upstream_fared(
    source: Seq<char>,
    found: Result<nat, Failure>,
    ms: Seq<char>,
    healthy: bool,
    checks: Seq<Tree>,
)
    ensures
        ({
            let t = check_tree(source, found, ms);
            &&& t.member("source"@) == Some(Tree::Text(source))
            &&& t.member("ok"@) == Some(Tree::Bool(found is Ok))
            &&& match found {
                Ok(n) => t.member("detail"@) == Some(Tree::Text(decimal(n) + " item(s)"@)),
                Err(f) => t.member("detail"@) == Some(Tree::Text(f.code() + ": "@ + f.message())),
            }
            &&& t.member("ms"@) == Some(Tree::Float(ms))
        }),
        verdict_tree(healthy, checks).member("healthy"@) == Some(Tree::Bool(healthy)),
        verdict_tree(healthy, checks).member("version"@) == Some(Tree::Text("0.1.0"@)),
        verdict_tree(healthy, checks).member("checks"@) == Some(Tree::Array(checks)),
{
    lookups();
    reveal_strlit("source");
    reveal_strlit("ok");
    reveal_strlit("detail");
    reveal_strlit("ms");
    reveal_strlit("healthy");
    reveal_strlit("version");
    reveal_strlit("checks");
    assert("source"@.len() == 6
        && "ok"@.len() == 2
        && "detail"@.len() == 6
        && "ms"@.len() == 2
        && "healthy"@.len() == 7
        && "version"@.len() == 7
        && "checks"@.len() == 6
        && "source"@[0] == 's'
        && "detail"@[0] == 'd'
        && "checks"@[0] == 'c'
        && "ok"@[0] == 'o'
        && "ms"@[0] == 'm'
        && "healthy"@[0] == 'h'
        && "version"@[0] == 'v');
    let t = check_tree(source, found, ms);
    assert(t->Object_0 =~= Seq::<(Seq<char>, Tree)>::empty().push(t->Object_0[0]).push(
        t->Object_0[1],
    ).push(t->Object_0[2]).push(t->Object_0[3]));
    let v = verdict_tree(healthy, checks);
    assert(v->Object_0 =~= Seq::<(Seq<char>, Tree)>::empty().push(v->Object_0[0]).push(
        v->Object_0[1],
    ).push(v->Object_0[2]));
}

/// A service that is alive says so, with its version and its three upstreams.
pub proof fn a_live_service_says_so()
    ensures
        health_tree().member("status"@) == Some(Tree::Text("ok"@)),
        health_tree().member("version"@) == Some(Tree::Text("0.1.0"@)),
        health_tree().member("upstreams"@) == Some(
            Tree::Array(
                seq![
                    Tree::Text("data.bmkg.go.id"@),
                    Tree::Text("api.bmkg.go.id"@),
                    Tree::Text("www.bmkg.go.id"@),
                ],
            ),
        ),
{
    lookups();
    reveal_strlit("status");
    reveal_strlit("version");
    reveal_strlit("upstreams");
    assert("status"@.len() == 6
        && "version"@.len() == 7
        && "upstreams"@.len() == 9);
    let t = health_tree();
    assert(t->Object_0 =~= Seq::<(Seq<char>, Tree)>::empty().push(t->Object_0[0]).push(
        t->Object_0[1],
    ).push(t->Object_0[2]));
}

/// The deep check asks each of the five feeds, in this order, and tells of each how it fared
/// and how many items came.
pub proof fn a_deep_check_tells_of_each_feed(
    latest: Timed<Quake>,
    recent: Timed<Vec<Quake>>,
    felt: Timed<Vec<Quake>>,
    forecast: Timed<Forecast>,
    index: Timed<Vec<Alert>>,
)
    ensures
        ({
            let c = check_trees(latest, recent, felt, forecast, index);
            &&& c.len() == 5
            &&& c[0] == check_tree(
                "earthquake/latest"@,
                match latest.outcome {
                    Ok(_) => Ok(1),
                    Err(e) => Err(e@),
                },
                latest.ms@,
            )
            &&& c[1] == check_tree(
                "earthquake/recent"@,
                match recent.outcome {
                    Ok(v) => Ok(v@.len()),
                    Err(e) => Err(e@),
                },
                recent.ms@,
            )
            &&& c[2] == check_tree(
                "earthquake/felt"@,
                match felt.outcome {
                    Ok(v) => Ok(v@.len()),
                    Err(e) => Err(e@),
                },
                felt.ms@,
            )
            &&& c[3] == check_tree(
                "weather/forecast"@,
                match forecast.outcome {
                    Ok(f) => Ok(f.slots@.len()),
                    Err(e) => Err(e@),
                },
                forecast.ms@,
            )
            &&& c[4] == check_tree(
                "nowcast/index"@,
                match index.outcome {
                    Ok(v) => Ok(v@.len()),
                    Err(e) => Err(e@),
                },
                index.ms@,
            )
        }),
{
}

/// The page, the document and the event stream each say what they are and how long they may
/// be kept.
pub proof fn pages_say_what_they_are()
    ensures
        has_header(page_headers(), "content-type"@, "text/html; charset=utf-8"@),
        has_header(page_headers(), "cache-control"@, "public, max-age=300"@),
        has_header(page_headers(), "x-content-type-options"@, "nosniff"@),
        has_header(document_headers(), "content-type"@, "application/json; charset=utf-8"@),
        has_header(document_headers(), "cache-control"@, "public, max-age=3600"@),
        has_header(document_headers(), "access-control-allow-origin"@, "*"@),
        has_header(stream_headers(), "content-type"@, "text/event-stream"@),
        has_header(stream_headers(), "cache-control"@, "no-store"@),
        has_header(stream_headers(), "access-control-allow-origin"@, "*"@),
{
    assert(page_headers()[0] == ("content-type"@, "text/html; charset=utf-8"@));
    assert(page_headers()[1] == ("cache-control"@, "public, max-age=300"@));
    assert(page_headers()[2] == ("x-content-type-options"@, "nosniff"@));
    assert(document_headers()[0] == ("content-type"@, "application/json; charset=utf-8"@));
    assert(document_headers()[1] == ("access-control-allow-origin"@, "*"@));
    assert(document_headers()[2] == ("cache-control"@, "public, max-age=3600"@));
    assert(stream_headers()[0] == ("content-type"@, "text/event-stream"@));
    assert(stream_headers()[1] == ("cache-control"@, "no-store"@));
    assert(stream_headers()[2] == ("access-control-allow-origin"@, "*"@));
}

/// Naming a URL only changes a failure to read what came from there, and keeps what it said.
pub proof fn naming_a_url_keeps_what_was_said(f: Failure, url: Seq<char>, e: Seq<char>)
    ensures
        !(f is UpstreamParse) ==> f.naming(url) == f,
        f is UpstreamParse ==> f.naming(url) is UpstreamParse && contains(
            f.naming(url).message(),
            url,
        ) && contains(f.naming(url).message(), f.message()),
        unknown_shape(url, e) is UpstreamParse && contains(unknown_shape(url, e).message(), e),
{
    let m = f.message();
    a_part_is_contained(Seq::empty(), url, ": "@ + m);
    assert(url + (": "@ + m) =~= url + ": "@ + m);
    a_part_is_contained(url + ": "@, m, Seq::empty());
    a_part_is_contained(url + ": "@, e, " (BMKG changed its payload shape)"@);
}

} // verus!
