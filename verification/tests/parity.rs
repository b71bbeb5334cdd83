use bmkg_edge::api::{respond, ApiError};
use bmkg_edge::json::Json;
use bmkg_edge::mcp::{run_tool, tool_payload};
use bmkg_edge::number::Number;
use bmkg_edge::router::{route, Method, Pair, Request, Route};

fn get(path: &str, query: &[(&str, &str)]) -> Request {
    Request {
        method: Method::Get,
        path: path.into(),
        query: query
            .iter()
            .map(|(k, v)| Pair {
                key: (*k).into(),
                value: (*v).into(),
            })
            .collect(),
    }
}

fn args() -> Json {
    Json::object()
}

fn float(s: &str) -> Json {
    Json::float(&Number::parse(s).unwrap())
}

/// The same question, asked both ways, with and without a database.
fn agree(path: &str, query: &[(&str, &str)], name: &str, args: Json) {
    let gone = || ApiError::Internal("gone".into());
    for up in [true, false] {
        let db = || if up { Ok(()) } else { Err(gone()) };
        let tool = run_tool(name, &args, db()).map(Route::Data);
        assert_eq!(route(&get(path, query), db()), tool, "{path}");
        assert!(tool.is_ok() || !up, "{path}");
    }
}

#[test]
fn earthquake_tools_and_routes() {
    agree("/v1/earthquake/latest", &[], "get_latest_earthquake", args());
    agree("/v1/earthquake/recent", &[], "get_recent_earthquakes", args());
    agree("/v1/earthquake/felt", &[], "get_felt_earthquakes", args());
    let point = || args().with("lat", float("-6.2")).with("lon", float("106.8"));
    agree(
        "/v1/earthquake/nearby",
        &[("lat", "-6.2"), ("lon", "106.8")],
        "get_nearby_earthquakes",
        point(),
    );
    agree(
        "/v1/earthquake/nearby",
        &[("lat", "-6.2"), ("lon", "106.8"), ("radius_km", "20")],
        "get_nearby_earthquakes",
        point().with("radius_km", Json::unsigned(20)),
    );
}

#[test]
fn weather_tools_and_routes() {
    let adm4 = || args().with("adm4", Json::text("31.74.04.1006"));
    agree(
        "/v1/weather/search",
        &[("q", "tebet")],
        "find_weather",
        args().with("query", Json::text("tebet")),
    );
    agree("/v1/weather/31.74.04.1006", &[], "get_weather_forecast", adm4());
    agree(
        "/v1/weather/31.74.04.1006/current",
        &[],
        "get_current_weather",
        adm4(),
    );
}

#[test]
fn warning_tools_and_routes() {
    agree("/v1/nowcast", &[], "get_weather_warnings", args());
    agree(
        "/v1/nowcast",
        &[("lang", "id")],
        "get_weather_warnings",
        args().with("lang", Json::text("id")),
    );
    agree(
        "/v1/nowcast/check",
        &[("location", "jambi")],
        "check_location_warnings",
        args().with("location", Json::text("jambi")),
    );
    agree(
        "/v1/nowcast/EX1",
        &[],
        "get_warning_detail",
        args().with("alert_code", Json::text("EX1")),
    );
}

#[test]
fn region_tools_and_routes() {
    let q = || args().with("q", Json::text("tebet"));
    agree("/v1/wilayah/search", &[("q", "tebet")], "search_regions", q());
    agree(
        "/v1/wilayah/search",
        &[("q", "tebet"), ("limit", "5"), ("level", "4")],
        "search_regions",
        q().with("limit", Json::unsigned(5)).with("level", Json::unsigned(4)),
    );
    agree("/v1/wilayah/provinces", &[], "list_regions", args());
    let parent = |code: &str| args().with("parent_code", Json::text(code));
    agree(
        "/v1/wilayah/districts",
        &[("province_code", "31")],
        "list_regions",
        parent("31"),
    );
    agree(
        "/v1/wilayah/subdistricts",
        &[("district_code", "31.74")],
        "list_regions",
        parent("31.74"),
    );
    agree(
        "/v1/wilayah/villages",
        &[("subdistrict_code", "31.74.04")],
        "list_regions",
        parent("31.74.04"),
    );
}

#[test]
fn one_outcome_both_ways() {
    let outcome = |ok: bool| {
        if ok {
            Ok(Json::text("data"))
        } else {
            Err(ApiError::UpstreamNotFound("none".into()))
        }
    };
    let rest = respond(outcome(true), "s", 60, "now".into());
    let (payload, is_error) = tool_payload(outcome(true));
    assert_eq!((rest.status, is_error), (200, false));
    assert_eq!(rest.body.get("data"), Some(&payload));
    let rest = respond(outcome(false), "s", 60, "now".into());
    let (payload, is_error) = tool_payload(outcome(false));
    assert_eq!((rest.status, is_error), (404, true));
    assert_eq!(rest.body, payload);
}
