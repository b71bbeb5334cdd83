use bmkg_edge::api::ApiError;
use bmkg_edge::earthquake::{Quake, Raw};
use bmkg_edge::json::Json;
use bmkg_edge::landing::page;
use bmkg_edge::number::Number;
use bmkg_edge::openapi::document;
use bmkg_edge::router::{
    health, health_deep, is_cacheable, lang, mcp_probe, num_param, param, preflight, route, Method,
    Pair, Request, Route, Timed,
};
use bmkg_edge::task::Task;
use bmkg_edge::weather::{Forecast, RawLocation, RawSlot};

fn request(method: Method, url: &str) -> Request {
    let (path, query) = match url.split_once('?') {
        Some((p, q)) => (p, q),
        None => (url, ""),
    };
    Request {
        method,
        path: path.into(),
        query: pairs(query),
    }
}

fn pairs(query: &str) -> Vec<Pair> {
    query
        .split('&')
        .filter_map(|kv| kv.split_once('='))
        .map(|(k, v)| Pair {
            key: k.into(),
            value: v.into(),
        })
        .collect()
}

fn get(url: &str) -> Result<Route, ApiError> {
    route(&request(Method::Get, url), Ok(()))
}

fn num(s: &str) -> Number {
    Number::parse(s).unwrap()
}

fn bad(m: &str) -> Result<Route, ApiError> {
    Err(ApiError::BadRequest(m.into()))
}

#[test]
fn fixed_routes() {
    for (url, want) in [
        ("/", Route::Landing),
        ("", Route::Landing),
        ("/health", Route::Health),
        ("/health/deep", Route::HealthDeep),
        ("/mcp", Route::McpProbe),
        ("/v1/openapi.json", Route::OpenApi),
        ("/v1/earthquake/latest", Route::Data(Task::LatestEarthquake)),
        ("//v1/earthquake//recent/", Route::Data(Task::RecentEarthquakes)),
        ("/v1/earthquake/felt", Route::Data(Task::FeltEarthquakes)),
        ("/v1/wilayah/provinces", Route::Data(Task::Provinces)),
    ] {
        assert_eq!(get(url), Ok(want), "{url}");
    }
}

#[test]
fn unknown_paths() {
    for url in [
        "/v1",
        "/v2/earthquake/latest",
        "/v1/earthquake",
        "/v1/earthquake/latest/x",
        "/v1/earthquake/tides",
        "/v1/weather",
        "/v1/weather/a/b",
        "/v1/weather/a/current/c",
        "/v1/nowcast/a/b",
        "/v1/openapi.json/x",
        "/health/x",
        "/mcp/x",
    ] {
        assert_eq!(
            get(url),
            Err(ApiError::NotFound(format!(
                "{url} is not a route. See / for the endpoint list."
            )))
        );
    }
}

#[test]
fn methods() {
    let r = |m: Method, p: &str| route(&request(m, p), Ok(()));
    assert_eq!(r(Method::Options, "/anything"), Ok(Route::Preflight));
    assert_eq!(r(Method::Post, "/mcp/"), Ok(Route::Mcp));
    assert_eq!(
        r(Method::Post, "/v1/nowcast"),
        Err(ApiError::NotFound(
            "POST /v1/nowcast is not a route".into()
        ))
    );
    assert_eq!(
        r(Method::Other("PUT".into()), "/mcp"),
        bad("PUT is not supported; this API is GET-only except POST /mcp")
    );
}

#[test]
fn nearby_needs_a_point() {
    assert_eq!(
        get("/v1/earthquake/nearby?lat=-6.2&lon=106.8"),
        Ok(Route::Data(Task::NearbyEarthquakes {
            lat: num("-6.2"),
            lon: num("106.8"),
            radius_km: num("500"),
        }))
    );
    assert_eq!(
        get("/v1/earthquake/nearby?lat=1&lon=2&radius_km=1e3"),
        Ok(Route::Data(Task::NearbyEarthquakes {
            lat: num("1"),
            lon: num("2"),
            radius_km: num("1e3"),
        }))
    );
    let required = "lat and lon are required, e.g. /v1/earthquake/nearby?lat=-6.2&lon=106.8";
    assert_eq!(get("/v1/earthquake/nearby"), bad(required));
    assert_eq!(get("/v1/earthquake/nearby?lat=x"), bad(required));
    assert_eq!(get("/v1/earthquake/nearby?lat=&lon=2"), bad(required));
    let numbers = "lat, lon and radius_km must be numbers";
    assert_eq!(get("/v1/earthquake/nearby?lat=x&lon=2"), bad(numbers));
    assert_eq!(
        get("/v1/earthquake/nearby?lat=1&lon=2&radius_km=far"),
        bad(numbers)
    );
}

#[test]
fn weather_routes() {
    assert_eq!(
        get("/v1/weather/search?q= tebet "),
        Ok(Route::Data(Task::FindWeather { query: "tebet".into() }))
    );
    assert_eq!(
        get("/v1/weather/search"),
        bad("q is required, e.g. /v1/weather/search?q=tebet")
    );
    assert_eq!(
        get("/v1/weather/31.74.04.1006"),
        Ok(Route::Data(Task::WeatherForecast {
            adm4: "31.74.04.1006".into()
        }))
    );
    assert_eq!(
        get("/v1/weather/31.74.04.1006/current"),
        Ok(Route::Data(Task::CurrentWeather {
            adm4: "31.74.04.1006".into()
        }))
    );
}

#[test]
fn nowcast_routes() {
    assert_eq!(
        get("/v1/nowcast"),
        Ok(Route::Data(Task::Warnings { lang: "en".into() }))
    );
    assert_eq!(
        get("/v1/nowcast?lang=id"),
        Ok(Route::Data(Task::Warnings { lang: "id".into() }))
    );
    assert_eq!(
        get("/v1/nowcast/check?q=jambi&lang=id"),
        Ok(Route::Data(Task::WarningCheck {
            location: "jambi".into(),
            lang: "id".into()
        }))
    );
    assert_eq!(
        get("/v1/nowcast/check?location=a&q=b"),
        Ok(Route::Data(Task::WarningCheck {
            location: "a".into(),
            lang: "en".into()
        }))
    );
    assert_eq!(
        get("/v1/nowcast/check"),
        bad("location is required, e.g. /v1/nowcast/check?location=jambi")
    );
    assert_eq!(
        get("/v1/nowcast/EX1"),
        Ok(Route::Data(Task::WarningDetail {
            alert_code: "EX1".into(),
            lang: "en".into()
        }))
    );
}

#[test]
fn region_routes() {
    let child = |code: &str, level: u8| {
        Ok(Route::Data(Task::Children {
            parent_code: code.into(),
            expect_level: level,
        }))
    };
    assert_eq!(
        get("/v1/wilayah/districts?province_code=31"),
        child("31", 2)
    );
    assert_eq!(
        get("/v1/wilayah/subdistricts?district_code=31.74"),
        child("31.74", 3)
    );
    assert_eq!(
        get("/v1/wilayah/villages?subdistrict_code=31.74.04"),
        child("31.74.04", 4)
    );
    assert_eq!(
        get("/v1/wilayah/villages"),
        bad("subdistrict_code is required, e.g. ?subdistrict_code=31")
    );
    let search = |limit: u32, level: Option<u8>| {
        Ok(Route::Data(Task::RegionSearch {
            q: "tebet".into(),
            limit,
            level,
        }))
    };
    assert_eq!(get("/v1/wilayah/search?q=tebet"), search(10, None));
    assert_eq!(
        get("/v1/wilayah/search?q=tebet&limit=25&level=4"),
        search(25, Some(4))
    );
    assert_eq!(
        get("/v1/wilayah/search?q=tebet&limit=many&level=256"),
        search(10, None)
    );
    assert_eq!(
        get("/v1/wilayah/search"),
        bad("q is required, e.g. /v1/wilayah/search?q=tebet")
    );
    assert_eq!(
        get("/v1/wilayah/31.74"),
        Ok(Route::Data(Task::Region {
            code: "31.74".into()
        }))
    );
    for url in ["/v1/wilayah", "/v1/wilayah/a/b"] {
        assert_eq!(
            get(url),
            Err(ApiError::NotFound(
                "try /v1/wilayah/provinces, /districts, /subdistricts, /villages, /search or /{code}"
                    .into()
            ))
        );
    }
}

#[test]
fn without_a_database() {
    let gone = || ApiError::Internal("gone".into());
    let r = |url: &str| route(&request(Method::Get, url), Err(gone()));
    for url in [
        "/v1/wilayah/provinces",
        "/v1/wilayah",
        "/v1/wilayah/districts",
        "/v1/weather/search?q=x",
    ] {
        assert_eq!(r(url), Err(gone()), "{url}");
    }
    assert_eq!(
        r("/v1/weather/search"),
        bad("q is required, e.g. /v1/weather/search?q=tebet")
    );
    assert_eq!(r("/v1/earthquake/latest"), Ok(Route::Data(Task::LatestEarthquake)));
}

#[test]
fn parameters() {
    let q = pairs("a= &a=2&b= x &n=1.5&m=one");
    assert_eq!(param(&q, "a"), None);
    assert_eq!(param(&q, "b"), Some("x".into()));
    assert_eq!(param(&q, "c"), None);
    assert_eq!(num_param(&q, "n"), Some(Ok(num("1.5"))));
    assert_eq!(num_param(&q, "m"), Some(Err(())));
    assert_eq!(num_param(&q, "c"), None);
    assert_eq!(lang(&q), "en");
}

#[test]
fn lifetimes_by_route() {
    let seconds = |url: &str| match get(url) {
        Ok(Route::Data(task)) => Some(task.ttl()),
        _ => None,
    };
    assert_eq!(seconds("/v1/earthquake/latest"), Some(60));
    assert_eq!(seconds("/v1/earthquake/felt"), Some(60));
    assert_eq!(seconds("/v1/earthquake/recent"), Some(300));
    assert_eq!(seconds("/v1/earthquake/nearby?lat=1&lon=1"), Some(300));
    assert_eq!(seconds("/v1/weather/x"), Some(600));
    assert_eq!(seconds("/v1/weather/x/current"), Some(600));
    assert_eq!(seconds("/v1/weather/search?q=x"), Some(600));
    assert_eq!(seconds("/v1/nowcast"), Some(120));
    assert_eq!(seconds("/v1/nowcast/check?q=x"), Some(120));
    assert_eq!(seconds("/v1/nowcast/EX1"), Some(900));
    assert_eq!(seconds("/v1/wilayah/provinces"), Some(86_400));
    assert_eq!(seconds("/v1/wilayah/31"), Some(86_400));
    assert_eq!(seconds("/health"), None);
    let source = |url: &str| match get(url) {
        Ok(Route::Data(task)) => task.source(),
        other => panic!("{other:?}"),
    };
    assert_eq!(source("/v1/nowcast/EX1"), "BMKG CAP alert");
    assert_eq!(
        source("/v1/earthquake/nearby?lat=1&lon=1"),
        "BMKG gempaterkini + gempadirasakan"
    );
    assert_eq!(
        source("/v1/wilayah/search?q=x"),
        "Kemendagri via cahyadsn/wilayah"
    );
}

#[test]
fn what_is_cached() {
    assert!(is_cacheable(true, 200, Some("public, max-age=60")));
    assert!(!is_cacheable(false, 200, Some("public, max-age=60")));
    assert!(!is_cacheable(true, 503, Some("public, max-age=60")));
    assert!(!is_cacheable(true, 200, Some("no-store")));
    assert!(!is_cacheable(true, 200, None));
}

#[test]
fn own_replies() {
    let h = health("now".into());
    assert_eq!(h.status, 200);
    let data = h.body.get("data").unwrap();
    assert_eq!(data.get_text("status"), Some("ok"));
    assert_eq!(data.get_text("version"), Some("0.1.0"));
    assert!(matches!(data.get("upstreams"), Some(Json::Array(v)) if v.len() == 3));

    let p = mcp_probe("now".into());
    let data = p.body.get("data").unwrap();
    assert_eq!(data.get_text("transport"), Some("streamable-http"));
    assert_eq!(data.get_text("protocolVersion"), Some("2025-06-18"));

    let pre = preflight();
    assert_eq!(pre.status, 204);
    assert_eq!(pre.body, None);
    assert_eq!(pre.headers.len(), 4);
    assert_eq!(pre.headers[3].value, "86400");

    let page = page("<html>".into());
    assert_eq!(page.body.as_deref(), Some("<html>"));
    assert_eq!(page.headers[0].value, "text/html; charset=utf-8");
}

#[test]
fn the_document_names_its_version() {
    let d = document();
    let body = d.body.unwrap();
    assert_eq!(d.status, 200);
    assert!(body.contains("\"version\": \"0.1.0\""));
    assert!(!body.contains("{{"));
    assert!(serde_json::from_str::<serde_json::Value>(&body).is_ok());
    assert_eq!(d.headers[2].value, "public, max-age=3600");
}

fn quake() -> Quake {
    Raw {
        tanggal: "".into(),
        jam: "".into(),
        datetime: "t".into(),
        coordinates: "1,2".into(),
        magnitude: "5".into(),
        kedalaman: "10 km".into(),
        wilayah: "".into(),
        potensi: None,
        dirasakan: None,
        shakemap: None,
    }
    .parse()
    .unwrap()
}

fn village() -> Forecast {
    let slot = RawSlot {
        datetime: "t".into(),
        local_datetime: None,
        t: num("28"),
        tcc: None,
        tp: None,
        weather: None,
        weather_desc: None,
        weather_desc_en: None,
        wd_deg: None,
        wd: None,
        wd_to: None,
        ws: None,
        hu: None,
        vs: None,
        vs_text: None,
        image: None,
    };
    let lokasi = RawLocation {
        adm1: "".into(),
        adm2: "".into(),
        adm3: "".into(),
        adm4: "".into(),
        provinsi: "".into(),
        kotkab: "".into(),
        kecamatan: "".into(),
        desa: "".into(),
        lon: num("1"),
        lat: num("1"),
        timezone: "".into(),
    };
    Forecast {
        location: lokasi.into(),
        slots: vec![slot.parse(0)],
    }
}

fn timed<T>(outcome: Result<T, ApiError>) -> Timed<T> {
    Timed {
        outcome,
        ms: num("12"),
    }
}

#[test]
fn deep_health() {
    let r = health_deep(
        timed(Ok(quake())),
        timed(Ok(vec![quake(), quake()])),
        timed(Ok(vec![])),
        timed(Err(ApiError::Internal("no".into()))),
        timed(Err(ApiError::UpstreamParse("changed".into()))),
        "now".into(),
    );
    assert_eq!(r.status, 503);
    assert_eq!(r.body.get("ok"), Some(&Json::Bool(true)));
    let data = r.body.get("data").unwrap();
    assert_eq!(data.get("healthy"), Some(&Json::Bool(false)));
    match data.get("checks") {
        Some(Json::Array(v)) => {
            let lines: Vec<(&str, &str)> = v
                .iter()
                .map(|c| (c.get_text("source").unwrap(), c.get_text("detail").unwrap()))
                .collect();
            assert_eq!(
                lines,
                [
                    ("earthquake/latest", "1 item(s)"),
                    ("earthquake/recent", "2 item(s)"),
                    ("earthquake/felt", "0 item(s)"),
                    ("weather/forecast", "internal: no"),
                    ("nowcast/index", "upstream_parse: changed"),
                ]
            );
            assert_eq!(v[0].get("ok"), Some(&Json::Bool(true)));
            assert_eq!(v[4].get("ok"), Some(&Json::Bool(false)));
            assert_eq!(v[0].get("ms"), Some(&Json::Float(num("12"))));
        }
        other => panic!("{other:?}"),
    }
}

#[test]
fn deep_health_when_all_is_well() {
    let r = health_deep(
        timed(Ok(quake())),
        timed(Ok(vec![])),
        timed(Ok(vec![])),
        timed(Ok(village())),
        timed(Ok(vec![])),
        "now".into(),
    );
    assert_eq!(r.status, 200);
    let data = r.body.get("data").unwrap();
    assert_eq!(data.get("healthy"), Some(&Json::Bool(true)));
    match data.get("checks") {
        Some(Json::Array(v)) => assert_eq!(v[3].get_text("detail"), Some("1 item(s)")),
        other => panic!("{other:?}"),
    }
}
