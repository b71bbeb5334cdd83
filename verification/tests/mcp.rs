use bmkg_edge::api::ApiError;
use bmkg_edge::json::Json;
use bmkg_edge::mcp::{
    accepted, call_tool, dispatch, handle, lang_arg, num_arg, parse_error, rpc_error, run_tool, sse,
    str_arg, tool_definitions, tool_payload, tools, Answers, Dispatch, Kind,
};
use bmkg_edge::number::Number;
use bmkg_edge::task::Task;
use bmkg_edge::wilayah::{search_query, Arg};

fn args() -> Json {
    Json::object()
}

fn num(s: &str) -> Number {
    Number::parse(s).unwrap()
}

fn run(name: &str, args: Json) -> Result<Task, ApiError> {
    run_tool(name, &args, Ok(()))
}

fn request(method: &str) -> Json {
    Json::object()
        .with("jsonrpc", Json::text("2.0"))
        .with("id", Json::unsigned(7))
        .with("method", Json::text(method))
}

fn reply(msg: &Json) -> Json {
    match dispatch(msg) {
        Dispatch::Reply(r) => r,
        other => panic!("{other:?}"),
    }
}

const TOOLS: [&str; 12] = [
    "get_latest_earthquake",
    "get_recent_earthquakes",
    "get_felt_earthquakes",
    "get_nearby_earthquakes",
    "find_weather",
    "get_weather_forecast",
    "get_current_weather",
    "get_weather_warnings",
    "check_location_warnings",
    "get_warning_detail",
    "search_regions",
    "list_regions",
];

#[test]
fn twelve_tools_are_listed() {
    let names: Vec<&str> = tools().iter().map(|t| t.name).collect();
    assert_eq!(names, TOOLS);
    match tool_definitions() {
        Json::Array(v) => {
            assert_eq!(v.len(), 12);
            for (j, name) in v.iter().zip(TOOLS) {
                assert_eq!(j.get_text("name"), Some(name));
                let schema = j.get("inputSchema").unwrap();
                assert_eq!(schema.get_text("type"), Some("object"));
                assert_eq!(
                    schema.get("additionalProperties"),
                    Some(&Json::Bool(false))
                );
            }
            assert_eq!(v[0].get("inputSchema").unwrap().get("required"), None);
            let nearby = v[3].get("inputSchema").unwrap();
            assert_eq!(
                nearby.get("required"),
                Some(&Json::Array(vec![Json::text("lat"), Json::text("lon")]))
            );
            let lat = nearby.get("properties").unwrap().get("lat").unwrap();
            assert_eq!(lat.get_text("type"), Some("number"));
            assert_eq!(lat.get_text("description"), Some("Latitude, -90 to 90."));
            let lang = v[8]
                .get("inputSchema")
                .unwrap()
                .get("properties")
                .unwrap()
                .get("lang")
                .unwrap();
            assert_eq!(
                lang.get("enum"),
                Some(&Json::Array(vec![Json::text("en"), Json::text("id")]))
            );
            assert_eq!(lang.get("description"), None);
        }
        other => panic!("{other:?}"),
    }
}

#[test]
fn required_arguments_are_enough() {
    for t in tools() {
        let mut a = args();
        for r in &t.required {
            let p = t.properties.iter().find(|p| p.name == *r).unwrap();
            a = a.with(
                r,
                match p.kind {
                    Kind::Text => Json::text("x"),
                    Kind::Number => Json::unsigned(1),
                    Kind::Integer => Json::unsigned(1),
                },
            );
        }
        assert!(run(t.name, a).is_ok(), "{}", t.name);
    }
}

#[test]
fn unknown_tools_are_not_found() {
    assert_eq!(
        run("get_tides", args()),
        Err(ApiError::NotFound("no tool named \"get_tides\"".into()))
    );
    assert_eq!(
        run("", args()),
        Err(ApiError::NotFound("no tool named \"\"".into()))
    );
}

#[test]
fn tool_calls() {
    assert_eq!(
        run("get_latest_earthquake", args()),
        Ok(Task::LatestEarthquake)
    );
    assert_eq!(
        run("get_recent_earthquakes", args()),
        Ok(Task::RecentEarthquakes)
    );
    assert_eq!(
        run("get_felt_earthquakes", args()),
        Ok(Task::FeltEarthquakes)
    );
    let point = || {
        args()
            .with("lat", Json::signed(-6))
            .with("lon", Json::float(&num("106.8")))
    };
    assert_eq!(
        run("get_nearby_earthquakes", point()),
        Ok(Task::NearbyEarthquakes {
            lat: num("-6"),
            lon: num("106.8"),
            radius_km: num("500"),
        })
    );
    assert_eq!(
        run(
            "get_nearby_earthquakes",
            point().with("radius_km", Json::unsigned(20))
        ),
        Ok(Task::NearbyEarthquakes {
            lat: num("-6"),
            lon: num("106.8"),
            radius_km: num("20"),
        })
    );
    assert_eq!(
        run("get_nearby_earthquakes", args().with("lat", Json::text("1"))),
        Err(ApiError::BadRequest(
            "missing numeric argument \"lat\"".into()
        ))
    );
    let adm4 = || args().with("adm4", Json::text("31.74.04.1006"));
    assert_eq!(
        run("get_weather_forecast", adm4()),
        Ok(Task::WeatherForecast {
            adm4: "31.74.04.1006".into()
        })
    );
    assert_eq!(
        run("get_current_weather", adm4()),
        Ok(Task::CurrentWeather {
            adm4: "31.74.04.1006".into()
        })
    );
    assert_eq!(
        run("get_weather_warnings", args()),
        Ok(Task::Warnings { lang: "en".into() })
    );
    assert_eq!(
        run(
            "check_location_warnings",
            args()
                .with("location", Json::text(" jambi"))
                .with("lang", Json::text("id"))
        ),
        Ok(Task::WarningCheck {
            location: " jambi".into(),
            lang: "id".into()
        })
    );
    assert_eq!(
        run(
            "get_warning_detail",
            args().with("alert_code", Json::text("EX1"))
        ),
        Ok(Task::WarningDetail {
            alert_code: "EX1".into(),
            lang: "en".into()
        })
    );
}

#[test]
fn region_tools() {
    assert_eq!(
        run("search_regions", args().with("q", Json::text("tebet"))),
        Ok(Task::RegionSearch {
            q: "tebet".into(),
            limit: 10,
            level: None
        })
    );
    assert_eq!(
        run(
            "search_regions",
            args()
                .with("q", Json::text("tebet"))
                .with("limit", Json::unsigned(5))
                .with("level", Json::unsigned(4))
        ),
        Ok(Task::RegionSearch {
            q: "tebet".into(),
            limit: 5,
            level: Some(4)
        })
    );
    // A huge limit counts as the most there is, and a level off the scale is refused.
    let wide = |q: &str, level: u64| {
        run(
            "search_regions",
            args()
                .with("q", Json::text(q))
                .with("limit", Json::unsigned(0x1_0000_0005))
                .with("level", Json::unsigned(level)),
        )
    };
    match wide("tebet", 4) {
        Ok(Task::RegionSearch { q, limit, level }) => assert_eq!(
            search_query(&q, limit, level).unwrap().args[2],
            Arg::Whole(100)
        ),
        other => panic!("{other:?}"),
    }
    let bad = |m: &str| ApiError::BadRequest(m.into());
    assert_eq!(wide("tebet", 257), Err(bad("level must be 1..4, got 257")));
    assert_eq!(wide("t", 257), Err(bad("q must be at least 2 characters")));
    match wide("tebet", 255) {
        Ok(Task::RegionSearch { q, limit, level }) => assert_eq!(
            search_query(&q, limit, level),
            Err(bad("level must be 1..4, got 255"))
        ),
        other => panic!("{other:?}"),
    }
    assert_eq!(run("list_regions", args()), Ok(Task::Provinces));
    assert_eq!(
        run("list_regions", args().with("parent_code", Json::text(" "))),
        Ok(Task::Provinces)
    );
    assert_eq!(
        run(
            "list_regions",
            args().with("parent_code", Json::text("31.74"))
        ),
        Ok(Task::Children {
            parent_code: "31.74".into(),
            expect_level: 3
        })
    );
}

#[test]
fn the_database_comes_before_the_arguments() {
    let gone = || ApiError::Internal("gone".into());
    for name in ["find_weather", "search_regions", "list_regions"] {
        assert_eq!(run_tool(name, &args(), Err(gone())), Err(gone()));
    }
    assert_eq!(
        run_tool("get_latest_earthquake", &args(), Err(gone())),
        Ok(Task::LatestEarthquake)
    );
    assert_eq!(
        run("find_weather", args()),
        Err(ApiError::BadRequest(
            "missing required argument \"query\"".into()
        ))
    );
}

#[test]
fn arguments() {
    let a = args()
        .with("s", Json::text(" x "))
        .with("blank", Json::text(" \t"))
        .with("n", Json::unsigned(3));
    assert_eq!(str_arg(&a, "s").unwrap(), " x ");
    for k in ["blank", "n", "none"] {
        assert_eq!(
            str_arg(&a, k),
            Err(ApiError::BadRequest(format!(
                "missing required argument {k:?}"
            )))
        );
    }
    assert_eq!(num_arg(&a, "n").unwrap().as_str(), "3");
    assert!(num_arg(&a, "s").is_err());
    assert_eq!(lang_arg(&a), "en");
    assert_eq!(lang_arg(&args().with("lang", Json::text("id"))), "id");
}

#[test]
fn notifications_are_not_answered() {
    let n = Json::object().with("method", Json::text("notifications/initialized"));
    assert_eq!(dispatch(&n), Dispatch::Nothing);
    assert_eq!(dispatch(&Json::text("junk")), Dispatch::Nothing);
}

#[test]
fn requests_are_answered_under_their_id() {
    let r = reply(&request("initialize"));
    assert_eq!(r.get_unsigned("id"), Some(7));
    assert_eq!(r.get_text("jsonrpc"), Some("2.0"));
    let result = r.get("result").unwrap();
    assert_eq!(result.get_text("protocolVersion"), Some("2025-06-18"));
    assert_eq!(
        result.get("serverInfo").unwrap().get_text("version"),
        Some("0.1.0")
    );
    assert_eq!(
        result.get("capabilities").unwrap().get("tools").unwrap().get("listChanged"),
        Some(&Json::Bool(false))
    );
    assert!(result
        .get_text("instructions")
        .unwrap()
        .starts_with("Indonesian weather, earthquake and severe-weather-warning data from BMKG. "));

    assert_eq!(
        reply(&request("ping")).get("result"),
        Some(&Json::object())
    );
    assert_eq!(
        reply(&request("tools/list")).get("result").unwrap().get("tools"),
        Some(&tool_definitions())
    );
    let e = reply(&request("nope"));
    let error = e.get("error").unwrap();
    assert_eq!(error.get("code"), Some(&Json::Signed(-32601)));
    assert_eq!(error.get_text("message"), Some("method not found: nope"));
}

#[test]
fn tool_calls_are_handed_on() {
    let msg = request("tools/call").with(
        "params",
        Json::object()
            .with("name", Json::text("find_weather"))
            .with("arguments", args().with("query", Json::text("tebet"))),
    );
    assert_eq!(
        dispatch(&msg),
        Dispatch::Call {
            id: Json::Unsigned(7),
            name: "find_weather".into(),
            arguments: args().with("query", Json::text("tebet")),
        }
    );
    assert_eq!(
        dispatch(&request("tools/call")),
        Dispatch::Call {
            id: Json::Unsigned(7),
            name: "".into(),
            arguments: args(),
        }
    );
}

#[test]
fn tool_results() {
    let (payload, is_error) = tool_payload(Ok(Json::bool(true)));
    assert!(!is_error);
    let r = call_tool(Json::Null, payload, is_error, "true");
    let result = r.get("result").unwrap();
    assert_eq!(r.get("id"), Some(&Json::Null));
    assert_eq!(result.get("structuredContent"), Some(&Json::Bool(true)));
    assert_eq!(result.get("isError"), Some(&Json::Bool(false)));
    match result.get("content") {
        Some(Json::Array(v)) => {
            assert_eq!(v.len(), 1);
            assert_eq!(v[0].get_text("type"), Some("text"));
            assert_eq!(v[0].get_text("text"), Some("true"));
        }
        other => panic!("{other:?}"),
    }
    let e = ApiError::BadRequest("no".into());
    let envelope = e.to_value();
    let (payload, is_error) = tool_payload(Err(e));
    assert!(is_error);
    assert_eq!(payload, envelope);
}

#[test]
fn batches_are_answered_together() {
    assert_eq!(handle(Answers::Single(None)), None);
    assert_eq!(
        handle(Answers::Single(Some(Json::bool(true)))),
        Some(Json::Bool(true))
    );
    assert_eq!(handle(Answers::Batch(vec![None, None])), None);
    assert_eq!(handle(Answers::Batch(vec![])), None);
    assert_eq!(
        handle(Answers::Batch(vec![
            Some(Json::unsigned(1)),
            None,
            Some(Json::unsigned(2))
        ])),
        Some(Json::Array(vec![Json::Unsigned(1), Json::Unsigned(2)]))
    );
}

#[test]
fn transport() {
    let r = sse("{}");
    assert_eq!(r.status, 200);
    assert_eq!(r.body.as_deref(), Some("event: message\ndata: {}\n\n"));
    assert_eq!(r.headers[0].value, "text/event-stream");
    assert_eq!(r.headers[1].value, "no-store");
    let a = accepted();
    assert_eq!(a.status, 202);
    assert_eq!(a.body, None);
    let e = parse_error("EOF");
    assert_eq!(e.get("id"), Some(&Json::Null));
    assert_eq!(
        e,
        rpc_error(Json::Null, -32700, "parse error: EOF")
    );
}
