use bmkg_edge::api::ApiError;
use bmkg_edge::json::Json;
use bmkg_edge::number::Number;
use bmkg_edge::weather::{
    best_village, covering, current, current_of, forecast, forecast_url, search, village_hits,
    village_query, Forecast, Location, RawData, RawLocation, RawResponse, RawSlot, Slot,
};
use bmkg_edge::wilayah::{Arg, Region};

fn num(s: &str) -> Number {
    Number::parse(s).unwrap()
}

fn raw_slot(datetime: &str) -> RawSlot {
    RawSlot {
        datetime: datetime.into(),
        local_datetime: Some("local".into()),
        t: num("28"),
        tcc: Some(num("80.5")),
        tp: None,
        weather: Some(61),
        weather_desc: Some("Hujan".into()),
        weather_desc_en: Some("Rain".into()),
        wd_deg: Some(num("90")),
        wd: Some("E".into()),
        wd_to: Some("W".into()),
        ws: Some(num("3.2")),
        hu: Some(num("70")),
        vs: Some(num("9000")),
        vs_text: Some("> 9 km".into()),
        image: Some("https://x/y.svg".into()),
    }
}

fn raw_location() -> RawLocation {
    RawLocation {
        adm1: "31".into(),
        adm2: "31.74".into(),
        adm3: "31.74.04".into(),
        adm4: "31.74.04.1006".into(),
        provinsi: "DKI Jakarta".into(),
        kotkab: "Jakarta Selatan".into(),
        kecamatan: "Pasar Minggu".into(),
        desa: "Pejaten Barat".into(),
        lon: num("106.8"),
        lat: num("-6.2"),
        timezone: "Asia/Jakarta".into(),
    }
}

fn answer(days: Vec<Vec<RawSlot>>) -> RawResponse {
    RawResponse {
        lokasi: raw_location(),
        data: vec![RawData { cuaca: days }],
    }
}

fn slots(times: &[&str]) -> Vec<Slot> {
    times.iter().map(|t| raw_slot(t).parse(0)).collect()
}

fn region(code: &str, name: &str) -> Region {
    Region {
        code: code.into(),
        name: name.into(),
        level: 4,
        parent: None,
        path: None,
    }
}

const VILLAGE: &str = "31.74.04.1006";

#[test]
fn forecasts_need_a_village() {
    assert_eq!(
        forecast_url(VILLAGE).unwrap(),
        "https://api.bmkg.go.id/publik/prakiraan-cuaca?adm4=31.74.04.1006"
    );
    assert_eq!(
        forecast_url("31.74"),
        Err(ApiError::BadRequest(
            "weather needs a level-4 village code like 31.74.04.1006, got \"31.74\"".into()
        ))
    );
    match forecast_url("search") {
        Err(ApiError::BadRequest(m)) => {
            assert!(m.contains("is not a Kemendagri region code"), "{m}")
        }
        other => panic!("{other:?}"),
    }
}

#[test]
fn days_are_flattened() {
    let f = forecast(
        VILLAGE,
        Ok(answer(vec![
            vec![raw_slot("a"), raw_slot("b")],
            vec![],
            vec![raw_slot("c")],
        ])),
    )
    .unwrap();
    let got: Vec<(&str, usize)> = f
        .slots
        .iter()
        .map(|s| (s.datetime.as_str(), s.day_index))
        .collect();
    assert_eq!(got, [("a", 0), ("b", 0), ("c", 2)]);
    assert_eq!(f.location, Location::from(raw_location()));
    assert_eq!(f.location.village, "Pejaten Barat");
    assert_eq!(f.location.longitude.as_str(), "106.8");
    let s = &f.slots[0];
    assert_eq!(s.weather.as_deref(), Some("Rain"));
    assert_eq!(s.weather_id.as_deref(), Some("Hujan"));
    assert_eq!(s.cloud_cover_percent, Some(num("80.5")));
    assert_eq!(s.humidity_percent, Some(num("70")));
    assert_eq!(s.precipitation_mm, None);
    assert_eq!(s.wind_from.as_deref(), Some("E"));
    assert_eq!(s.wind_to.as_deref(), Some("W"));
}

#[test]
fn forecasts_are_never_empty() {
    let parse = |m: &str| ApiError::UpstreamParse(m.into());
    let none = RawResponse {
        lokasi: raw_location(),
        data: vec![],
    };
    assert_eq!(
        forecast(VILLAGE, Ok(none)),
        Err(parse("BMKG returned no forecast block for 31.74.04.1006"))
    );
    assert_eq!(
        forecast(VILLAGE, Ok(answer(vec![vec![], vec![]]))),
        Err(parse("BMKG returned an empty forecast for 31.74.04.1006"))
    );
    assert_eq!(
        forecast(VILLAGE, Err(ApiError::UpstreamNotFound("x".into()))),
        Err(ApiError::UpstreamNotFound(
            "BMKG has no forecast for 31.74.04.1006. The code may be valid but unmonitored; \
             try a neighbouring village from /v1/wilayah/villages"
                .into()
        ))
    );
    assert_eq!(
        forecast(VILLAGE, Err(ApiError::Internal("x".into()))),
        Err(ApiError::Internal("x".into()))
    );
    assert!(matches!(
        forecast("nope", Err(ApiError::Internal("x".into()))),
        Err(ApiError::BadRequest(_))
    ));
}

#[test]
fn the_latest_started_slot_covers_now() {
    let s = slots(&[
        "1970-01-01T00:00:00Z",
        "1970-01-01T06:00:00Z",
        "1970-01-01T03:00:00Z",
        "junk",
        "1970-01-01T03:00:00Z",
    ]);
    let hour = 3_600_000;
    assert_eq!(covering(&s, 0), 0);
    assert_eq!(covering(&s, 3 * hour - 1), 0);
    assert_eq!(covering(&s, 3 * hour), 2);
    assert_eq!(covering(&s, 5 * hour), 2);
    assert_eq!(covering(&s, 99 * hour), 1);
}

#[test]
fn before_every_slot_the_earliest_is_used() {
    let s = slots(&[
        "1970-01-01T06:00:00Z",
        "1970-01-01T03:00:00Z",
        "1970-01-01T09:00:00Z",
    ]);
    assert_eq!(covering(&s, 0), 1);
    // With a timestamp that cannot be read among them, the first.
    assert_eq!(covering(&slots(&["x", "1970-01-01T03:00:00Z"]), 0), 0);
    assert_eq!(
        covering(
            &slots(&["1970-01-01T06:00:00Z", "1970-01-01T03:00:00Z", "x"]),
            0
        ),
        0
    );
    assert_eq!(covering(&slots(&["x", "y"]), 0), 0);
}

#[test]
fn current_gives_the_next_three() {
    let f = |n: usize| Forecast {
        location: raw_location().into(),
        slots: slots(
            &[
                "1970-01-01T00:00:00Z",
                "1970-01-01T03:00:00Z",
                "1970-01-01T06:00:00Z",
                "1970-01-01T09:00:00Z",
                "1970-01-01T12:00:00Z",
                "1970-01-01T15:00:00Z",
            ][..n],
        ),
    };
    let c = current_of(f(6), 3 * 3_600_000);
    assert_eq!(c.now.datetime, "1970-01-01T03:00:00Z");
    let next: Vec<&str> = c.next.iter().map(|s| s.datetime.as_str()).collect();
    assert_eq!(
        next,
        ["1970-01-01T06:00:00Z", "1970-01-01T09:00:00Z", "1970-01-01T12:00:00Z"]
    );
    assert_eq!(current_of(f(3), 3 * 3_600_000).next.len(), 1);
    assert_eq!(current_of(f(1), 0).next.len(), 0);
    assert_eq!(current_of(f(5), 0).next.len(), 3);

    let c = current(VILLAGE, Ok(answer(vec![vec![raw_slot("x")]])), 0).unwrap();
    assert_eq!(c.now.datetime, "x");
    assert!(current("nope", Ok(answer(vec![])), 0).is_err());
}

#[test]
fn free_text_finds_a_village() {
    let q = village_query("tebet").unwrap();
    assert!(q.sql.contains("AND w.level = 4 "));
    assert_eq!(q.args[2], Arg::Whole(8));
    let hits = village_hits(
        "tebet",
        Ok(vec![region(VILLAGE, "Tebet"), region("31.74.04.1007", "Tebet Timur")]),
        Ok(vec![]),
    )
    .unwrap();
    assert_eq!(best_village("tebet", &hits).unwrap(), VILLAGE);
    let r = search("tebet", Ok(hits), Ok(answer(vec![vec![raw_slot("a")]]))).unwrap();
    assert_eq!(r.matched.code, VILLAGE);
    assert_eq!(r.matched.path.as_deref(), Some("Tebet"));
    assert_eq!(r.alternatives.len(), 1);
    assert_eq!(r.alternatives[0].name, "Tebet Timur");
    assert_eq!(r.forecast.slots.len(), 1);

    let none = || ApiError::NotFound("no village matched \"qq\"".into());
    assert_eq!(best_village("qq", &vec![]), Err(none()));
    assert_eq!(
        search("qq", Ok(vec![]), Ok(answer(vec![]))),
        Err(none())
    );
    assert_eq!(
        search("qq", Err(none()), Ok(answer(vec![]))),
        Err(none())
    );
    assert!(search(
        "qq",
        Ok(vec![region(VILLAGE, "X")]),
        Err(ApiError::Internal("x".into()))
    )
    .is_err());
}

#[test]
fn weather_as_json() {
    let f = forecast(VILLAGE, Ok(answer(vec![vec![raw_slot("a")]]))).unwrap();
    let j = f.to_json();
    assert_eq!(
        j.get("location").unwrap().get_text("city"),
        Some("Jakarta Selatan")
    );
    match j.get("slots") {
        Some(Json::Array(v)) => match &v[0] {
            Json::Object(ms) => {
                let names: Vec<&str> = ms.iter().map(|m| m.name.as_str()).collect();
                assert_eq!(
                    names,
                    [
                        "datetime",
                        "datetime_local",
                        "day_index",
                        "temperature_c",
                        "humidity_percent",
                        "cloud_cover_percent",
                        "wind_speed_kmh",
                        "wind_from",
                        "wind_to",
                        "wind_degrees",
                        "visibility_m",
                        "visibility_text",
                        "weather_code",
                        "weather",
                        "weather_id",
                        "icon_url"
                    ]
                );
                assert_eq!(v[0].get("weather_code"), Some(&Json::Signed(61)));
            }
            other => panic!("{other:?}"),
        },
        other => panic!("{other:?}"),
    }
    let c = current(VILLAGE, Ok(answer(vec![vec![raw_slot("a")]])), 0).unwrap();
    assert_eq!(c.to_json().get("now").unwrap().get_text("datetime"), Some("a"));
    let r = search(
        "x",
        Ok(vec![region(VILLAGE, "X")]),
        Ok(answer(vec![vec![raw_slot("a")]])),
    )
    .unwrap();
    let j = r.to_json();
    assert_eq!(j.get("matched").unwrap().get_text("name"), Some("X"));
    assert_eq!(j.get("alternatives"), Some(&Json::Array(vec![])));
}
