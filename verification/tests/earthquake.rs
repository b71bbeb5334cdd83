use bmkg_edge::api::ApiError;
use bmkg_edge::earthquake::{
    check_area, felt, felt_url, latest, latest_url, merge, nearby, parse_all, parse_depth,
    parse_position, quakes_json, recent, recent_url, Measured, Quake, Raw,
};
use bmkg_edge::json::Json;

fn raw() -> Raw {
    Raw {
        tanggal: "16 Sep 2026".into(),
        jam: "11:00:00 WIB".into(),
        datetime: "2026-09-16T04:00:00+00:00".into(),
        coordinates: "-7.22,107.62".into(),
        magnitude: "6.2".into(),
        kedalaman: "145 km".into(),
        wilayah: "Jawa Barat".into(),
        potensi: Some("Tidak berpotensi tsunami".into()),
        dirasakan: None,
        shakemap: Some("20260916.mmi.jpg".into()),
    }
}

fn at(datetime: &str) -> Quake {
    let mut r = raw();
    r.datetime = datetime.into();
    r.parse().unwrap()
}

fn parse_error(r: Raw) -> String {
    match r.parse() {
        Err(ApiError::UpstreamParse(m)) => m,
        other => panic!("{other:?}"),
    }
}

#[test]
fn strings_become_numbers() {
    let q = raw().parse().unwrap();
    assert_eq!(q.latitude.as_str().parse::<f64>().unwrap(), -7.22);
    assert_eq!(q.longitude.as_str().parse::<f64>().unwrap(), 107.62);
    assert_eq!(q.magnitude.as_str().parse::<f64>().unwrap(), 6.2);
    assert_eq!(q.depth_km.as_str().parse::<f64>().unwrap(), 145.0);
    assert_eq!(q.date_local, "16 Sep 2026");
    assert_eq!(q.time_local, "11:00:00 WIB");
    assert_eq!(q.region, "Jawa Barat");
    assert_eq!(
        q.shakemap_url.as_deref(),
        Some("https://data.bmkg.go.id/DataMKG/TEWS/20260916.mmi.jpg")
    );
    assert_eq!(q.felt_intensity, None);
    assert_eq!(q.distance_km, None);
}

#[test]
fn depths_as_bmkg_has_written_them() {
    for (s, want) in [("145 km", 145.0), ("10 Km", 10.0), ("5  km", 5.0), (" 7,5 km", 7.5), ("3", 3.0)] {
        let d = parse_depth(s).unwrap();
        assert_eq!(d.as_str().parse::<f64>().unwrap(), want, "{s}");
    }
    for s in ["", "km 10", "10km"] {
        assert_eq!(
            parse_depth(s),
            Err(ApiError::UpstreamParse(format!(
                "Kedalaman {s:?} has no leading number"
            )))
        );
    }
}

#[test]
fn positions_are_lat_then_lon() {
    let (lat, lon) = parse_position(" -7.22 , 107.62").unwrap();
    assert_eq!((lat.as_str(), lon.as_str()), ("-7.22", "107.62"));
    let e = |s: &str| match parse_position(s) {
        Err(ApiError::UpstreamParse(m)) => m,
        other => panic!("{other:?}"),
    };
    assert_eq!(e("7 107"), "Coordinates was \"7 107\", expected \"lat,lon\"");
    assert_eq!(e("x,107"), "latitude \"x\": invalid float literal");
    assert_eq!(
        e("1, "),
        "longitude \"\": cannot parse float from empty string"
    );
}

#[test]
fn what_cannot_be_read_is_reported() {
    let mut r = raw();
    r.magnitude = " M6 ".into();
    assert_eq!(parse_error(r), "Magnitude \" M6 \": invalid float literal");
    let mut r = raw();
    r.kedalaman = "dangkal".into();
    assert_eq!(
        parse_error(r),
        "Kedalaman \"dangkal\" has no leading number"
    );
    let mut r = raw();
    r.coordinates = "none".into();
    r.magnitude = "none".into();
    assert_eq!(
        parse_error(r),
        "Coordinates was \"none\", expected \"lat,lon\""
    );
}

#[test]
fn feeds_are_read_whole_or_not_at_all() {
    assert_eq!(latest(Ok(raw())), raw().parse());
    assert_eq!(recent(Ok(vec![raw(), raw()])).unwrap().len(), 2);
    assert_eq!(felt(Ok(vec![])), Ok(vec![]));
    let mut broken = raw();
    broken.magnitude = "?".into();
    assert!(matches!(
        parse_all(vec![raw(), broken, raw()]),
        Err(ApiError::UpstreamParse(_))
    ));
    // What cannot be read is reported with the URL it came from.
    let odd = || {
        let mut r = raw();
        r.magnitude = "?".into();
        r
    };
    let named = |url: String| ApiError::UpstreamParse(format!("{url}: Magnitude \"?\": invalid float literal"));
    assert_eq!(latest(Ok(odd())), Err(named(latest_url())));
    assert_eq!(recent(Ok(vec![raw(), odd()])), Err(named(recent_url())));
    assert_eq!(felt(Ok(vec![odd()])), Err(named(felt_url())));
    let down = || ApiError::UpstreamUnavailable("down".into());
    assert_eq!(latest(Err(down())), Err(down()));
    assert_eq!(recent(Err(down())), Err(down()));
    assert_eq!(felt(Err(down())), Err(down()));
}

#[test]
fn feed_addresses() {
    assert_eq!(
        latest_url(),
        "https://data.bmkg.go.id/DataMKG/TEWS/autogempa.json"
    );
    assert_eq!(
        recent_url(),
        "https://data.bmkg.go.id/DataMKG/TEWS/gempaterkini.json"
    );
    assert_eq!(
        felt_url(),
        "https://data.bmkg.go.id/DataMKG/TEWS/gempadirasakan.json"
    );
}

#[test]
fn areas_are_checked() {
    assert_eq!(check_area("-6.2", "106.8", "500", true, true), Ok(()));
    assert_eq!(
        check_area("91", "200", "0", false, false),
        Err(ApiError::BadRequest(
            "lat must be -90..90 and lon -180..180; got 91,200".into()
        ))
    );
    assert_eq!(
        check_area("1", "2", "20001", true, false),
        Err(ApiError::BadRequest(
            "radius_km must be between 0 and 20000; got 20001".into()
        ))
    );
}

#[test]
fn an_event_in_both_feeds_is_seen_once() {
    let mut twin = at("t1");
    twin.region = "felt".into();
    let all = merge(
        vec![at("t1"), at("t2"), at("t2")],
        vec![at("t3"), twin, at("t3")],
    );
    let times: Vec<&str> = all.iter().map(|q| q.datetime.as_str()).collect();
    assert_eq!(times, ["t1", "t2", "t3"]);
    assert_eq!(all[0].region, "Jawa Barat");
}

#[test]
fn nearest_first_and_ties_in_feed_order() {
    let far = |t: &str, tenths: Option<u32>| Measured {
        quake: at(t),
        tenths,
    };
    let hits = nearby(vec![
        far("a", Some(300)),
        far("b", None),
        far("c", Some(5)),
        far("d", Some(300)),
        far("e", Some(0)),
        far("f", Some(299)),
    ]);
    let got: Vec<(&str, &str)> = hits
        .iter()
        .map(|q| (q.datetime.as_str(), q.distance_km.as_ref().unwrap().as_str()))
        .collect();
    assert_eq!(
        got,
        [("e", "0.0"), ("c", "0.5"), ("f", "29.9"), ("a", "30.0"), ("d", "30.0")]
    );
    assert!(nearby(vec![far("x", None)]).is_empty());
}

#[test]
fn quakes_as_json() {
    let j = at("t").to_json();
    match &j {
        Json::Object(ms) => {
            let names: Vec<&str> = ms.iter().map(|m| m.name.as_str()).collect();
            assert_eq!(
                names,
                [
                    "datetime",
                    "date_local",
                    "time_local",
                    "latitude",
                    "longitude",
                    "magnitude",
                    "depth_km",
                    "region",
                    "tsunami_potential",
                    "shakemap_url"
                ]
            );
        }
        other => panic!("{other:?}"),
    }
    assert_eq!(j.get_number("magnitude").unwrap().as_str(), "6.2");
    assert!(matches!(quakes_json(&vec![at("a"), at("b")]), Json::Array(v) if v.len() == 2));
}
