use bmkg_edge::api::ApiError;
use bmkg_edge::json::Json;
use bmkg_edge::nowcast::{
    accumulate, alert_mentions, area_from_headline, check, check_needle, check_url,
    code_from_link, detail,
    detail_url, entity, index, index_url, keep_mentioning, lang, local, parse_cap, parse_polygon,
    parse_rss, Alert, CapReading, RssReading,
};
use bmkg_edge::number::Number;
use bmkg_edge::xml::XmlEvent;

fn floats(p: &[[Number; 2]]) -> Vec<[f64; 2]> {
    p.iter()
        .map(|c| [c[0].as_str().parse().unwrap(), c[1].as_str().parse().unwrap()])
        .collect()
}

const RSS: &str = r#"<rss><channel>
            <item>
              <title>Storm in A &amp; B</title>
              <link>https://x/EX1_alert.xml</link>
              <description>rain &lt;heavy&gt;</description>
              <category>Met</category>
            </item></channel></rss>"#;

const CAP: &str = r#"<alert xmlns="urn:oasis:names:tc:emergency:cap:1.2">
          <identifier>2.49.0.1</identifier><sender>x@bmkg.go.id</sender>
          <sent>2026-09-12T01:55:00+07:00</sent><status>Actual</status><msgType>Alert</msgType>
          <info><language>en</language><category>Met</category><event>Thunderstorm</event>
            <urgency>Immediate</urgency><severity>Moderate</severity><certainty>Observed</certainty>
            <effective>2026-09-12T02:05:00+07:00</effective><expires>2026-09-12T05:00:00+07:00</expires>
            <headline>Thunderstorm Tonight in Jambi</headline><description>rain</description>
            <web>https://example/i.jpg</web>
            <area><areaDesc>Jambi</areaDesc><polygon>-2.0,102.3 -2.1,102.4 -2.0,102.3</polygon></area>
          </info></alert>"#;

#[test]
fn alert_code_comes_from_the_link() {
    assert_eq!(
        code_from_link("https://www.bmkg.go.id/alerts/nowcast/en/CJI20260911005_alert.xml"),
        Some("CJI20260911005".into())
    );
    assert_eq!(code_from_link(""), None);
}

#[test]
fn area_read_off_both_languages() {
    assert_eq!(
        area_from_headline("Thunderstorm Tonight in Jambi"),
        Some("Jambi".into())
    );
    assert_eq!(
        area_from_headline("Hujan Lebat Malam Ini di Kalimantan Utara"),
        Some("Kalimantan Utara".into())
    );
    assert_eq!(area_from_headline("Peringatan Dini"), None);
}

#[test]
fn polygon_is_swapped_into_geojson_order() {
    let p = parse_polygon("-2.008,102.331 -2.015,102.357");
    assert_eq!(floats(&p), vec![[102.331, -2.008], [102.357, -2.015]]);
}

#[test]
fn rss_items_survive_entities() {
    let out = parse_rss(RSS, "en").unwrap();
    assert_eq!(out.len(), 1);
    assert_eq!(out[0].headline, "Storm in A & B");
    assert_eq!(out[0].description, "rain <heavy>");
    assert_eq!(out[0].alert_code, "EX1");
}

#[test]
fn cap_detail_parses_area_and_polygon() {
    let d = parse_cap(CAP, "EX1").unwrap();
    assert_eq!(d.severity, "Moderate");
    assert_eq!(d.areas.len(), 1);
    assert_eq!(d.areas[0].description, "Jambi");
    assert_eq!(d.areas[0].polygon.len(), 3);
    assert_eq!(floats(&d.areas[0].polygon)[0], [102.3, -2.0]);
    assert_eq!(d.infographic_url.as_deref(), Some("https://example/i.jpg"));
}

#[test]
fn an_item_becomes_an_alert() {
    let out = parse_rss(RSS, "id").unwrap();
    assert_eq!(
        out[0],
        Alert {
            alert_code: "EX1".into(),
            headline: "Storm in A & B".into(),
            area: Some("A & B".into()),
            description: "rain <heavy>".into(),
            category: Some("Met".into()),
            published: None,
            detail_url: "/v1/nowcast/EX1?lang=id".into(),
        }
    );
}

#[test]
fn references_and_cdata_are_read() {
    let xml = "<rss><item><title>a&#65;&#x42;&quot;&apos;<![CDATA[ <c> ]]>&unknown;z</title>\
               <link>X9</link><pubDate> now </pubDate></item><item><title>no link</title></item></rss>";
    let out = parse_rss(xml, "en").unwrap();
    assert_eq!(out.len(), 1);
    assert_eq!(out[0].headline, "aAB\"' <c> z");
    assert_eq!(out[0].published.as_deref(), Some("now"));
    assert_eq!(out[0].category, None);
}

#[test]
fn namespaced_names_and_text_outside_items() {
    let xml = "<a:rss><a:title>feed</a:title><a:item><a:title> t \n</a:title><a:link>/b/C1_alert.xml</a:link></a:item></a:rss>";
    let out = parse_rss(xml, "en").unwrap();
    assert_eq!(out[0].headline, "t");
    assert_eq!(out[0].alert_code, "C1");
    assert_eq!(local("cap:area"), "area");
    assert_eq!(local("area"), "area");
}

#[test]
fn broken_xml_is_a_parse_error() {
    match parse_rss("<rss><item></rss>", "en") {
        Err(ApiError::UpstreamParse(m)) => {
            assert!(m.starts_with("BMKG alert feed is not valid XML: "), "{m}")
        }
        other => panic!("{other:?}"),
    }
    match parse_cap("<alert></info>", "EX1") {
        Err(ApiError::UpstreamParse(m)) => {
            assert!(m.starts_with("CAP file EX1 is not valid XML: "), "{m}")
        }
        other => panic!("{other:?}"),
    }
}

#[test]
fn a_cap_file_needs_identifier_or_headline() {
    assert_eq!(
        parse_cap("<alert><sender>x</sender></alert>", "EX1"),
        Err(ApiError::UpstreamParse(
            "CAP file EX1 carried neither an identifier nor a headline".into()
        ))
    );
    assert!(parse_cap("<alert><headline>h</headline></alert>", "EX1").is_ok());
}

#[test]
fn the_first_cap_value_is_kept() {
    let xml = "<alert><identifier></identifier><identifier>one</identifier><identifier>two</identifier></alert>";
    let d = parse_cap(xml, "EX1").unwrap();
    assert_eq!(d.identifier, "one");
    assert_eq!(d.infographic_url, None);
    assert!(d.areas.is_empty());
}

#[test]
fn cap_areas_keep_their_own_text() {
    let xml = "<alert><headline>h &amp; i</headline><area><areaDesc>A</areaDesc><headline>no</headline>\
               <polygon>1,2 bad 3,x 5,6</polygon></area><area/></alert>";
    let d = parse_cap(xml, "EX1").unwrap();
    assert_eq!(d.headline, "h & i");
    assert_eq!(d.areas.len(), 1);
    assert_eq!(floats(&d.areas[0].polygon), vec![[2.0, 1.0], [6.0, 5.0]]);
}

#[test]
fn events_can_be_fed_one_by_one() {
    let mut rss = RssReading::start();
    for e in [
        XmlEvent::Start("item".into()),
        XmlEvent::Start("title".into()),
        XmlEvent::Text("Rain in ".into()),
        XmlEvent::Reference(None, "amp".into()),
        XmlEvent::Reference(Some('x'), "#120".into()),
        XmlEvent::End("title".into()),
        XmlEvent::Start("link".into()),
        XmlEvent::CData("Q1_alert.xml".into()),
        XmlEvent::End("link".into()),
        XmlEvent::Other,
        XmlEvent::End("item".into()),
    ] {
        rss.step(&e, "en");
    }
    assert_eq!(rss.alerts.len(), 1);
    assert_eq!(rss.alerts[0].headline, "Rain in &x");

    let mut cap = CapReading::start();
    cap.step(&XmlEvent::Start("headline".into()));
    cap.step(&XmlEvent::Text(" H ".into()));
    cap.step(&XmlEvent::End("headline".into()));
    assert_eq!(cap.finish("EX1").unwrap().headline, "H");

    let mut text = String::from("a");
    accumulate(&mut text, &XmlEvent::Text("b".into()));
    accumulate(&mut text, &XmlEvent::Eof);
    assert_eq!(text, "ab");
}

#[test]
fn the_five_named_entities() {
    assert_eq!(entity("amp"), Some('&'));
    assert_eq!(entity("lt"), Some('<'));
    assert_eq!(entity("gt"), Some('>'));
    assert_eq!(entity("quot"), Some('"'));
    assert_eq!(entity("apos"), Some('\''));
    assert_eq!(entity("nbsp"), None);
}

#[test]
fn languages_are_checked() {
    assert_eq!(lang("en"), Ok("en"));
    assert_eq!(lang(""), Ok("en"));
    assert_eq!(lang("id"), Ok("id"));
    assert_eq!(
        lang("f\"r"),
        Err(ApiError::BadRequest(
            "lang must be 'en' or 'id', got \"f\\\"r\"".into()
        ))
    );
    assert_eq!(
        index_url("id").unwrap(),
        "https://www.bmkg.go.id/alerts/nowcast/id"
    );
    assert!(index_url("fr").is_err());
}

#[test]
fn detail_codes_are_checked() {
    let url = detail_url("CJI20260911005", "").unwrap();
    assert_eq!(
        url,
        "https://www.bmkg.go.id/alerts/nowcast/en/CJI20260911005_alert.xml"
    );
    // The code reads back from the address of its own detail file.
    assert_eq!(code_from_link(&url).as_deref(), Some("CJI20260911005"));
    assert!(detail_url(&"A".repeat(32), "en").is_ok());
    for bad in ["", "a-b", "é", "a/../b"] {
        assert_eq!(
            detail_url(bad, "en"),
            Err(ApiError::BadRequest(format!(
                "{bad:?} is not an alert code (letters and digits, e.g. CJI20260911005)"
            )))
        );
    }
    assert!(detail_url(&"A".repeat(33), "en").is_err());
    // The language is looked at first.
    assert_eq!(
        detail_url("!", "xx"),
        Err(ApiError::BadRequest(
            "lang must be 'en' or 'id', got \"xx\"".into()
        ))
    );
}

#[test]
fn index_and_detail_pass_upstream_failures_on() {
    let down = || ApiError::UpstreamUnavailable("down".into());
    assert_eq!(index("en", Err(down())), Err(down()));
    assert_eq!(detail("EX1", "en", Err(down())), Err(down()));
    match index("id", Ok("<rss></item>".into())) {
        Err(ApiError::UpstreamParse(m)) => assert!(
            m.starts_with(
                "https://www.bmkg.go.id/alerts/nowcast/id: BMKG alert feed is not valid XML: "
            ),
            "{m}"
        ),
        other => panic!("{other:?}"),
    }
    assert_eq!(
        detail("EX1", "en", Ok("<alert></alert>".into())),
        Err(ApiError::UpstreamParse(
            "https://www.bmkg.go.id/alerts/nowcast/en/EX1_alert.xml: \
             CAP file EX1 carried neither an identifier nor a headline"
                .into()
        ))
    );
    assert_eq!(index("en", Ok(RSS.into())).unwrap().len(), 1);
    assert_eq!(
        detail("EX1", "en", Ok(CAP.into())).unwrap().alert_code,
        "EX1"
    );
    assert!(matches!(
        index("xx", Err(down())),
        Err(ApiError::BadRequest(_))
    ));
}

#[test]
fn a_check_finds_the_mentions() {
    assert_eq!(
        check("a & b", "en", Ok(RSS.into())).unwrap()[0].alert_code,
        "EX1"
    );
    assert_eq!(check("  HEAVY ", "en", Ok(RSS.into())).unwrap().len(), 1);
    assert!(check("jambi", "en", Ok(RSS.into())).unwrap().is_empty());
    assert_eq!(
        check(" ab ", "en", Ok(RSS.into())),
        Err(ApiError::BadRequest(
            "location must be at least 3 characters".into()
        ))
    );
    assert!(check_url("ab", "xx").is_err());
    assert!(check_url("abc", "xx").is_err());
    assert_eq!(
        check_url("abc", "id").unwrap(),
        "https://www.bmkg.go.id/alerts/nowcast/id"
    );
    // Three characters, however many bytes; two are too few.
    assert_eq!(check_needle(" éßé ").unwrap(), "ÉSSÉ");
    assert!(check_needle("éé").is_err());
}

#[test]
fn mentions_are_read_off_headline_description_and_area() {
    let alert = |h: &str, d: &str, a: Option<&str>| Alert {
        alert_code: "X".into(),
        headline: h.into(),
        area: a.map(str::to_owned),
        description: d.into(),
        category: None,
        published: None,
        detail_url: "/".into(),
    };
    assert!(alert_mentions(&alert("In Jambi", "", None), "JAMBI"));
    assert!(alert_mentions(&alert("", "kota jambi", None), "JAMBI"));
    assert!(alert_mentions(&alert("", "", Some("jAmBi")), "JAMBI"));
    assert!(!alert_mentions(&alert("a", "b", Some("c")), "JAMBI"));
    let kept = keep_mentioning(
        vec![alert("x", "1", None), alert("y", "2", None), alert("x", "3", None)],
        "X",
    );
    assert_eq!(kept.len(), 2);
    assert_eq!(kept[1].description, "3");
}

#[test]
fn alerts_as_json() {
    let out = parse_rss(RSS, "en").unwrap();
    let j = out[0].to_json();
    assert_eq!(j.get_text("alert_code"), Some("EX1"));
    assert_eq!(j.get_text("area"), Some("A & B"));
    assert_eq!(j.get("published"), None);
    assert_eq!(j.get_text("detail_url"), Some("/v1/nowcast/EX1?lang=en"));

    let d = parse_cap(CAP, "EX1").unwrap().to_json();
    assert_eq!(d.get_text("message_type"), Some("Alert"));
    assert_eq!(d.get_text("infographic_url"), Some("https://example/i.jpg"));
    match d.get("areas") {
        Some(Json::Array(areas)) => match areas[0].get("polygon") {
            Some(Json::Array(p)) => assert_eq!(
                p[0],
                Json::Array(vec![
                    Json::Float(Number::parse("102.3").unwrap()),
                    Json::Float(Number::parse("-2.0").unwrap())
                ])
            ),
            other => panic!("{other:?}"),
        },
        other => panic!("{other:?}"),
    }
}
