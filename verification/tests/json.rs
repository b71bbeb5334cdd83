use bmkg_edge::json::Json;
use bmkg_edge::number::Number;

#[test]
fn objects_are_built_in_order() {
    let j = Json::object()
        .with("a", Json::unsigned(1))
        .with_text("b", &None)
        .with_text("c", &Some("x".into()))
        .with_float("d", &Some(Number::parse("1.5").unwrap()))
        .with_float("e", &None)
        .with_signed("f", &Some(-3))
        .with_signed("g", &None)
        .with("h", Json::array(vec![Json::bool(true), Json::signed(-1)]));
    match &j {
        Json::Object(ms) => {
            let names: Vec<&str> = ms.iter().map(|m| m.name.as_str()).collect();
            assert_eq!(names, ["a", "c", "d", "f", "h"]);
        }
        other => panic!("{other:?}"),
    }
    assert_eq!(j.copy(), j);
}

#[test]
fn members_are_found_by_name_and_kind() {
    let j = Json::object()
        .with("t", Json::text("x"))
        .with("u", Json::unsigned(5))
        .with("s", Json::signed(-5))
        .with("min", Json::signed(i64::MIN))
        .with("f", Json::float(&Number::parse("2.5").unwrap()))
        .with("t", Json::text("second"));
    assert_eq!(j.get_text("t"), Some("x"));
    assert_eq!(j.get_text("u"), None);
    assert_eq!(j.get_text("none"), None);
    assert_eq!(j.get_unsigned("u"), Some(5));
    assert_eq!(j.get_unsigned("s"), None);
    let n = |k: &str| j.get_number(k).map(|n| n.as_str().to_string());
    assert_eq!(n("u").as_deref(), Some("5"));
    assert_eq!(n("s").as_deref(), Some("-5"));
    assert_eq!(n("min").as_deref(), Some("-9223372036854775808"));
    assert_eq!(n("f").as_deref(), Some("2.5"));
    assert_eq!(n("t"), None);
    assert_eq!(Json::text("x").get("t"), None);
}
