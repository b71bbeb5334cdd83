//! What responses carry: every field of a value under the name of that field.

use vstd::prelude::*;
use crate::earthquake::{quake_trees, Quake};
use crate::json::{first_named, optional, Tree};
use crate::nowcast::{alert_trees, Alert, AlertDetail, Area};
use crate::number::Number;
use crate::weather::{slot_trees, Current, Forecast, Location, Resolved, Slot};
use crate::wilayah::{region_trees, Region};

verus! {

/// The value has this text under this name.
pub open spec fn says(t: Tree, name: Seq<char>, s: String) -> bool {
    t.member(name) == Some(Tree::Text(s@))
}

/// The value has this text under this name, and nothing under it where there is no text.
pub open spec fn may_say(t: Tree, name: Seq<char>, s: Option<String>) -> bool {
    match s {
        Some(x) => t.member(name) == Some(Tree::Text(x@)),
        None => t.member(name) is None,
    }
}

/// The value has this number under this name.
pub open spec fn gives(t: Tree, name: Seq<char>, n: Number) -> bool {
    t.member(name) == Some(Tree::Float(n@))
}

/// The value has this number under this name, and nothing under it where there is none.
pub open spec fn may_give(t: Tree, name: Seq<char>, n: Option<Number>) -> bool {
    match n {
        Some(x) => t.member(name) == Some(Tree::Float(x@)),
        None => t.member(name) is None,
    }
}

/// The value has this whole number under this name, and nothing under it where there is none.
pub open spec fn may_count(t: Tree, name: Seq<char>, n: Option<i64>) -> bool {
    match n {
        Some(x) => t.member(name) == Some(Tree::Signed(x as int)),
        None => t.member(name) is None,
    }
}

/// The value has a list under this name, with these items in this order.
pub open spec fn lists(t: Tree, name: Seq<char>, items: Seq<Tree>) -> bool {
    t.member(name) matches Some(Tree::Array(v)) && v.len() == items.len() && forall|i: int|
        0 <= i < v.len() ==> #[trigger] v[i] == items[i]
}

// ------------------------------------------------------------------ looking members up

/// Where members stand one list after the other, the first list is looked through first.
pub proof fn found_in_the_first_list_or_the_second(
    a: Seq<(Seq<char>, Tree)>,
    b: Seq<(Seq<char>, Tree)>,
    name: Seq<char>,
)
    ensures
        first_named(a + b, name) == (match first_named(a, name) {
            Some(t) => Some(t),
            None => first_named(b, name),
        }),
    decreases a.len(),
{
    if a.len() == 0 {
        assert(a + b =~= b);
    } else {
        assert((a + b).skip(1) =~= a.skip(1) + b);
        found_in_the_first_list_or_the_second(a.skip(1), b, name);
    }
}

/// How a lookup goes through members that were put together one by one.
pub proof fn lookups()
    ensures
        forall|a: Seq<(Seq<char>, Tree)>, b: Seq<(Seq<char>, Tree)>, name: Seq<char>|
            #[trigger] first_named(a + b, name) == (match first_named(a, name) {
                Some(t) => Some(t),
                None => first_named(b, name),
            }),
        forall|a: Seq<(Seq<char>, Tree)>, m: (Seq<char>, Tree), name: Seq<char>|
            #[trigger] first_named(a.push(m), name) == (match first_named(a, name) {
                Some(t) => Some(t),
                None => if m.0 == name {
                    Some(m.1)
                } else {
                    None
                },
            }),
        forall|n: Seq<char>, v: Option<Tree>, name: Seq<char>|
            #[trigger] first_named(optional(n, v), name) == (if n == name {
                v
            } else {
                None
            }),
        forall|name: Seq<char>|
            #[trigger] first_named(Seq::<(Seq<char>, Tree)>::empty(), name) is None,
{
    assert forall|a: Seq<(Seq<char>, Tree)>, b: Seq<(Seq<char>, Tree)>, name: Seq<char>|
        #[trigger] first_named(a + b, name) == (match first_named(a, name) {
            Some(t) => Some(t),
            None => first_named(b, name),
        }) by {
        found_in_the_first_list_or_the_second(a, b, name);
    }
    assert forall|a: Seq<(Seq<char>, Tree)>, m: (Seq<char>, Tree), name: Seq<char>|
        #[trigger] first_named(a.push(m), name) == (match first_named(a, name) {
            Some(t) => Some(t),
            None => if m.0 == name {
                Some(m.1)
            } else {
                None
            },
        }) by {
        reveal_with_fuel(first_named, 2);
        found_in_the_first_list_or_the_second(a, seq![m], name);
        assert(a.push(m) =~= a + seq![m]);
    }
    reveal_with_fuel(first_named, 2);
    reveal(optional);
}

/// The names of the fields, each told apart from the others.
proof fn a_quake_is_answered_field_by_field_names()
    ensures
        "datetime"@.len() == 8,
        "date_local"@.len() == 10,
        "time_local"@.len() == 10,
        "latitude"@.len() == 8,
        "longitude"@.len() == 9,
        "magnitude"@.len() == 9,
        "depth_km"@.len() == 8,
        "region"@.len() == 6,
        "tsunami_potential"@.len() == 17,
        "felt_intensity"@.len() == 14,
        "shakemap_url"@.len() == 12,
        "distance_km"@.len() == 11,
        "datetime"@[3] == 'e',
        "latitude"@[3] == 'i',
        "depth_km"@[3] == 't',
        "date_local"@[0] == 'd',
        "time_local"@[0] == 't',
        "longitude"@[0] == 'l',
        "magnitude"@[0] == 'm',
{
    reveal_strlit("datetime");
    reveal_strlit("date_local");
    reveal_strlit("time_local");
    reveal_strlit("latitude");
    reveal_strlit("longitude");
    reveal_strlit("magnitude");
    reveal_strlit("depth_km");
    reveal_strlit("region");
    reveal_strlit("tsunami_potential");
    reveal_strlit("felt_intensity");
    reveal_strlit("shakemap_url");
    reveal_strlit("distance_km");
}

/// The JSON of an event has every field of the event under that field's name: what is
/// optional is there exactly when there is a value, the distance among it.
#[verifier::spinoff_prover]
#[verifier::rlimit(60)]
pub proof fn a_quake_is_answered_field_by_field(q: Quake)
    ensures
        says(q@.tree(), "datetime"@, q.datetime),
        says(q@.tree(), "date_local"@, q.date_local),
        says(q@.tree(), "time_local"@, q.time_local),
        gives(q@.tree(), "latitude"@, q.latitude),
        gives(q@.tree(), "longitude"@, q.longitude),
        gives(q@.tree(), "magnitude"@, q.magnitude),
        gives(q@.tree(), "depth_km"@, q.depth_km),
        says(q@.tree(), "region"@, q.region),
        may_say(q@.tree(), "tsunami_potential"@, q.tsunami_potential),
        may_say(q@.tree(), "felt_intensity"@, q.felt_intensity),
        may_say(q@.tree(), "shakemap_url"@, q.shakemap_url),
        may_give(q@.tree(), "distance_km"@, q.distance_km),
{
    lookups();
    a_quake_is_answered_field_by_field_names();
    assert(seq![
        ("datetime"@, Tree::Text(q.datetime@)),
        ("date_local"@, Tree::Text(q.date_local@)),
        ("time_local"@, Tree::Text(q.time_local@)),
        ("latitude"@, Tree::Float(q.latitude@)),
        ("longitude"@, Tree::Float(q.longitude@)),
        ("magnitude"@, Tree::Float(q.magnitude@)),
        ("depth_km"@, Tree::Float(q.depth_km@)),
        ("region"@, Tree::Text(q.region@)),
    ] =~= Seq::<(Seq<char>, Tree)>::empty().push(
        ("datetime"@, Tree::Text(q.datetime@)),
    ).push(
        ("date_local"@, Tree::Text(q.date_local@)),
    ).push(
        ("time_local"@, Tree::Text(q.time_local@)),
    ).push(
        ("latitude"@, Tree::Float(q.latitude@)),
    ).push(
        ("longitude"@, Tree::Float(q.longitude@)),
    ).push(
        ("magnitude"@, Tree::Float(q.magnitude@)),
    ).push(
        ("depth_km"@, Tree::Float(q.depth_km@)),
    ).push(
        ("region"@, Tree::Text(q.region@)),
    ));
}

/// The names of the fields, each told apart from the others.
proof fn a_location_is_answered_field_by_field_names()
    ensures
        "adm1"@.len() == 4,
        "adm2"@.len() == 4,
        "adm3"@.len() == 4,
        "adm4"@.len() == 4,
        "province"@.len() == 8,
        "city"@.len() == 4,
        "district"@.len() == 8,
        "village"@.len() == 7,
        "latitude"@.len() == 8,
        "longitude"@.len() == 9,
        "timezone"@.len() == 8,
        "adm1"@[3] == '1',
        "adm2"@[3] == '2',
        "adm3"@[3] == '3',
        "adm4"@[3] == '4',
        "city"@[3] == 'y',
        "province"@[0] == 'p',
        "district"@[0] == 'd',
        "latitude"@[0] == 'l',
        "timezone"@[0] == 't',
{
    reveal_strlit("adm1");
    reveal_strlit("adm2");
    reveal_strlit("adm3");
    reveal_strlit("adm4");
    reveal_strlit("province");
    reveal_strlit("city");
    reveal_strlit("district");
    reveal_strlit("village");
    reveal_strlit("latitude");
    reveal_strlit("longitude");
    reveal_strlit("timezone");
}

/// The JSON of a location has every field of the location under that field's name.
#[verifier::spinoff_prover]
#[verifier::rlimit(60)]
pub proof fn a_location_is_answered_field_by_field(l: Location)
    ensures
        says(l.tree(), "adm1"@, l.adm1),
        says(l.tree(), "adm2"@, l.adm2),
        says(l.tree(), "adm3"@, l.adm3),
        says(l.tree(), "adm4"@, l.adm4),
        says(l.tree(), "province"@, l.province),
        says(l.tree(), "city"@, l.city),
        says(l.tree(), "district"@, l.district),
        says(l.tree(), "village"@, l.village),
        gives(l.tree(), "latitude"@, l.latitude),
        gives(l.tree(), "longitude"@, l.longitude),
        says(l.tree(), "timezone"@, l.timezone),
{
    lookups();
    a_location_is_answered_field_by_field_names();
    assert(seq![
        ("adm1"@, Tree::Text(l.adm1@)),
        ("adm2"@, Tree::Text(l.adm2@)),
        ("adm3"@, Tree::Text(l.adm3@)),
        ("adm4"@, Tree::Text(l.adm4@)),
        ("province"@, Tree::Text(l.province@)),
        ("city"@, Tree::Text(l.city@)),
        ("district"@, Tree::Text(l.district@)),
        ("village"@, Tree::Text(l.village@)),
        ("latitude"@, Tree::Float(l.latitude@)),
        ("longitude"@, Tree::Float(l.longitude@)),
        ("timezone"@, Tree::Text(l.timezone@)),
    ] =~= Seq::<(Seq<char>, Tree)>::empty().push(
        ("adm1"@, Tree::Text(l.adm1@)),
    ).push(
        ("adm2"@, Tree::Text(l.adm2@)),
    ).push(
        ("adm3"@, Tree::Text(l.adm3@)),
    ).push(
        ("adm4"@, Tree::Text(l.adm4@)),
    ).push(
        ("province"@, Tree::Text(l.province@)),
    ).push(
        ("city"@, Tree::Text(l.city@)),
    ).push(
        ("district"@, Tree::Text(l.district@)),
    ).push(
        ("village"@, Tree::Text(l.village@)),
    ).push(
        ("latitude"@, Tree::Float(l.latitude@)),
    ).push(
        ("longitude"@, Tree::Float(l.longitude@)),
    ).push(
        ("timezone"@, Tree::Text(l.timezone@)),
    ));
}

/// The names of the fields, each told apart from the others.
proof fn a_slot_is_answered_field_by_field_names()
    ensures
        "datetime"@.len() == 8,
        "datetime_local"@.len() == 14,
        "day_index"@.len() == 9,
        "temperature_c"@.len() == 13,
        "humidity_percent"@.len() == 16,
        "cloud_cover_percent"@.len() == 19,
        "precipitation_mm"@.len() == 16,
        "wind_speed_kmh"@.len() == 14,
        "wind_from"@.len() == 9,
        "wind_to"@.len() == 7,
        "wind_degrees"@.len() == 12,
        "visibility_m"@.len() == 12,
        "visibility_text"@.len() == 15,
        "weather_code"@.len() == 12,
        "weather"@.len() == 7,
        "weather_id"@.len() == 10,
        "icon_url"@.len() == 8,
        "datetime"@[0] == 'd',
        "icon_url"@[0] == 'i',
        "datetime_local"@[0] == 'd',
        "wind_speed_kmh"@[0] == 'w',
        "day_index"@[0] == 'd',
        "wind_from"@[0] == 'w',
        "humidity_percent"@[0] == 'h',
        "precipitation_mm"@[0] == 'p',
        "wind_to"@[1] == 'i',
        "weather"@[1] == 'e',
        "wind_degrees"@[2] == 'n',
        "visibility_m"@[2] == 's',
        "weather_code"@[2] == 'a',
{
    reveal_strlit("datetime");
    reveal_strlit("datetime_local");
    reveal_strlit("day_index");
    reveal_strlit("temperature_c");
    reveal_strlit("humidity_percent");
    reveal_strlit("cloud_cover_percent");
    reveal_strlit("precipitation_mm");
    reveal_strlit("wind_speed_kmh");
    reveal_strlit("wind_from");
    reveal_strlit("wind_to");
    reveal_strlit("wind_degrees");
    reveal_strlit("visibility_m");
    reveal_strlit("visibility_text");
    reveal_strlit("weather_code");
    reveal_strlit("weather");
    reveal_strlit("weather_id");
    reveal_strlit("icon_url");
}

#[verifier::spinoff_prover]
#[verifier::rlimit(60)]
proof fn a_slot_is_answered_field_by_field_1(s: Slot)
    ensures
        says(s.tree(), "datetime"@, s.datetime),
        may_say(s.tree(), "datetime_local"@, s.datetime_local),
        s.tree().member("day_index"@) == Some(Tree::Unsigned(s.day_index as nat)),
        gives(s.tree(), "temperature_c"@, s.temperature_c),
{
    lookups();
    a_slot_is_answered_field_by_field_names();
}

#[verifier::spinoff_prover]
#[verifier::rlimit(60)]
proof fn a_slot_is_answered_field_by_field_2(s: Slot)
    ensures
        may_give(s.tree(), "humidity_percent"@, s.humidity_percent),
        may_give(s.tree(), "cloud_cover_percent"@, s.cloud_cover_percent),
        may_give(s.tree(), "precipitation_mm"@, s.precipitation_mm),
        may_give(s.tree(), "wind_speed_kmh"@, s.wind_speed_kmh),
{
    lookups();
    a_slot_is_answered_field_by_field_names();
}

#[verifier::spinoff_prover]
#[verifier::rlimit(60)]
proof fn a_slot_is_answered_field_by_field_3(s: Slot)
    ensures
        may_say(s.tree(), "wind_from"@, s.wind_from),
        may_say(s.tree(), "wind_to"@, s.wind_to),
        may_give(s.tree(), "wind_degrees"@, s.wind_degrees),
        may_give(s.tree(), "visibility_m"@, s.visibility_m),
{
    lookups();
    a_slot_is_answered_field_by_field_names();
}

#[verifier::spinoff_prover]
#[verifier::rlimit(60)]
proof fn a_slot_is_answered_field_by_field_4(s: Slot)
    ensures
        may_say(s.tree(), "visibility_text"@, s.visibility_text),
        may_count(s.tree(), "weather_code"@, s.weather_code),
        may_say(s.tree(), "weather"@, s.weather),
        may_say(s.tree(), "weather_id"@, s.weather_id),
{
    lookups();
    a_slot_is_answered_field_by_field_names();
}

#[verifier::spinoff_prover]
#[verifier::rlimit(60)]
proof fn a_slot_is_answered_field_by_field_5(s: Slot)
    ensures
        may_say(s.tree(), "icon_url"@, s.icon_url),
{
    lookups();
    a_slot_is_answered_field_by_field_names();
}

/// The JSON of a slot has every field of the slot under that field's name, and leaves out
/// exactly what BMKG did not send.
pub proof fn a_slot_is_answered_field_by_field(s: Slot)
    ensures
        says(s.tree(), "datetime"@, s.datetime),
        may_say(s.tree(), "datetime_local"@, s.datetime_local),
        s.tree().member("day_index"@) == Some(Tree::Unsigned(s.day_index as nat)),
        gives(s.tree(), "temperature_c"@, s.temperature_c),
        may_give(s.tree(), "humidity_percent"@, s.humidity_percent),
        may_give(s.tree(), "cloud_cover_percent"@, s.cloud_cover_percent),
        may_give(s.tree(), "precipitation_mm"@, s.precipitation_mm),
        may_give(s.tree(), "wind_speed_kmh"@, s.wind_speed_kmh),
        may_say(s.tree(), "wind_from"@, s.wind_from),
        may_say(s.tree(), "wind_to"@, s.wind_to),
        may_give(s.tree(), "wind_degrees"@, s.wind_degrees),
        may_give(s.tree(), "visibility_m"@, s.visibility_m),
        may_say(s.tree(), "visibility_text"@, s.visibility_text),
        may_count(s.tree(), "weather_code"@, s.weather_code),
        may_say(s.tree(), "weather"@, s.weather),
        may_say(s.tree(), "weather_id"@, s.weather_id),
        may_say(s.tree(), "icon_url"@, s.icon_url),
{
    a_slot_is_answered_field_by_field_1(s);
    a_slot_is_answered_field_by_field_2(s);
    a_slot_is_answered_field_by_field_3(s);
    a_slot_is_answered_field_by_field_4(s);
    a_slot_is_answered_field_by_field_5(s);
}

/// The names of the fields, each told apart from the others.
proof fn a_region_is_answered_field_by_field_names()
    ensures
        "code"@.len() == 4,
        "name"@.len() == 4,
        "level"@.len() == 5,
        "parent"@.len() == 6,
        "path"@.len() == 4,
        "code"@[0] == 'c',
        "name"@[0] == 'n',
        "path"@[0] == 'p',
{
    reveal_strlit("code");
    reveal_strlit("name");
    reveal_strlit("level");
    reveal_strlit("parent");
    reveal_strlit("path");
}

/// The JSON of a region has every field of the region under that field's name.
pub proof fn a_region_is_answered_field_by_field(r: Region)
    ensures
        says(r@.tree(), "code"@, r.code),
        says(r@.tree(), "name"@, r.name),
        r@.tree().member("level"@) == Some(Tree::Unsigned(r.level as nat)),
        may_say(r@.tree(), "parent"@, r.parent),
        may_say(r@.tree(), "path"@, r.path),
{
    lookups();
    a_region_is_answered_field_by_field_names();
    assert(seq![
        ("code"@, Tree::Text(r.code@)),
        ("name"@, Tree::Text(r.name@)),
        ("level"@, Tree::Unsigned(r.level as nat)),
    ] =~= Seq::<(Seq<char>, Tree)>::empty().push(
        ("code"@, Tree::Text(r.code@)),
    ).push(
        ("name"@, Tree::Text(r.name@)),
    ).push(
        ("level"@, Tree::Unsigned(r.level as nat)),
    ));
}

/// The names of the fields, each told apart from the others.
proof fn a_warning_is_answered_field_by_field_names()
    ensures
        "alert_code"@.len() == 10,
        "headline"@.len() == 8,
        "area"@.len() == 4,
        "description"@.len() == 11,
        "category"@.len() == 8,
        "published"@.len() == 9,
        "detail_url"@.len() == 10,
        "alert_code"@[0] == 'a',
        "detail_url"@[0] == 'd',
        "headline"@[0] == 'h',
        "category"@[0] == 'c',
{
    reveal_strlit("alert_code");
    reveal_strlit("headline");
    reveal_strlit("area");
    reveal_strlit("description");
    reveal_strlit("category");
    reveal_strlit("published");
    reveal_strlit("detail_url");
}

/// The JSON of a warning has every field of the warning under that field's name.
pub proof fn a_warning_is_answered_field_by_field(a: Alert)
    ensures
        says(a@.tree(), "alert_code"@, a.alert_code),
        says(a@.tree(), "headline"@, a.headline),
        may_say(a@.tree(), "area"@, a.area),
        says(a@.tree(), "description"@, a.description),
        may_say(a@.tree(), "category"@, a.category),
        may_say(a@.tree(), "published"@, a.published),
        says(a@.tree(), "detail_url"@, a.detail_url),
{
    lookups();
    a_warning_is_answered_field_by_field_names();
    assert(seq![
        ("alert_code"@, Tree::Text(a.alert_code@)),
        ("headline"@, Tree::Text(a.headline@)),
    ] =~= Seq::<(Seq<char>, Tree)>::empty().push(
        ("alert_code"@, Tree::Text(a.alert_code@)),
    ).push(
        ("headline"@, Tree::Text(a.headline@)),
    ));
}

/// The names of the fields, each told apart from the others.
proof fn a_detail_is_answered_field_by_field_names()
    ensures
        "alert_code"@.len() == 10,
        "identifier"@.len() == 10,
        "sender"@.len() == 6,
        "sent"@.len() == 4,
        "status"@.len() == 6,
        "message_type"@.len() == 12,
        "language"@.len() == 8,
        "category"@.len() == 8,
        "event"@.len() == 5,
        "urgency"@.len() == 7,
        "severity"@.len() == 8,
        "certainty"@.len() == 9,
        "effective"@.len() == 9,
        "expires"@.len() == 7,
        "headline"@.len() == 8,
        "description"@.len() == 11,
        "infographic_url"@.len() == 15,
        "areas"@.len() == 5,
        "alert_code"@[0] == 'a',
        "identifier"@[0] == 'i',
        "sender"@[1] == 'e',
        "status"@[1] == 't',
        "language"@[0] == 'l',
        "category"@[0] == 'c',
        "severity"@[0] == 's',
        "headline"@[0] == 'h',
        "event"@[0] == 'e',
        "areas"@[0] == 'a',
        "urgency"@[0] == 'u',
        "expires"@[0] == 'e',
        "certainty"@[0] == 'c',
        "effective"@[0] == 'e',
{
    reveal_strlit("alert_code");
    reveal_strlit("identifier");
    reveal_strlit("sender");
    reveal_strlit("sent");
    reveal_strlit("status");
    reveal_strlit("message_type");
    reveal_strlit("language");
    reveal_strlit("category");
    reveal_strlit("event");
    reveal_strlit("urgency");
    reveal_strlit("severity");
    reveal_strlit("certainty");
    reveal_strlit("effective");
    reveal_strlit("expires");
    reveal_strlit("headline");
    reveal_strlit("description");
    reveal_strlit("infographic_url");
    reveal_strlit("areas");
}

/// The JSON of a warning in full has every field of it under that field's name.
#[verifier::spinoff_prover]
#[verifier::rlimit(60)]
pub proof fn a_detail_is_answered_field_by_field(d: AlertDetail)
    ensures
        says(d@.tree(), "alert_code"@, d.alert_code),
        says(d@.tree(), "identifier"@, d.identifier),
        says(d@.tree(), "sender"@, d.sender),
        says(d@.tree(), "sent"@, d.sent),
        says(d@.tree(), "status"@, d.status),
        says(d@.tree(), "message_type"@, d.message_type),
        says(d@.tree(), "language"@, d.language),
        says(d@.tree(), "category"@, d.category),
        says(d@.tree(), "event"@, d.event),
        says(d@.tree(), "urgency"@, d.urgency),
        says(d@.tree(), "severity"@, d.severity),
        says(d@.tree(), "certainty"@, d.certainty),
        says(d@.tree(), "effective"@, d.effective),
        says(d@.tree(), "expires"@, d.expires),
        says(d@.tree(), "headline"@, d.headline),
        says(d@.tree(), "description"@, d.description),
        may_say(d@.tree(), "infographic_url"@, d.infographic_url),
{
    lookups();
    a_detail_is_answered_field_by_field_names();
    assert(seq![
        ("alert_code"@, Tree::Text(d.alert_code@)),
        ("identifier"@, Tree::Text(d.identifier@)),
        ("sender"@, Tree::Text(d.sender@)),
        ("sent"@, Tree::Text(d.sent@)),
        ("status"@, Tree::Text(d.status@)),
        ("message_type"@, Tree::Text(d.message_type@)),
        ("language"@, Tree::Text(d.language@)),
        ("category"@, Tree::Text(d.category@)),
        ("event"@, Tree::Text(d.event@)),
        ("urgency"@, Tree::Text(d.urgency@)),
        ("severity"@, Tree::Text(d.severity@)),
        ("certainty"@, Tree::Text(d.certainty@)),
        ("effective"@, Tree::Text(d.effective@)),
        ("expires"@, Tree::Text(d.expires@)),
        ("headline"@, Tree::Text(d.headline@)),
        ("description"@, Tree::Text(d.description@)),
    ] =~= Seq::<(Seq<char>, Tree)>::empty().push(
        ("alert_code"@, Tree::Text(d.alert_code@)),
    ).push(
        ("identifier"@, Tree::Text(d.identifier@)),
    ).push(
        ("sender"@, Tree::Text(d.sender@)),
    ).push(
        ("sent"@, Tree::Text(d.sent@)),
    ).push(
        ("status"@, Tree::Text(d.status@)),
    ).push(
        ("message_type"@, Tree::Text(d.message_type@)),
    ).push(
        ("language"@, Tree::Text(d.language@)),
    ).push(
        ("category"@, Tree::Text(d.category@)),
    ).push(
        ("event"@, Tree::Text(d.event@)),
    ).push(
        ("urgency"@, Tree::Text(d.urgency@)),
    ).push(
        ("severity"@, Tree::Text(d.severity@)),
    ).push(
        ("certainty"@, Tree::Text(d.certainty@)),
    ).push(
        ("effective"@, Tree::Text(d.effective@)),
    ).push(
        ("expires"@, Tree::Text(d.expires@)),
    ).push(
        ("headline"@, Tree::Text(d.headline@)),
    ).push(
        ("description"@, Tree::Text(d.description@)),
    ));
}

/// A list of values is answered with one item for each, in the same order.
pub proof fn lists_are_answered_item_by_item(
    quakes: Seq<Quake>,
    slots: Seq<Slot>,
    regions: Seq<Region>,
    alerts: Seq<Alert>,
)
    ensures
        quake_trees(quakes).len() == quakes.len(),
        slot_trees(slots).len() == slots.len(),
        region_trees(regions).len() == regions.len(),
        alert_trees(alerts).len() == alerts.len(),
        forall|i: int| 0 <= i < quakes.len() ==> #[trigger] quake_trees(quakes)[i] == quakes[i]@.tree(),
        forall|i: int| 0 <= i < slots.len() ==> #[trigger] slot_trees(slots)[i] == slots[i].tree(),
        forall|i: int|
            0 <= i < regions.len() ==> #[trigger] region_trees(regions)[i] == regions[i]@.tree(),
        forall|i: int| 0 <= i < alerts.len() ==> #[trigger] alert_trees(alerts)[i] == alerts[i]@.tree(),
{
}

/// A corner of an area is answered as `[longitude, latitude]`, corner for corner, beside the
/// area's description.
pub proof fn an_area_is_answered_corner_by_corner(a: Area)
    ensures
        says(a@.tree(), "description"@, a.description),
        a@.tree().member("polygon"@) matches Some(Tree::Array(corners)) && corners.len()
            == a.polygon@.len() && forall|i: int|
            0 <= i < corners.len() ==> (#[trigger] corners[i]) == Tree::Array(
                seq![Tree::Float(a.polygon@[i]@[0]@), Tree::Float(a.polygon@[i]@[1]@)],
            ),
{
    lookups();
    reveal_strlit("description");
    reveal_strlit("polygon");
    assert("description"@.len() == 11 && "polygon"@.len() == 7);
    assert(a@.tree()->Object_0 =~= Seq::<(Seq<char>, Tree)>::empty().push(
        ("description"@, Tree::Text(a.description@)),
    ).push(("polygon"@, crate::nowcast::polygon_tree(a@.polygon))));
}

/// A warning in full is answered with its areas, in their order.
#[verifier::spinoff_prover]
#[verifier::rlimit(60)]
pub proof fn a_detail_is_answered_with_its_areas(d: AlertDetail)
    ensures
        lists(d@.tree(), "areas"@, Seq::new(d.areas@.len(), |i: int| d.areas@[i]@.tree())),
{
    lookups();
    a_detail_is_answered_field_by_field_names();
    assert(seq![
        ("alert_code"@, Tree::Text(d.alert_code@)),
        ("identifier"@, Tree::Text(d.identifier@)),
        ("sender"@, Tree::Text(d.sender@)),
        ("sent"@, Tree::Text(d.sent@)),
        ("status"@, Tree::Text(d.status@)),
        ("message_type"@, Tree::Text(d.message_type@)),
        ("language"@, Tree::Text(d.language@)),
        ("category"@, Tree::Text(d.category@)),
        ("event"@, Tree::Text(d.event@)),
        ("urgency"@, Tree::Text(d.urgency@)),
        ("severity"@, Tree::Text(d.severity@)),
        ("certainty"@, Tree::Text(d.certainty@)),
        ("effective"@, Tree::Text(d.effective@)),
        ("expires"@, Tree::Text(d.expires@)),
        ("headline"@, Tree::Text(d.headline@)),
        ("description"@, Tree::Text(d.description@)),
    ] =~= Seq::<(Seq<char>, Tree)>::empty().push(
        ("alert_code"@, Tree::Text(d.alert_code@)),
    ).push(
        ("identifier"@, Tree::Text(d.identifier@)),
    ).push(
        ("sender"@, Tree::Text(d.sender@)),
    ).push(
        ("sent"@, Tree::Text(d.sent@)),
    ).push(
        ("status"@, Tree::Text(d.status@)),
    ).push(
        ("message_type"@, Tree::Text(d.message_type@)),
    ).push(
        ("language"@, Tree::Text(d.language@)),
    ).push(
        ("category"@, Tree::Text(d.category@)),
    ).push(
        ("event"@, Tree::Text(d.event@)),
    ).push(
        ("urgency"@, Tree::Text(d.urgency@)),
    ).push(
        ("severity"@, Tree::Text(d.severity@)),
    ).push(
        ("certainty"@, Tree::Text(d.certainty@)),
    ).push(
        ("effective"@, Tree::Text(d.effective@)),
    ).push(
        ("expires"@, Tree::Text(d.expires@)),
    ).push(
        ("headline"@, Tree::Text(d.headline@)),
    ).push(
        ("description"@, Tree::Text(d.description@)),
    ));
}

/// A forecast is answered with its location and all of its slots; what is happening now with
/// the location, the slot of now and the next ones; and a place found by name with what it
/// was taken for, what else it could have been, and the forecast.
pub proof fn weather_is_answered_part_by_part(f: Forecast, c: Current, r: Resolved)
    ensures
        f.tree().member("location"@) == Some(f.location.tree()),
        lists(f.tree(), "slots"@, Seq::new(f.slots@.len(), |i: int| f.slots@[i].tree())),
        c.tree().member("location"@) == Some(c.location.tree()),
        c.tree().member("now"@) == Some(c.now.tree()),
        lists(c.tree(), "next"@, Seq::new(c.next@.len(), |i: int| c.next@[i].tree())),
        r.tree().member("matched"@) == Some(r.matched@.tree()),
        lists(
            r.tree(),
            "alternatives"@,
            Seq::new(r.alternatives@.len(), |i: int| r.alternatives@[i]@.tree()),
        ),
        r.tree().member("forecast"@) == Some(r.forecast.tree()),
{
    lookups();
    reveal_strlit("location");
    reveal_strlit("slots");
    reveal_strlit("now");
    reveal_strlit("next");
    reveal_strlit("matched");
    reveal_strlit("alternatives");
    reveal_strlit("forecast");
    assert("location"@.len() == 8
        && "slots"@.len() == 5
        && "now"@.len() == 3
        && "next"@.len() == 4
        && "matched"@.len() == 7
        && "alternatives"@.len() == 12
        && "forecast"@.len() == 8
        && "location"@[0] == 'l'
        && "forecast"@[0] == 'f');
    assert(f.tree()->Object_0 =~= Seq::<(Seq<char>, Tree)>::empty().push(
        ("location"@, f.location.tree()),
    ).push(("slots"@, Tree::Array(slot_trees(f.slots@)))));
    assert(c.tree()->Object_0 =~= Seq::<(Seq<char>, Tree)>::empty().push(
        ("location"@, c.location.tree()),
    ).push(("now"@, c.now.tree())).push(("next"@, Tree::Array(slot_trees(c.next@)))));
    assert(r.tree()->Object_0 =~= Seq::<(Seq<char>, Tree)>::empty().push(
        ("matched"@, r.matched@.tree()),
    ).push(("alternatives"@, Tree::Array(region_trees(r.alternatives@)))).push(
        ("forecast"@, r.forecast.tree()),
    ));
}



} // verus!
