//! Earthquakes: what the feeds sent is what is told, once each, nearest first.

use vstd::prelude::*;
use crate::api::{ApiError, Failure};
use crate::earthquake::{
    all_quakes, area_fault, depth, distinct, feed_result, felt_address, has_time, is_nearest_first,
    latest_address, latest_result, listed, measured_views, no_event_is_dropped, position,
    quake_result, quake_views, quakes_result, raw_views, recent_address, Measured, Quake,
    QuakeView, Raw,
};
use crate::number::{float_has_no_gaps, is_float, tenths_text};
use crate::text::{
    a_part_is_contained, contains, decimal, decimal_reads_back, digit_value, digits_value,
    first_of, first_of_is_first, is_digit, is_word, join, joined_words_read_back, replace_all,
    split_once, trim, trim_of_tight, words,
};

verus! {

/// Both are the same text, or there is neither.
pub open spec fn same_or_neither(a: Option<String>, b: Option<String>) -> bool {
    match (a, b) {
        (Some(x), Some(y)) => x@ == y@,
        (None, None) => true,
        _ => false,
    }
}

/// The event tells what the feed sent of it: its time, place and wording as they were sent,
/// latitude before longitude, and the numbers that stand in the fields for them. Only a search
/// around a point sets a distance.
pub open spec fn is_event_of(q: Quake, raw: Raw) -> bool {
    &&& q.datetime@ == raw.datetime@
    &&& q.date_local@ == raw.tanggal@
    &&& q.time_local@ == raw.jam@
    &&& q.region@ == raw.wilayah@
    &&& split_once(raw.coordinates@, ',') matches Some((lat, lon)) && q.latitude@ == trim(lat)
        && q.longitude@ == trim(lon)
    &&& q.magnitude@ == trim(raw.magnitude@)
    &&& words(raw.kedalaman@).len() > 0 && q.depth_km@ == replace_all(
        words(raw.kedalaman@)[0],
        ","@,
        "."@,
    )
    &&& same_or_neither(q.tsunami_potential, raw.potensi)
    &&& same_or_neither(q.felt_intensity, raw.dirasakan)
    &&& match raw.shakemap {
        Some(name) => q.shakemap_url matches Some(url) && url@
            == "https://data.bmkg.go.id/DataMKG/TEWS/"@ + name@,
        None => q.shakemap_url is None,
    }
    &&& q.distance_km is None
}

/// An event that is read tells what was sent, and every number in it is one.
pub proof fn an_event_tells_what_was_sent(raw: Raw, q: Quake)
    requires
        quake_result(Ok(q)) == raw@.quake(),
    ensures
        is_event_of(q, raw),
        is_float(q.latitude@) && is_float(q.longitude@) && is_float(q.magnitude@) && is_float(
            q.depth_km@,
        ),
{
    assert(raw@.quake() == Ok::<QuakeView, Failure>(q@));
    reveal_strlit("https://data.bmkg.go.id/DataMKG/TEWS");
    reveal_strlit("https://data.bmkg.go.id/DataMKG/TEWS/");
    reveal_strlit("/");
    assert("https://data.bmkg.go.id/DataMKG/TEWS"@ + "/"@
        =~= "https://data.bmkg.go.id/DataMKG/TEWS/"@);
}

/// An event is read exactly when its coordinates are two numbers with a comma between them, its
/// magnitude is a number, and its depth starts with one; otherwise it is an `upstream_parse`
/// error.
pub proof fn an_event_is_read_when_its_numbers_are(raw: Raw)
    ensures
        raw@.quake() is Ok <==> {
            &&& split_once(raw.coordinates@, ',') matches Some((lat, lon)) && is_float(trim(lat))
                && is_float(trim(lon))
            &&& is_float(trim(raw.magnitude@))
            &&& words(raw.kedalaman@).len() > 0 && is_float(
                replace_all(words(raw.kedalaman@)[0], ","@, "."@),
            )
        },
        raw@.quake() matches Err(f) ==> f is UpstreamParse && f.status() == 502,
{
}

/// What stands before the comma is the latitude, what stands after it the longitude.
pub proof fn latitude_comes_before_longitude(lat: Seq<char>, lon: Seq<char>)
    requires
        is_float(lat),
        is_float(lon),
    ensures
        position(lat + seq![','] + lon) == Ok::<(Seq<char>, Seq<char>), Failure>((lat, lon)),
{
    float_has_no_gaps(lat);
    float_has_no_gaps(lon);
    let pair = lat + seq![','] + lon;
    first_of_is_first(pair, ',');
    let i = first_of(pair, ',');
    assert(pair[lat.len() as int] == ',');
    assert(i == lat.len()) by {
        if i < lat.len() {
            assert(pair[i] == lat[i]);
        }
    }
    assert(pair.take(i) =~= lat);
    assert(pair.skip(i + 1) =~= lon);
    trim_of_tight(lat);
    trim_of_tight(lon);
}

proof fn nothing_to_replace(s: Seq<char>, pat: char, with: Seq<char>)
    requires
        !s.contains(pat),
    ensures
        replace_all(s, seq![pat], with) == s,
    decreases s.len(),
{
    if s.len() > 0 {
        let t = s.skip(1);
        assert(s[0] != pat);
        assert(!crate::text::occurs_at(s, seq![pat], 0)) by {
            if crate::text::occurs_at(s, seq![pat], 0) {
                assert(s.subrange(0, 1)[0] == seq![pat][0]);
            }
        }
        assert(!t.contains(pat)) by {
            if t.contains(pat) {
                let i = choose|i: int| 0 <= i < t.len() && t[i] == pat;
                assert(s[i + 1] == pat);
            }
        }
        nothing_to_replace(t, pat, with);
        assert(seq![s[0]] + t =~= s);
    }
}

proof fn one_to_replace(a: Seq<char>, b: Seq<char>, pat: char, with: Seq<char>)
    requires
        !a.contains(pat),
        !b.contains(pat),
    ensures
        replace_all(a + seq![pat] + b, seq![pat], with) == a + with + b,
    decreases a.len(),
{
    let s = a + seq![pat] + b;
    if a.len() == 0 {
        assert(s.subrange(0, 1) =~= seq![pat]);
        assert(crate::text::occurs_at(s, seq![pat], 0));
        assert(s.skip(1) =~= b);
        nothing_to_replace(b, pat, with);
        assert(a + with + b =~= with + b);
    } else {
        let t = a.skip(1);
        assert(a.contains(a[0]));
        assert(!crate::text::occurs_at(s, seq![pat], 0)) by {
            if crate::text::occurs_at(s, seq![pat], 0) {
                assert(s.subrange(0, 1)[0] == seq![pat][0]);
                assert(s[0] == a[0]);
            }
        }
        assert(!t.contains(pat)) by {
            if t.contains(pat) {
                let i = choose|i: int| 0 <= i < t.len() && t[i] == pat;
                assert(a[i + 1] == pat);
            }
        }
        assert(s.skip(1) =~= t + seq![pat] + b);
        one_to_replace(t, b, pat, with);
        assert(seq![s[0]] + (t + with + b) =~= a + with + b);
    }
}

/// The depth is the number in front of its unit, whatever word the unit is.
pub proof fn a_depth_is_the_number_before_its_unit(n: Seq<char>, unit: Seq<char>)
    requires
        is_float(n),
        is_word(unit),
    ensures
        depth(n + " "@ + unit) == Ok::<Seq<char>, Failure>(n),
{
    reveal_strlit(",");
    assert(","@ =~= seq![',']);
    float_has_no_gaps(n);
    let ws = seq![n, unit];
    assert(is_word(n));
    joined_words_read_back(ws);
    reveal_with_fuel(join, 3);
    assert(ws.drop_last() =~= seq![n]);
    assert(join(ws, " "@) =~= n + " "@ + unit);
    assert(!n.contains(','));
    nothing_to_replace(n, ',', "."@);
}

/// A decimal comma in a depth counts as a point.
pub proof fn a_decimal_comma_is_a_point(a: Seq<char>, b: Seq<char>, unit: Seq<char>)
    requires
        is_float(a + "."@ + b),
        is_word(unit),
    ensures
        depth(a + ","@ + b + " "@ + unit) == Ok::<Seq<char>, Failure>(a + "."@ + b),
{
    reveal_strlit(",");
    reveal_strlit(".");
    assert(","@ =~= seq![',']);
    let n = a + "."@ + b;
    let w = a + ","@ + b;
    float_has_no_gaps(n);
    assert forall|i: int| 0 <= i < w.len() implies !crate::text::is_white(#[trigger] w[i]) by {
        if i != a.len() {
            assert(n[i] == w[i]);
        }
    }
    assert(is_word(w));
    let ws = seq![w, unit];
    joined_words_read_back(ws);
    reveal_with_fuel(join, 3);
    assert(ws.drop_last() =~= seq![w]);
    assert(join(ws, " "@) =~= a + ","@ + b + " "@ + unit);
    assert(!a.contains(',')) by {
        if a.contains(',') {
            let i = choose|i: int| 0 <= i < a.len() && a[i] == ',';
            assert(n[i] == ',');
        }
    }
    assert(!b.contains(',')) by {
        if b.contains(',') {
            let i = choose|i: int| 0 <= i < b.len() && b[i] == ',';
            assert(n[a.len() + 1 + i] == ',');
        }
    }
    one_to_replace(a, b, ',', "."@);
}

// ------------------------------------------------------------------ feeds

/// Each feed is read at its own address.
pub proof fn each_feed_has_its_address()
    ensures
        latest_address() == "https://data.bmkg.go.id/DataMKG/TEWS/autogempa.json"@,
        recent_address() == "https://data.bmkg.go.id/DataMKG/TEWS/gempaterkini.json"@,
        felt_address() == "https://data.bmkg.go.id/DataMKG/TEWS/gempadirasakan.json"@,
{
    reveal_strlit("https://data.bmkg.go.id/DataMKG/TEWS");
    reveal_strlit("/autogempa.json");
    reveal_strlit("/gempaterkini.json");
    reveal_strlit("/gempadirasakan.json");
    reveal_strlit("https://data.bmkg.go.id/DataMKG/TEWS/autogempa.json");
    reveal_strlit("https://data.bmkg.go.id/DataMKG/TEWS/gempaterkini.json");
    reveal_strlit("https://data.bmkg.go.id/DataMKG/TEWS/gempadirasakan.json");
    assert(latest_address() =~= "https://data.bmkg.go.id/DataMKG/TEWS/autogempa.json"@);
    assert(recent_address() =~= "https://data.bmkg.go.id/DataMKG/TEWS/gempaterkini.json"@);
    assert(felt_address() =~= "https://data.bmkg.go.id/DataMKG/TEWS/gempadirasakan.json"@);
}

/// The latest event is the one that was sent.
pub proof fn the_latest_event_is_the_one_sent(raw: Raw, q: Quake)
    requires
        quake_result(Ok(q)) == latest_result(Ok(raw)),
    ensures
        is_event_of(q, raw),
{
    assert(raw@.quake() == Ok::<QuakeView, Failure>(q@));
    an_event_tells_what_was_sent(raw, q);
}

/// A feed is told event by event, in the order in which it was sent.
pub proof fn a_feed_is_told_event_by_event(url: Seq<char>, raws: Vec<Raw>, quakes: Vec<Quake>)
    requires
        quakes_result(Ok(quakes)) == feed_result(url, Ok(raws)),
    ensures
        quakes@.len() == raws@.len(),
        forall|i: int| 0 <= i < raws@.len() ==> is_event_of(#[trigger] quakes@[i], raws@[i]),
{
    let all = raw_views(raws@);
    no_event_is_dropped(all);
    assert(all_quakes(all) == Ok::<Seq<QuakeView>, Failure>(quake_views(quakes@)));
    assert(quake_views(quakes@).len() == quakes@.len());
    assert forall|i: int| 0 <= i < raws@.len() implies is_event_of(
        #[trigger] quakes@[i],
        raws@[i],
    ) by {
        assert(all[i] == raws@[i]@);
        assert(quake_views(quakes@)[i] == quakes@[i]@);
        an_event_tells_what_was_sent(raws@[i], quakes@[i]);
    }
}

/// A feed that could not be fetched is reported with the failure to fetch it.
pub proof fn a_failed_fetch_is_reported_as_it_is(url: Seq<char>, e: ApiError)
    ensures
        latest_result(Err(e)) == Err::<QuakeView, Failure>(e@),
        feed_result(url, Err(e)) == Err::<Seq<QuakeView>, Failure>(e@),
{
}

/// Merging feeds keeps the order of the events and, of those with the same timestamp, the
/// first: `at` gives the place of each of the merged events in the feeds.
pub proof fn merging_keeps_the_order(s: Seq<QuakeView>) -> (at: Seq<int>)
    ensures
        at.len() == distinct(s).len(),
        forall|k: int|
            0 <= k < at.len() ==> 0 <= #[trigger] at[k] < s.len() && distinct(s)[k] == s[at[k]],
        forall|j: int, k: int| 0 <= j < k < at.len() ==> #[trigger] at[j] < #[trigger] at[k],
        forall|i: int| 0 <= i < s.len() ==> has_time(distinct(s), (#[trigger] s[i]).datetime),
        forall|j: int, k: int|
            0 <= j < k < at.len() ==> s[#[trigger] at[j]].datetime != s[#[trigger] at[k]].datetime,
    decreases s.len(),
{
    crate::earthquake::each_event_is_seen_once(s);
    if s.len() == 0 {
        Seq::empty()
    } else {
        let rest = s.drop_last();
        let before = merging_keeps_the_order(rest);
        let at = if has_time(distinct(rest), s.last().datetime) {
            before
        } else {
            before.push(s.len() - 1)
        };
        assert forall|k: int| 0 <= k < at.len() implies 0 <= #[trigger] at[k] < s.len() && distinct(
            s,
        )[k] == s[at[k]] by {
            if k < before.len() {
                assert(at[k] == before[k]);
                assert(distinct(s)[k] == distinct(rest)[k]);
                assert(rest[before[k]] == s[before[k]]);
            }
        }
        assert forall|j: int, k: int| 0 <= j < k < at.len() implies #[trigger] at[j]
            < #[trigger] at[k] by {
            assert(at[j] == before[j]);
            if k < before.len() {
                assert(at[k] == before[k]);
            }
        }
        assert forall|j: int, k: int| 0 <= j < k < at.len() implies s[#[trigger] at[j]].datetime
            != s[#[trigger] at[k]].datetime by {
            assert(distinct(s)[j] == s[at[j]] && distinct(s)[k] == s[at[k]]);
        }
        at
    }
}

// ------------------------------------------------------------------ around a point

/// The same event, whatever distance is told of it.
pub open spec fn is_same_event(a: Quake, b: Quake) -> bool {
    &&& a.datetime@ == b.datetime@
    &&& a.date_local@ == b.date_local@
    &&& a.time_local@ == b.time_local@
    &&& a.latitude@ == b.latitude@
    &&& a.longitude@ == b.longitude@
    &&& a.magnitude@ == b.magnitude@
    &&& a.depth_km@ == b.depth_km@
    &&& a.region@ == b.region@
    &&& same_or_neither(a.tsunami_potential, b.tsunami_potential)
    &&& same_or_neither(a.felt_intensity, b.felt_intensity)
    &&& same_or_neither(a.shakemap_url, b.shakemap_url)
}

/// A search around a point lists every event within the radius once and no other, each with
/// its distance, nearest first, and of several as near the one that was listed first.
/// `order` gives the place of each of them among all events.
pub proof fn what_is_near_is_told_nearest_first(all: Seq<Measured>, r: Seq<Quake>) -> (order: Seq<
    int,
>)
    requires
        exists|order: Seq<int>| #[trigger]
            is_nearest_first(measured_views(all), order) && quake_views(r) == listed(
                measured_views(all),
                order,
            ),
    ensures
        order.len() == r.len(),
        forall|k: int|
            0 <= k < r.len() ==> 0 <= #[trigger] order[k] < all.len() && is_same_event(
                r[k],
                all[order[k]].quake,
            ),
        forall|k: int|
            0 <= k < r.len() ==> (all[#[trigger] order[k]].tenths matches Some(t) && (
            r[k].distance_km matches Some(d) && d@ == tenths_text(t as nat))),
        forall|i: int| 0 <= i < all.len() && (#[trigger] all[i]).tenths is Some ==> order.contains(i),
        forall|j: int, k: int|
            0 <= j < k < r.len() ==> all[#[trigger] order[j]].tenths->0 < all[#[trigger] order[k]].tenths->0
                || (all[order[j]].tenths->0 == all[order[k]].tenths->0 && order[j] < order[k]),
{
    let s = measured_views(all);
    let order = choose|order: Seq<int>| #[trigger]
        is_nearest_first(s, order) && quake_views(r) == listed(s, order);
    assert(quake_views(r).len() == r.len());
    assert(listed(s, order).len() == order.len());
    assert forall|k: int| 0 <= k < r.len() implies 0 <= #[trigger] order[k] < all.len()
        && is_same_event(r[k], all[order[k]].quake) by {
        assert(quake_views(r)[k] == r[k]@);
        assert(listed(s, order)[k] == s[order[k]].placed());
        assert(s[order[k]] == all[order[k]]@);
    }
    assert forall|k: int| 0 <= k < r.len() implies (all[#[trigger] order[k]].tenths matches Some(t)
        && (r[k].distance_km matches Some(d) && d@ == tenths_text(t as nat))) by {
        assert(quake_views(r)[k] == r[k]@);
        assert(listed(s, order)[k] == s[order[k]].placed());
        assert(s[order[k]] == all[order[k]]@);
    }
    assert forall|i: int| 0 <= i < all.len() && (#[trigger] all[i]).tenths is Some implies order.contains(
        i,
    ) by {
        assert(s[i] == all[i]@);
    }
    assert forall|j: int, k: int| 0 <= j < k < r.len() implies all[#[trigger] order[j]].tenths->0
        < all[#[trigger] order[k]].tenths->0 || (all[order[j]].tenths->0
        == all[order[k]].tenths->0 && order[j] < order[k]) by {
        assert(s[order[j]] == all[order[j]]@);
        assert(s[order[k]] == all[order[k]]@);
    }
    order
}

/// A distance is told in kilometres with one digit after the point: the digits before the
/// point and the one after it make up the tenths.
pub proof fn a_distance_has_one_decimal(tenths: nat)
    ensures
        ({
            let s = tenths_text(tenths);
            let p = s.len() - 2;
            &&& p > 0
            &&& s[p] == '.'
            &&& is_digit(s[p + 1])
            &&& crate::text::is_digit_run(s.take(p))
            &&& digits_value(s.take(p)) * 10 + digit_value(s[p + 1]) == tenths
        }),
{
    reveal_strlit(".");
    let a = decimal(tenths / 10);
    let b = decimal(tenths % 10);
    let s = tenths_text(tenths);
    decimal_reads_back(tenths / 10);
    decimal_reads_back(tenths % 10);
    assert(b.len() == 1);
    assert(s.take(s.len() - 2) =~= a);
    assert(s[s.len() - 1] == b[0]);
    reveal_with_fuel(digits_value, 2);
    assert(b.drop_last() =~= Seq::empty());
    assert(b.last() == b[0]);
}

/// A point off the globe and a radius that is none are bad requests that tell what was given,
/// the point first; everything else is looked for.
pub proof fn only_a_place_and_a_radius_are_looked_for(
    lat: Seq<char>,
    lon: Seq<char>,
    radius_km: Seq<char>,
    point_in_range: bool,
    radius_in_range: bool,
)
    ensures
        ({
            let fault = area_fault(lat, lon, radius_km, point_in_range, radius_in_range);
            &&& fault is None <==> point_in_range && radius_in_range
            &&& !point_in_range ==> (fault matches Some(Failure::BadRequest(m)) && contains(
                m,
                lat + ","@ + lon,
            ))
            &&& point_in_range && !radius_in_range ==> (fault matches Some(Failure::BadRequest(m))
                && contains(m, radius_km))
        }),
{
    let head = "lat must be -90..90 and lon -180..180; got "@;
    assert(head + lat + ","@ + lon =~= head + (lat + ","@ + lon));
    a_part_is_contained(head, lat + ","@ + lon, Seq::empty());
    a_part_is_contained("radius_km must be between 0 and 20000; got "@, radius_km, Seq::empty());
}

} // verus!
