//! Forecasts: what BMKG sent is what is listed, and the slot of now is told by the clock.

use vstd::prelude::*;
use crate::api::{ApiError, ApiResult, Failure};
use crate::text::{a_part_is_contained, contains, split};
use crate::timeutil::instant_ms;
use crate::weather::{
    at_least_as_early, at_least_as_late, covers, flat, forecast_outcome, has_started, is_readable,
    resolved_outcome, slot_start, village_fault, CurrentView, ForecastView, Location, RawLocation,
    RawResponse, RawSlot, ResolvedView, Slot,
};
use crate::wilayah::{is_region_code, RegionView};

verus! {

// ------------------------------------------------------------------ what is listed

/// The slot has each measurement of what was sent, under the name it goes by here.
pub open spec fn is_slot_of(s: Slot, raw: RawSlot, day: int) -> bool {
    &&& s.datetime@ == raw.datetime@
    &&& s.datetime_local == raw.local_datetime
    &&& s.day_index == day
    &&& s.temperature_c == raw.t
    &&& s.humidity_percent == raw.hu
    &&& s.cloud_cover_percent == raw.tcc
    &&& s.precipitation_mm == raw.tp
    &&& s.wind_speed_kmh == raw.ws
    &&& s.wind_from == raw.wd
    &&& s.wind_to == raw.wd_to
    &&& s.wind_degrees == raw.wd_deg
    &&& s.visibility_m == raw.vs
    &&& s.visibility_text == raw.vs_text
    &&& s.weather_code == raw.weather
    &&& s.weather == raw.weather_desc_en
    &&& s.weather_id == raw.weather_desc
    &&& s.icon_url == raw.image
}

/// The location has each part of what was sent, under the name it goes by here.
pub open spec fn is_location_of(l: Location, raw: RawLocation) -> bool {
    &&& l.adm1 == raw.adm1
    &&& l.adm2 == raw.adm2
    &&& l.adm3 == raw.adm3
    &&& l.adm4 == raw.adm4
    &&& l.province == raw.provinsi
    &&& l.city == raw.kotkab
    &&& l.district == raw.kecamatan
    &&& l.village == raw.desa
    &&& l.latitude == raw.lat
    &&& l.longitude == raw.lon
    &&& l.timezone == raw.timezone
}

/// How many slots the days have between them.
pub open spec fn slot_count(days: Seq<Vec<RawSlot>>) -> nat
    decreases days.len(),
{
    if days.len() == 0 {
        0
    } else {
        slot_count(days.drop_last()) + days.last()@.len()
    }
}

/// A slot keeps every measurement it was sent with: the wind's speed is `ws` and its direction
/// `wd_deg`, the temperature is `t`, and so on for each of them.
pub proof fn a_slot_keeps_what_was_sent(raw: RawSlot, day: usize)
    ensures
        is_slot_of(raw.slot(day), raw, day as int),
{
}

/// A location keeps every part it was sent with.
pub proof fn a_location_keeps_what_was_sent(raw: RawLocation)
    ensures
        is_location_of(raw.location(), raw),
{
}

proof fn slots_are_counted(days: Seq<Vec<RawSlot>>)
    ensures
        flat(days).len() == slot_count(days),
    decreases days.len(),
{
    if days.len() > 0 {
        slots_are_counted(days.drop_last());
    }
}

/// A forecast lists each slot that was sent, in the place that the slots before it leave it:
/// those of the days before, and those before it on its own day. It lists nothing else.
pub proof fn a_forecast_lists_what_was_sent(adm4: Seq<char>, raw: RawResponse, d: int, i: int)
    requires
        raw.data@.len() > 0,
        0 <= d < raw.data@[0].cuaca@.len() <= usize::MAX,
        0 <= i < raw.data@[0].cuaca@[d]@.len(),
        village_fault(adm4) is None,
    ensures
        ({
            let days = raw.data@[0].cuaca@;
            forecast_outcome(adm4, Ok(raw)) matches Ok(f) && is_location_of(f.location, raw.lokasi)
                && f.slots.len() == slot_count(days) && slot_count(days.take(d)) + i < f.slots.len()
                && is_slot_of(f.slots[slot_count(days.take(d)) + i], days[d]@[i], d)
        }),
{
    let days = raw.data@[0].cuaca@;
    crate::weather::every_slot_is_listed(days, d, i);
    slots_are_counted(days);
    slots_are_counted(days.take(d));
}

/// A forecast is given exactly when the code is a village's, BMKG answered, and the first
/// block of its answer has a slot on some day.
pub proof fn a_forecast_is_given_when_there_is_one(adm4: Seq<char>, answer: ApiResult<RawResponse>)
    ensures
        forecast_outcome(adm4, answer) is Ok <==> is_region_code(adm4) && split(adm4, '.').len()
            == 4 && (answer matches Ok(raw) && raw.data@.len() > 0 && slot_count(
            raw.data@[0].cuaca@,
        ) > 0),
{
    if let Ok(raw) = answer {
        if raw.data@.len() > 0 {
            slots_are_counted(raw.data@[0].cuaca@);
        }
    }
}

/// Only a village has a forecast: any other code is a bad request, before anything is asked
/// of BMKG and whatever BMKG would say.
pub proof fn only_a_village_has_a_forecast(
    adm4: Seq<char>,
    a: ApiResult<RawResponse>,
    b: ApiResult<RawResponse>,
)
    requires
        !is_region_code(adm4) || split(adm4, '.').len() != 4,
    ensures
        forecast_outcome(adm4, a) matches Err(f) && f is BadRequest && f.status() == 400,
        forecast_outcome(adm4, a) == forecast_outcome(adm4, b),
{
}

/// A village that BMKG does not monitor is reported by its code; any other failure to fetch
/// is reported as it came.
pub proof fn an_unmonitored_village_is_named(adm4: Seq<char>, e: ApiError)
    requires
        village_fault(adm4) is None,
    ensures
        e is UpstreamNotFound ==> (forecast_outcome(adm4, Err(e)) matches Err(
            Failure::UpstreamNotFound(m),
        ) && contains(m, adm4)),
        !(e is UpstreamNotFound) ==> forecast_outcome(adm4, Err(e)) == Err::<ForecastView, Failure>(
            e@,
        ),
{
    a_part_is_contained(
        "BMKG has no forecast for "@,
        adm4,
        ". The code may be valid but unmonitored; try a neighbouring village from /v1/wilayah/villages"@,
    );
}

/// A forecast without a block or without slots is an `upstream_parse` error that names the
/// village.
pub proof fn a_forecast_without_slots_is_unreadable(adm4: Seq<char>, raw: RawResponse)
    requires
        village_fault(adm4) is None,
        raw.data@.len() > 0 ==> slot_count(raw.data@[0].cuaca@) == 0,
    ensures
        forecast_outcome(adm4, Ok(raw)) matches Err(Failure::UpstreamParse(m)) && contains(m, adm4),
{
    let m = if raw.data@.len() == 0 {
        "BMKG returned no forecast block for "@
    } else {
        "BMKG returned an empty forecast for "@
    };
    if raw.data@.len() > 0 {
        slots_are_counted(raw.data@[0].cuaca@);
    }
    assert(forecast_outcome(adm4, Ok(raw)) == Err::<ForecastView, Failure>(
        Failure::UpstreamParse(m + adm4),
    ));
    assert(contains(m + adm4, adm4)) by {
        a_part_is_contained(m, adm4, Seq::empty());
    }
}

// ------------------------------------------------------------------ what is happening now

/// A slot starts at the instant that its `datetime` names, and only that field tells: the
/// local time beside it is for a reader.
pub proof fn a_slot_starts_at_its_datetime(a: Slot, b: Slot)
    ensures
        slot_start(a) == instant_ms(a.datetime@),
        a.datetime@ == b.datetime@ ==> slot_start(a) == slot_start(b),
{
}

/// The same slots with other local times, other weather or other days have the same slot of
/// now: nothing but their `datetime` counts.
pub proof fn only_datetimes_tell_which_slot_covers_now(
    a: Seq<Slot>,
    b: Seq<Slot>,
    k: int,
    now_ms: int,
)
    requires
        a.len() == b.len(),
        forall|i: int| 0 <= i < a.len() ==> (#[trigger] a[i]).datetime@ == b[i].datetime@,
    ensures
        covers(a, k, now_ms) <==> covers(b, k, now_ms),
{
    assert forall|i: int| 0 <= i < a.len() implies slot_start(#[trigger] a[i]) == slot_start(
        b[i],
    ) by {
        assert(a[i].datetime@ == b[i].datetime@);
    }
    assert forall|i: int| 0 <= i < b.len() implies slot_start(#[trigger] b[i]) == slot_start(
        a[i],
    ) by {
        assert(slot_start(a[i]) == slot_start(b[i]));
    }
    if covers(a, k, now_ms) {
        covers_alike(a, b, k, now_ms);
    }
    if covers(b, k, now_ms) {
        covers_alike(b, a, k, now_ms);
    }
}

proof fn covers_alike(a: Seq<Slot>, b: Seq<Slot>, k: int, now_ms: int)
    requires
        a.len() == b.len(),
        forall|i: int| 0 <= i < a.len() ==> slot_start(#[trigger] a[i]) == slot_start(b[i]),
        covers(a, k, now_ms),
    ensures
        covers(b, k, now_ms),
{
    assert forall|i: int| #[trigger] is_readable(b, i) implies is_readable(a, i) && slot_start(a[i])
        == slot_start(b[i]) by {
        assert(slot_start(a[i]) == slot_start(b[i]));
    }
    assert forall|i: int| #[trigger] is_readable(a, i) implies is_readable(b, i) by {
        assert(slot_start(a[i]) == slot_start(b[i]));
    }
    assert forall|i: int| #[trigger] has_started(b, i, now_ms) implies has_started(
        a,
        i,
        now_ms,
    ) by {
        assert(is_readable(b, i));
    }
    assert forall|i: int| #[trigger] has_started(a, i, now_ms) implies has_started(
        b,
        i,
        now_ms,
    ) by {
        assert(is_readable(a, i));
    }
    assert(slot_start(a[k]) == slot_start(b[k]));
    if exists|i: int| #[trigger] has_started(a, i, now_ms) {
        let i = choose|i: int| #[trigger] has_started(a, i, now_ms);
        assert(has_started(b, i, now_ms));
        assert forall|j: int| #[trigger] has_started(b, j, now_ms) implies at_least_as_late(
            b,
            k,
            j,
        ) by {
            assert(has_started(a, j, now_ms));
            assert(is_readable(b, j));
        }
    } else if forall|i: int| 0 <= i < a.len() ==> #[trigger] is_readable(a, i) {
        assert forall|i: int| 0 <= i < b.len() implies #[trigger] is_readable(b, i) by {
            assert(is_readable(a, i));
        }
        assert forall|j: int| #[trigger] is_readable(b, j) implies at_least_as_early(b, k, j) by {
            assert(is_readable(a, j));
        }
    } else {
        let i = choose|i: int| 0 <= i < a.len() && !(#[trigger] is_readable(a, i));
        assert(!is_readable(b, i));
    }
}

/// The `k`th slot is the one for now: the latest of those whose `datetime` is past, or the
/// earliest where all of them lie ahead, and the first listed of several such. Where none is
/// past and some `datetime` cannot be read, it is the first slot.
pub open spec fn is_slot_of_now(slots: Seq<Slot>, k: int, now_ms: int) -> bool {
    &&& 0 <= k < slots.len()
    &&& forall|j: int|
        0 <= j < slots.len() ==> ((#[trigger] instant_ms(slots[j].datetime@)) matches Some(t) ==> (t
            <= now_ms ==> (instant_ms(slots[k].datetime@) matches Some(s) && t <= s <= now_ms && (t
            == s ==> k <= j))))
    &&& (forall|j: int|
        0 <= j < slots.len() ==> (#[trigger] instant_ms(slots[j].datetime@) matches Some(t) && t
            > now_ms)) ==> forall|j: int|
        0 <= j < slots.len() ==> instant_ms(slots[k].datetime@)->0 < (#[trigger] instant_ms(
            slots[j].datetime@,
        ))->0 || (instant_ms(slots[k].datetime@) == instant_ms(slots[j].datetime@) && k <= j)
    &&& (exists|j: int|
        0 <= j < slots.len() && #[trigger] instant_ms(slots[j].datetime@) is None) && (forall|j: int|
        0 <= j < slots.len() ==> !(#[trigger] instant_ms(slots[j].datetime@) matches Some(t) && t
            <= now_ms)) ==> k == 0
}

/// What is said of now is the slot of now, told by the `datetime` of the slots, and the up to
/// three slots that are listed after it, of the same place.
pub proof fn now_is_told_by_datetimes(f: ForecastView, c: CurrentView, now_ms: int) -> (k: int)
    requires
        f.is_current(c, now_ms),
    ensures
        is_slot_of_now(f.slots, k, now_ms),
        c.location == f.location,
        c.now == f.slots[k],
        c.next.len() <= 3,
        c.next.len() == 3 || k + 1 + c.next.len() == f.slots.len(),
        forall|i: int| 0 <= i < c.next.len() ==> #[trigger] c.next[i] == f.slots[k + 1 + i],
{
    let slots = f.slots;
    let k = choose|k: int| #[trigger]
        covers(slots, k, now_ms) && c == (CurrentView {
            location: f.location,
            now: slots[k],
            next: crate::weather::next_three(slots, k),
        });
    assert forall|j: int| 0 <= j < slots.len() implies ((#[trigger] instant_ms(
        slots[j].datetime@,
    )) matches Some(t) ==> (t <= now_ms ==> (instant_ms(slots[k].datetime@) matches Some(s) && t
        <= s <= now_ms && (t == s ==> k <= j)))) by {
        assert(is_readable(slots, j) ==> has_started(slots, j, now_ms) || slot_start(slots[j])->0
            > now_ms);
    }
    if forall|j: int|
        0 <= j < slots.len() ==> (#[trigger] instant_ms(slots[j].datetime@) matches Some(t) && t
            > now_ms) {
        assert forall|j: int| !(#[trigger] has_started(slots, j, now_ms)) by {
            if 0 <= j < slots.len() {
                assert(instant_ms(slots[j].datetime@) is Some);
            }
        }
        assert forall|j: int| 0 <= j < slots.len() implies #[trigger] is_readable(slots, j) by {
            assert(instant_ms(slots[j].datetime@) is Some);
        }
        assert forall|j: int| 0 <= j < slots.len() implies instant_ms(slots[k].datetime@)->0 < (
        #[trigger] instant_ms(slots[j].datetime@))->0 || (instant_ms(slots[k].datetime@)
            == instant_ms(slots[j].datetime@) && k <= j) by {
            assert(is_readable(slots, j));
            assert(is_readable(slots, k));
        }
    }
    if (exists|j: int|
        0 <= j < slots.len() && #[trigger] instant_ms(slots[j].datetime@) is None) && (forall|j: int|
        0 <= j < slots.len() ==> !(#[trigger] instant_ms(slots[j].datetime@) matches Some(t) && t
            <= now_ms)) {
        assert forall|j: int| !(#[trigger] has_started(slots, j, now_ms)) by {
            if 0 <= j < slots.len() {
                assert(!(instant_ms(slots[j].datetime@) matches Some(t) && t <= now_ms));
            }
        }
        let j = choose|j: int|
            0 <= j < slots.len() && #[trigger] instant_ms(slots[j].datetime@) is None;
        assert(!is_readable(slots, j));
    }
    k
}

// ------------------------------------------------------------------ a place by name

/// A place by name is its best hit: that hit is what was matched, the other hits are the
/// alternatives in their order, and the forecast is that of the hit's own code. Without a hit
/// there is no answer.
pub proof fn a_name_is_its_best_hit(
    q: Seq<char>,
    hits: Seq<RegionView>,
    answer: ApiResult<RawResponse>,
)
    ensures
        hits.len() == 0 ==> (resolved_outcome(q, Ok(hits), answer) matches Err(f) && f is NotFound),
        hits.len() > 0 ==> match forecast_outcome(hits[0].code, answer) {
            Ok(f) => resolved_outcome(q, Ok(hits), answer) matches Ok(r) && r.forecast == f
                && r.matched == hits[0] && r.alternatives.len() == hits.len() - 1 && (forall|i: int|
                0 <= i < r.alternatives.len() ==> #[trigger] r.alternatives[i] == hits[i + 1]),
            Err(f) => resolved_outcome(q, Ok(hits), answer) == Err::<ResolvedView, Failure>(f),
        },
{
}

} // verus!
