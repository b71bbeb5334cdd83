//! Weather forecasts.
//!
//! BMKG keys forecasts by `adm4`, the Kemendagri village code, and nests the payload
//! three deep: `data[0].cuaca` is an array of days, each an array of ~3-hourly slots.
//! We flatten that once, here, so no caller has to.

use vstd::prelude::*;
use vstd::std_specs::convert::FromSpecImpl;
use crate::api::{ApiError, ApiResult, Failure};
use crate::json::{opt_float, opt_signed, opt_tree, optional, trees, Json, Tree};
use crate::number::{opt_number, Number};
use crate::text::{debug_form, debug_text, opt, split, split_text};
use crate::timeutil::{instant_ms, iso_to_epoch_ms};
use crate::wilayah::{
    is_region_code, not_a_code, region_trees, region_views, regions_json, rows_result, search_result,
    validate_code, Query, Region, RegionView,
};

verus! {

const BASE: &'static str = "https://api.bmkg.go.id/publik/prakiraan-cuaca";

pub const TTL: u32 = 600;

// ------------------------------------------------------------------ upstream shape

#[derive(Debug, PartialEq, Eq)]
pub struct RawResponse {
    pub lokasi: RawLocation,
    pub data: Vec<RawData>,
}

/// The days of one location, each with its slots.
#[derive(Debug, PartialEq, Eq)]
pub struct RawData {
    pub cuaca: Vec<Vec<RawSlot>>,
}

#[derive(Debug, PartialEq, Eq)]
pub struct RawLocation {
    pub adm1: String,
    pub adm2: String,
    pub adm3: String,
    pub adm4: String,
    pub provinsi: String,
    pub kotkab: String,
    pub kecamatan: String,
    pub desa: String,
    pub lon: Number,
    pub lat: Number,
    pub timezone: String,
}

#[derive(Debug, PartialEq, Eq)]
pub struct RawSlot {
    pub datetime: String,
    pub local_datetime: Option<String>,
    pub t: Number,
    pub tcc: Option<Number>,
    pub tp: Option<Number>,
    pub weather: Option<i64>,
    pub weather_desc: Option<String>,
    pub weather_desc_en: Option<String>,
    pub wd_deg: Option<Number>,
    pub wd: Option<String>,
    pub wd_to: Option<String>,
    pub ws: Option<Number>,
    pub hu: Option<Number>,
    pub vs: Option<Number>,
    pub vs_text: Option<String>,
    pub image: Option<String>,
}

// ------------------------------------------------------------------ our shape

#[derive(Debug, PartialEq, Eq)]
pub struct Location {
    pub adm1: String,
    pub adm2: String,
    pub adm3: String,
    pub adm4: String,
    pub province: String,
    pub city: String,
    pub district: String,
    pub village: String,
    pub latitude: Number,
    pub longitude: Number,
    pub timezone: String,
}

#[derive(Debug, PartialEq, Eq)]
pub struct Slot {
    /// UTC, ISO 8601.
    pub datetime: String,
    /// The same instant in the location's own timezone, as BMKG prints it.
    pub datetime_local: Option<String>,
    /// 0 = today, 1 = tomorrow, 2 = the day after: BMKG publishes three.
    pub day_index: usize,
    pub temperature_c: Number,
    pub humidity_percent: Option<Number>,
    pub cloud_cover_percent: Option<Number>,
    pub precipitation_mm: Option<Number>,
    pub wind_speed_kmh: Option<Number>,
    pub wind_from: Option<String>,
    pub wind_to: Option<String>,
    pub wind_degrees: Option<Number>,
    pub visibility_m: Option<Number>,
    pub visibility_text: Option<String>,
    pub weather_code: Option<i64>,
    pub weather: Option<String>,
    pub weather_id: Option<String>,
    pub icon_url: Option<String>,
}

#[derive(Debug, PartialEq, Eq)]
pub struct Forecast {
    pub location: Location,
    pub slots: Vec<Slot>,
}

#[derive(Debug, PartialEq, Eq)]
pub struct Current {
    pub location: Location,
    /// The slot covering right now, or the next one if BMKG's window has moved on.
    pub now: Slot,
    /// The following slots, so a caller can say "and later today".
    pub next: Vec<Slot>,
}

#[derive(Debug, PartialEq, Eq)]
pub struct Resolved {
    /// Which region the free-text query was understood as.
    pub matched: Region,
    /// Other regions that matched, so a caller can tell a wrong guess from a right one.
    pub alternatives: Vec<Region>,
    pub forecast: Forecast,
}

impl RawLocation {
    pub open spec fn location(self) -> Location {
        Location {
            adm1: self.adm1,
            adm2: self.adm2,
            adm3: self.adm3,
            adm4: self.adm4,
            province: self.provinsi,
            city: self.kotkab,
            district: self.kecamatan,
            village: self.desa,
            latitude: self.lat,
            longitude: self.lon,
            timezone: self.timezone,
        }
    }
}

impl From<RawLocation> for Location {
    fn from(l: RawLocation) -> (r: Location) {
        Location {
            adm1: l.adm1,
            adm2: l.adm2,
            adm3: l.adm3,
            adm4: l.adm4,
            province: l.provinsi,
            city: l.kotkab,
            district: l.kecamatan,
            village: l.desa,
            latitude: l.lat,
            longitude: l.lon,
            timezone: l.timezone,
        }
    }
}

impl FromSpecImpl<RawLocation> for Location {
    open spec fn obeys_from_spec() -> bool {
        true
    }

    open spec fn from_spec(l: RawLocation) -> Location {
        l.location()
    }
}

impl RawSlot {
    pub open spec fn slot(self, day_index: usize) -> Slot {
        Slot {
            datetime: self.datetime,
            datetime_local: self.local_datetime,
            day_index,
            temperature_c: self.t,
            humidity_percent: self.hu,
            cloud_cover_percent: self.tcc,
            precipitation_mm: self.tp,
            wind_speed_kmh: self.ws,
            wind_from: self.wd,
            wind_to: self.wd_to,
            wind_degrees: self.wd_deg,
            visibility_m: self.vs,
            visibility_text: self.vs_text,
            weather_code: self.weather,
            weather: self.weather_desc_en,
            weather_id: self.weather_desc,
            icon_url: self.image,
        }
    }

    pub fn parse(self, day_index: usize) -> (r: Slot)
        ensures
            r == self.slot(day_index),
    {
        Slot {
            datetime: self.datetime,
            datetime_local: self.local_datetime,
            day_index,
            temperature_c: self.t,
            humidity_percent: self.hu,
            cloud_cover_percent: self.tcc,
            precipitation_mm: self.tp,
            wind_speed_kmh: self.ws,
            wind_from: self.wd,
            wind_to: self.wd_to,
            wind_degrees: self.wd_deg,
            visibility_m: self.vs,
            visibility_text: self.vs_text,
            weather_code: self.weather,
            weather: self.weather_desc_en,
            weather_id: self.weather_desc,
            icon_url: self.image,
        }
    }
}

// ------------------------------------------------------------------ forecast

/// What keeps a code from being looked up, if anything does.
pub open spec fn village_fault(adm4: Seq<char>) -> Option<Failure> {
    if !is_region_code(adm4) {
        Some(not_a_code(adm4))
    } else if split(adm4, '.').len() != 4 {
        Some(
            Failure::BadRequest(
                "weather needs a level-4 village code like 31.74.04.1006, got "@ + debug_form(adm4),
            ),
        )
    } else {
        None
    }
}

fn check_village(adm4: &str) -> (r: ApiResult<()>)
    ensures
        match village_fault(adm4@) {
            Some(f) => r matches Err(e) && e@ == f,
            None => r is Ok,
        },
{
    match validate_code(adm4) {
        Err(e) => Err(e),
        Ok(_) => {
            let segments = split_text(adm4, '.');
            assert(segments@.len() == split(adm4@, '.').len());
            if segments.len() != 4 {
                let mut m = "weather needs a level-4 village code like 31.74.04.1006, got ".to_owned();
                m.append(debug_text(adm4).as_str());
                Err(ApiError::BadRequest(m))
            } else {
                Ok(())
            }
        },
    }
}

/// Where a village's forecast is to be fetched.
pub fn forecast_url(adm4: &str) -> (r: ApiResult<String>)
    ensures
        match village_fault(adm4@) {
            Some(f) => r matches Err(e) && e@ == f,
            None => r matches Ok(s) && s@ == "https://api.bmkg.go.id/publik/prakiraan-cuaca"@
                + "?adm4="@ + adm4@,
        },
{
    match check_village(adm4) {
        Err(e) => Err(e),
        Ok(_) => {
            let mut url = BASE.to_owned();
            url.append("?adm4=");
            url.append(adm4);
            Ok(url)
        },
    }
}

/// The slots of one day.
pub open spec fn day_slots(day: Seq<RawSlot>, day_index: usize) -> Seq<Slot> {
    day.map_values(|s: RawSlot| s.slot(day_index))
}

/// The slots of all days, day after day.
pub open spec fn flat(days: Seq<Vec<RawSlot>>) -> Seq<Slot>
    decreases days.len(),
{
    if days.len() == 0 {
        Seq::empty()
    } else {
        flat(days.drop_last()) + day_slots(days.last()@, (days.len() - 1) as usize)
    }
}

fn flatten(days: Vec<Vec<RawSlot>>) -> (r: Vec<Slot>)
    ensures
        r@ == flat(days@),
{
    let mut slots: Vec<Slot> = Vec::new();
    let ghost all = days@;
    let mut day_index: usize = 0;
    let count: usize = days.len();
    assert(all.take(0) =~= Seq::empty());
    for day in it: days
        invariant
            it.seq() == all,
            day_index == it.index(),
            count == all.len(),
            slots@ == flat(all.take(it.index())),
    {
        let ghost base = slots@;
        let ghost today = day@;
        assert(all.take(day_index + 1).drop_last() =~= all.take(day_index as int));
        assert(base + day_slots(today, day_index).take(0) =~= base);
        for s in inner: day
            invariant
                inner.seq() == today,
                slots@ == base + day_slots(today, day_index).take(inner.index()),
        {
            let ghost before = slots@;
            let ghost n = inner.index();
            slots.push(s.parse(day_index));
            assert(slots@ =~= before.push(day_slots(today, day_index)[n]));
            assert(slots@ =~= base + day_slots(today, day_index).take(n + 1));
        }
        assert(day_slots(today, day_index).take(today.len() as int) =~= day_slots(
            today,
            day_index,
        ));
        assert(slots@ =~= flat(all.take(day_index + 1)));
        day_index += 1;
    }
    assert(all.take(all.len() as int) =~= all);
    slots
}

/// BMKG answers 404 for a village it does not monitor, so make the echo useful.
pub open spec fn unmonitored(adm4: Seq<char>, f: Failure) -> Failure {
    if f is UpstreamNotFound {
        Failure::UpstreamNotFound(
            "BMKG has no forecast for "@ + adm4
                + ". The code may be valid but unmonitored; try a neighbouring village from /v1/wilayah/villages"@,
        )
    } else {
        f
    }
}

pub ghost struct ForecastView {
    pub location: Location,
    pub slots: Seq<Slot>,
}

impl View for Forecast {
    type V = ForecastView;

    open spec fn view(&self) -> ForecastView {
        ForecastView { location: self.location, slots: self.slots@ }
    }
}

/// What a forecast request comes to, given what fetching the forecast came to.
pub open spec fn forecast_outcome(adm4: Seq<char>, answer: ApiResult<RawResponse>) -> Result<
    ForecastView,
    Failure,
> {
    match village_fault(adm4) {
        Some(f) => Err(f),
        None => match answer {
            Err(e) => Err(unmonitored(adm4, e@)),
            Ok(raw) => if raw.data@.len() == 0 {
                Err(Failure::UpstreamParse("BMKG returned no forecast block for "@ + adm4))
            } else if flat(raw.data@[0].cuaca@).len() == 0 {
                Err(Failure::UpstreamParse("BMKG returned an empty forecast for "@ + adm4))
            } else {
                Ok(
                    ForecastView {
                        location: raw.lokasi.location(),
                        slots: flat(raw.data@[0].cuaca@),
                    },
                )
            },
        },
    }
}

pub open spec fn forecast_result(r: ApiResult<Forecast>) -> Result<ForecastView, Failure> {
    match r {
        Ok(f) => Ok(f@),
        Err(e) => Err(e@),
    }
}

/// A village's forecast, from what fetching it came to.
pub fn forecast(adm4: &str, answer: ApiResult<RawResponse>) -> (r: ApiResult<Forecast>)
    ensures
        forecast_result(r) == forecast_outcome(adm4@, answer),
        r matches Ok(f) ==> f.slots@.len() > 0,
{
    match check_village(adm4) {
        Err(e) => {
            return Err(e);
        },
        Ok(_) => {},
    }
    let raw = match answer {
        Ok(raw) => raw,
        Err(ApiError::UpstreamNotFound(_)) => {
            let mut m = "BMKG has no forecast for ".to_owned();
            m.append(adm4);
            m.append(
                ". The code may be valid but unmonitored; try a neighbouring village from /v1/wilayah/villages",
            );
            return Err(ApiError::UpstreamNotFound(m));
        },
        Err(other) => {
            return Err(other);
        },
    };
    if raw.data.len() == 0 {
        let mut m = "BMKG returned no forecast block for ".to_owned();
        m.append(adm4);
        return Err(ApiError::UpstreamParse(m));
    }
    let mut data = raw.data;
    let first = data.swap_remove(0);
    let slots = flatten(first.cuaca);
    if slots.len() == 0 {
        let mut m = "BMKG returned an empty forecast for ".to_owned();
        m.append(adm4);
        return Err(ApiError::UpstreamParse(m));
    }
    Ok(Forecast { location: Location::from(raw.lokasi), slots })
}

// ------------------------------------------------------------------ current

/// When a slot starts, if its timestamp can be read.
pub open spec fn slot_start(s: Slot) -> Option<int> {
    instant_ms(s.datetime@)
}

pub open spec fn is_readable(slots: Seq<Slot>, i: int) -> bool {
    0 <= i < slots.len() && slot_start(slots[i]) is Some
}

pub open spec fn has_started(slots: Seq<Slot>, i: int, now_ms: int) -> bool {
    is_readable(slots, i) && slot_start(slots[i])->0 <= now_ms
}

/// `k` starts later than `j`, or at the same instant and is listed no later.
pub open spec fn at_least_as_late(slots: Seq<Slot>, k: int, j: int) -> bool {
    slot_start(slots[j])->0 < slot_start(slots[k])->0 || (slot_start(slots[j])->0 == slot_start(
        slots[k],
    )->0 && k <= j)
}

/// `k` starts earlier than `j`, or at the same instant and is listed no later.
pub open spec fn at_least_as_early(slots: Seq<Slot>, k: int, j: int) -> bool {
    slot_start(slots[k])->0 < slot_start(slots[j])->0 || (slot_start(slots[j])->0 == slot_start(
        slots[k],
    )->0 && k <= j)
}

/// `k` is the slot covering now: the latest slot that has already started. If every slot is
/// in the future (BMKG republished and dropped the past ones), the earliest. If none has
/// started and some timestamp cannot be read, the first.
pub open spec fn covers(slots: Seq<Slot>, k: int, now_ms: int) -> bool {
    &&& 0 <= k < slots.len()
    &&& if exists|i: int| #[trigger] has_started(slots, i, now_ms) {
        has_started(slots, k, now_ms) && forall|j: int| #[trigger]
            has_started(slots, j, now_ms) ==> at_least_as_late(slots, k, j)
    } else if forall|i: int| 0 <= i < slots.len() ==> #[trigger] is_readable(slots, i) {
        forall|j: int| #[trigger] is_readable(slots, j) ==> at_least_as_early(slots, k, j)
    } else {
        k == 0
    }
}

/// The position of the slot covering now.
pub fn covering(slots: &Vec<Slot>, now_ms: i64) -> (k: usize)
    requires
        slots@.len() > 0,
    ensures
        covers(slots@, k as int, now_ms as int),
{
    let mut latest: Option<(usize, i64)> = None;
    let mut earliest: Option<(usize, i64)> = None;
    let mut readable = true;
    let mut i: usize = 0;
    while i < slots.len()
        invariant
            i <= slots@.len(),
            match latest {
                Some((k, ms)) => {
                    &&& k < i
                    &&& has_started(slots@, k as int, now_ms as int)
                    &&& slot_start(slots@[k as int]) == Some(ms as int)
                    &&& forall|j: int|
                        j < i && #[trigger] has_started(slots@, j, now_ms as int)
                            ==> at_least_as_late(slots@, k as int, j)
                },
                None => forall|j: int| j < i ==> !#[trigger] has_started(slots@, j, now_ms as int),
            },
            match earliest {
                Some((k, ms)) => {
                    &&& k < i
                    &&& is_readable(slots@, k as int)
                    &&& slot_start(slots@[k as int]) == Some(ms as int)
                    &&& forall|j: int|
                        j < i && #[trigger] is_readable(slots@, j) ==> at_least_as_early(
                            slots@,
                            k as int,
                            j,
                        )
                },
                None => forall|j: int| j < i ==> !#[trigger] is_readable(slots@, j),
            },
            readable <==> forall|j: int| 0 <= j < i ==> #[trigger] is_readable(slots@, j),
        decreases slots@.len() - i,
    {
        match iso_to_epoch_ms(slots[i].datetime.as_str()) {
            Some(ms) => {
                let later = match latest {
                    Some((_, best)) => ms > best,
                    None => true,
                };
                if ms <= now_ms && later {
                    latest = Some((i, ms));
                }
                let sooner = match earliest {
                    Some((_, best)) => ms < best,
                    None => true,
                };
                if sooner {
                    earliest = Some((i, ms));
                }
                assert(is_readable(slots@, i as int));
            },
            None => {
                readable = false;
                assert(!is_readable(slots@, i as int));
            },
        }
        i += 1;
    }
    match (latest, earliest) {
        (Some((k, _)), _) => k,
        (None, Some((k, _))) => {
            if readable {
                k
            } else {
                0
            }
        },
        (None, None) => {
            assert(!is_readable(slots@, 0));
            0
        },
    }
}

pub ghost struct CurrentView {
    pub location: Location,
    pub now: Slot,
    pub next: Seq<Slot>,
}

impl View for Current {
    type V = CurrentView;

    open spec fn view(&self) -> CurrentView {
        CurrentView { location: self.location, now: self.now, next: self.next@ }
    }
}

/// The slots after position `k`, at most three.
pub open spec fn next_three(slots: Seq<Slot>, k: int) -> Seq<Slot> {
    slots.subrange(
        k + 1,
        if k + 4 <= slots.len() {
            k + 4
        } else {
            slots.len() as int
        },
    )
}

impl ForecastView {
    /// `c` is what this forecast says of now.
    pub open spec fn is_current(self, c: CurrentView, now_ms: int) -> bool {
        exists|k: int| #[trigger]
            covers(self.slots, k, now_ms) && c == (CurrentView {
                location: self.location,
                now: self.slots[k],
                next: next_three(self.slots, k),
            })
    }
}

/// The slot covering now, plus the next three.
pub fn current_of(f: Forecast, now_ms: i64) -> (r: Current)
    requires
        f.slots@.len() > 0,
    ensures
        f@.is_current(r@, now_ms as int),
{
    let chosen = covering(&f.slots, now_ms);
    let ghost all = f.slots@;
    let count: usize = f.slots.len();
    let end: usize = if count - chosen > 4 {
        chosen + 4
    } else {
        count
    };
    let mut now: Option<Slot> = None;
    let mut next: Vec<Slot> = Vec::new();
    let mut i: usize = 0;
    assert(next@ =~= Seq::empty());
    for s in it: f.slots
        invariant
            it.seq() == all,
            i == it.index(),
            count == all.len(),
            chosen < end <= count,
            i <= chosen ==> now is None && next@ == Seq::<Slot>::empty(),
            i > chosen ==> now == Some(all[chosen as int]) && next@ == all.subrange(
                chosen + 1,
                if i < end {
                    i as int
                } else {
                    end as int
                },
            ),
    {
        let ghost before = next@;
        if i == chosen {
            now = Some(s);
            assert(next@ =~= all.subrange(chosen + 1, chosen + 1));
        } else if i > chosen && i < end {
            next.push(s);
            assert(next@ =~= all.subrange(chosen + 1, i + 1));
        }
        i += 1;
    }
    let r = Current { location: f.location, now: now.unwrap(), next };
    assert(r@.next =~= next_three(all, chosen as int));
    assert(covers(all, chosen as int, now_ms as int));
    r
}

/// What is happening now in a village, from what fetching its forecast came to.
pub fn current(adm4: &str, answer: ApiResult<RawResponse>, now_ms: i64) -> (r: ApiResult<Current>)
    ensures
        match forecast_outcome(adm4@, answer) {
            Ok(f) => r matches Ok(c) && f.is_current(c@, now_ms as int),
            Err(f) => r matches Err(e) && e@ == f,
        },
{
    match forecast(adm4, answer) {
        Ok(f) => Ok(current_of(f, now_ms)),
        Err(e) => Err(e),
    }
}

// ------------------------------------------------------------------ search

pub ghost struct ResolvedView {
    pub matched: RegionView,
    pub alternatives: Seq<RegionView>,
    pub forecast: ForecastView,
}

impl View for Resolved {
    type V = ResolvedView;

    open spec fn view(&self) -> ResolvedView {
        ResolvedView {
            matched: self.matched@,
            alternatives: region_views(self.alternatives@),
            forecast: self.forecast@,
        }
    }
}

/// The search for the villages that a query could mean.
pub fn village_query(q: &str) -> (r: ApiResult<Query>)
    ensures
        match crate::wilayah::search_fault(q@, Some(4u8)) {
            Some(f) => r matches Err(e) && e@ == f,
            None => r matches Ok(x) && x@ == crate::wilayah::search_statement(
                crate::wilayah::normal_form(q@),
                8,
                Some(4u8),
            ),
        },
{
    crate::wilayah::search_query(q, 8, Some(4u8))
}

/// The villages that a query could mean, best match first.
pub fn village_hits(q: &str, rows: ApiResult<Vec<Region>>, found: ApiResult<Vec<Region>>) -> (r:
    ApiResult<Vec<Region>>)
    ensures
        rows_result(r) == search_result(q@, Some(4u8), rows_result(rows), rows_result(found)),
{
    crate::wilayah::search(q, 8, Some(4u8), rows, found)
}

pub open spec fn no_village(q: Seq<char>) -> Failure {
    Failure::NotFound("no village matched "@ + debug_form(q))
}

fn none_matched(q: &str) -> (r: ApiError)
    ensures
        r@ == no_village(q@),
{
    let mut m = "no village matched ".to_owned();
    m.append(debug_text(q).as_str());
    ApiError::NotFound(m)
}

/// The code whose forecast is to be fetched: that of the best hit.
pub fn best_village(q: &str, hits: &Vec<Region>) -> (r: ApiResult<String>)
    ensures
        if hits@.len() == 0 {
            r matches Err(e) && e@ == no_village(q@)
        } else {
            r matches Ok(code) && code@ == hits@[0].code@
        },
{
    if hits.len() == 0 {
        Err(none_matched(q))
    } else {
        Ok(hits[0].code.clone())
    }
}

/// What a free-text request comes to, given the hits and what fetching the best hit's
/// forecast came to.
pub open spec fn resolved_outcome(
    q: Seq<char>,
    hits: Result<Seq<RegionView>, Failure>,
    answer: ApiResult<RawResponse>,
) -> Result<ResolvedView, Failure> {
    match hits {
        Err(f) => Err(f),
        Ok(hits) => if hits.len() == 0 {
            Err(no_village(q))
        } else {
            match forecast_outcome(hits[0].code, answer) {
                Err(f) => Err(f),
                Ok(forecast) => Ok(
                    ResolvedView { matched: hits[0], alternatives: hits.skip(1), forecast },
                ),
            }
        },
    }
}

pub open spec fn resolved_result(r: ApiResult<Resolved>) -> Result<ResolvedView, Failure> {
    match r {
        Ok(x) => Ok(x@),
        Err(e) => Err(e@),
    }
}

/// Free text in, weather out.
///
/// The two-step "search for a code, then fetch the forecast" dance costs an LLM a
/// whole turn every time, so this collapses it, and reports what it matched, plus
/// what else it could have matched, so a wrong guess is visible rather than silent.
pub fn search(q: &str, hits: ApiResult<Vec<Region>>, answer: ApiResult<RawResponse>) -> (r: ApiResult<
    Resolved,
>)
    ensures
        resolved_result(r) == resolved_outcome(q@, rows_result(hits), answer),
{
    let hits = match hits {
        Ok(hits) => hits,
        Err(e) => {
            return Err(e);
        },
    };
    if hits.len() == 0 {
        return Err(none_matched(q));
    }
    let ghost all = region_views(hits@);
    let mut alternatives = hits;
    let matched = alternatives.remove(0);
    assert(all[0] == matched@);
    assert(region_views(alternatives@) =~= all.skip(1));
    match forecast(matched.code.as_str(), answer) {
        Ok(forecast) => Ok(Resolved { matched, alternatives, forecast }),
        Err(e) => Err(e),
    }
}

// ------------------------------------------------------------------ as responses

impl Location {
    pub open spec fn tree(self) -> Tree {
        Tree::Object(
            seq![
                ("adm1"@, Tree::Text(self.adm1@)),
                ("adm2"@, Tree::Text(self.adm2@)),
                ("adm3"@, Tree::Text(self.adm3@)),
                ("adm4"@, Tree::Text(self.adm4@)),
                ("province"@, Tree::Text(self.province@)),
                ("city"@, Tree::Text(self.city@)),
                ("district"@, Tree::Text(self.district@)),
                ("village"@, Tree::Text(self.village@)),
                ("latitude"@, Tree::Float(self.latitude@)),
                ("longitude"@, Tree::Float(self.longitude@)),
                ("timezone"@, Tree::Text(self.timezone@)),
            ],
        )
    }

    pub fn to_json(&self) -> (r: Json)
        ensures
            r@ == self.tree(),
    {
        let r = Json::object().with("adm1", Json::text(self.adm1.as_str())).with(
            "adm2",
            Json::text(self.adm2.as_str()),
        ).with("adm3", Json::text(self.adm3.as_str())).with(
            "adm4",
            Json::text(self.adm4.as_str()),
        ).with("province", Json::text(self.province.as_str())).with(
            "city",
            Json::text(self.city.as_str()),
        ).with("district", Json::text(self.district.as_str())).with(
            "village",
            Json::text(self.village.as_str()),
        ).with("latitude", Json::float(&self.latitude)).with(
            "longitude",
            Json::float(&self.longitude),
        ).with("timezone", Json::text(self.timezone.as_str()));
        assert(r@->Object_0 =~= self.tree()->Object_0);
        r
    }
}

impl Slot {
    pub open spec fn tree(self) -> Tree {
        Tree::Object(
            (seq![("datetime"@, Tree::Text(self.datetime@))] + optional(
                "datetime_local"@,
                opt_tree(opt(self.datetime_local)),
            )).push(("day_index"@, Tree::Unsigned(self.day_index as nat))).push(
                ("temperature_c"@, Tree::Float(self.temperature_c@)),
            ) + optional("humidity_percent"@, opt_float(opt_number(self.humidity_percent)))
                + optional("cloud_cover_percent"@, opt_float(opt_number(self.cloud_cover_percent)))
                + optional("precipitation_mm"@, opt_float(opt_number(self.precipitation_mm)))
                + optional("wind_speed_kmh"@, opt_float(opt_number(self.wind_speed_kmh)))
                + optional("wind_from"@, opt_tree(opt(self.wind_from))) + optional(
                "wind_to"@,
                opt_tree(opt(self.wind_to)),
            ) + optional("wind_degrees"@, opt_float(opt_number(self.wind_degrees))) + optional(
                "visibility_m"@,
                opt_float(opt_number(self.visibility_m)),
            ) + optional("visibility_text"@, opt_tree(opt(self.visibility_text))) + optional(
                "weather_code"@,
                opt_signed(self.weather_code),
            ) + optional("weather"@, opt_tree(opt(self.weather))) + optional(
                "weather_id"@,
                opt_tree(opt(self.weather_id)),
            ) + optional("icon_url"@, opt_tree(opt(self.icon_url))),
        )
    }

    pub fn to_json(&self) -> (r: Json)
        ensures
            r@ == self.tree(),
    {
        let first = Json::object().with("datetime", Json::text(self.datetime.as_str()));
        assert(first@->Object_0 =~= seq![("datetime"@, Tree::Text(self.datetime@))]);
        first.with_text("datetime_local", &self.datetime_local).with(
            "day_index",
            Json::unsigned(self.day_index as u64),
        ).with("temperature_c", Json::float(&self.temperature_c)).with_float(
            "humidity_percent",
            &self.humidity_percent,
        ).with_float("cloud_cover_percent", &self.cloud_cover_percent).with_float(
            "precipitation_mm",
            &self.precipitation_mm,
        ).with_float("wind_speed_kmh", &self.wind_speed_kmh).with_text(
            "wind_from",
            &self.wind_from,
        ).with_text("wind_to", &self.wind_to).with_float("wind_degrees", &self.wind_degrees).with_float(
            "visibility_m",
            &self.visibility_m,
        ).with_text("visibility_text", &self.visibility_text).with_signed(
            "weather_code",
            &self.weather_code,
        ).with_text("weather", &self.weather).with_text("weather_id", &self.weather_id).with_text(
            "icon_url",
            &self.icon_url,
        )
    }
}

pub open spec fn slot_trees(v: Seq<Slot>) -> Seq<Tree> {
    v.map_values(|s: Slot| s.tree())
}

pub fn slots_json(slots: &Vec<Slot>) -> (r: Json)
    ensures
        r@ == Tree::Array(slot_trees(slots@)),
{
    let mut items: Vec<Json> = Vec::new();
    let mut i: usize = 0;
    assert(trees(items@) =~= slot_trees(slots@).take(0));
    while i < slots.len()
        invariant
            i <= slots@.len(),
            trees(items@) == slot_trees(slots@).take(i as int),
        decreases slots@.len() - i,
    {
        let ghost before = trees(items@);
        items.push(slots[i].to_json());
        assert(trees(items@) =~= before.push(slot_trees(slots@)[i as int]));
        i += 1;
        assert(trees(items@) =~= slot_trees(slots@).take(i as int));
    }
    assert(slot_trees(slots@).take(i as int) =~= slot_trees(slots@));
    Json::array(items)
}

impl Forecast {
    pub open spec fn tree(self) -> Tree {
        Tree::Object(
            seq![
                ("location"@, self.location.tree()),
                ("slots"@, Tree::Array(slot_trees(self.slots@))),
            ],
        )
    }

    pub fn to_json(&self) -> (r: Json)
        ensures
            r@ == self.tree(),
    {
        let r = Json::object().with("location", self.location.to_json()).with(
            "slots",
            slots_json(&self.slots),
        );
        assert(r@->Object_0 =~= self.tree()->Object_0);
        r
    }
}

impl Current {
    pub open spec fn tree(self) -> Tree {
        Tree::Object(
            seq![
                ("location"@, self.location.tree()),
                ("now"@, self.now.tree()),
                ("next"@, Tree::Array(slot_trees(self.next@))),
            ],
        )
    }

    pub fn to_json(&self) -> (r: Json)
        ensures
            r@ == self.tree(),
    {
        let r = Json::object().with("location", self.location.to_json()).with(
            "now",
            self.now.to_json(),
        ).with("next", slots_json(&self.next));
        assert(r@->Object_0 =~= self.tree()->Object_0);
        r
    }
}

impl Resolved {
    pub open spec fn tree(self) -> Tree {
        Tree::Object(
            seq![
                ("matched"@, self.matched@.tree()),
                ("alternatives"@, Tree::Array(region_trees(self.alternatives@))),
                ("forecast"@, self.forecast.tree()),
            ],
        )
    }

    pub fn to_json(&self) -> (r: Json)
        ensures
            r@ == self.tree(),
    {
        let r = Json::object().with("matched", self.matched.to_json()).with(
            "alternatives",
            regions_json(&self.alternatives),
        ).with("forecast", self.forecast.to_json());
        assert(r@->Object_0 =~= self.tree()->Object_0);
        r
    }
}

// ------------------------------------------------------------------ laws

/// A malformed code never becomes an upstream request: what is looked up is four segments of
/// digits and dots.
pub proof fn only_village_codes_are_looked_up(adm4: Seq<char>)
    requires
        village_fault(adm4) is None,
    ensures
        split(adm4, '.').len() == 4,
        forall|i: int|
            0 <= i < adm4.len() ==> crate::wilayah::is_code_char(#[trigger] adm4[i]),
{
}

/// There is one slot covering now, whatever the order in which BMKG lists them.
pub proof fn one_slot_covers_now(slots: Seq<Slot>, a: int, b: int, now_ms: int)
    requires
        covers(slots, a, now_ms),
        covers(slots, b, now_ms),
    ensures
        a == b,
{
    if forall|i: int| 0 <= i < slots.len() ==> #[trigger] is_readable(slots, i) {
        assert(is_readable(slots, a) && is_readable(slots, b));
    }
}

/// Once some slot has started, the slot given for now is one that has started, and none that
/// has started starts later.
pub proof fn nothing_started_later(slots: Seq<Slot>, k: int, j: int, now_ms: int)
    requires
        covers(slots, k, now_ms),
        has_started(slots, j, now_ms),
    ensures
        slot_start(slots[k]) matches Some(start) && slot_start(slots[j])->0 <= start <= now_ms,
{
}

/// A forecast lists every slot of every day, each with its day: days in order, and within a
/// day its slots in order.
pub proof fn every_slot_is_listed(days: Seq<Vec<RawSlot>>, d: int, i: int)
    requires
        0 <= d < days.len() <= usize::MAX,
        0 <= i < days[d]@.len(),
    ensures
        flat(days.take(d)).len() + i < flat(days).len(),
        flat(days)[flat(days.take(d)).len() + i] == days[d]@[i].slot(d as usize),
    decreases days.len(),
{
    let rest = days.drop_last();
    let today = day_slots(days.last()@, (days.len() - 1) as usize);
    if d == days.len() - 1 {
        assert(days.take(d) =~= rest);
        assert(today[i] == days[d]@[i].slot(d as usize));
    } else {
        assert(rest[d] == days[d]);
        assert(rest.take(d) =~= days.take(d));
        every_slot_is_listed(rest, d, i);
    }
}

/// A village that BMKG does not know is an error that names it, never an empty forecast; no
/// forecast without slots is ever given.
pub proof fn no_empty_forecast(adm4: Seq<char>, answer: ApiResult<RawResponse>)
    ensures
        match forecast_outcome(adm4, answer) {
            Ok(f) => f.slots.len() > 0,
            Err(f) => 400 <= f.status() <= 599,
        },
        village_fault(adm4) is None && (answer matches Err(e) && e@ is UpstreamNotFound) ==> (
        forecast_outcome(adm4, answer) matches Err(f) && f is UpstreamNotFound),
{
}

} // verus!
