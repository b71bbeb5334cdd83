//! Earthquakes, from BMKG's three TEWS feeds.
//!
//! BMKG sends every number as a string: `"Magnitude":"6.2"`, `"Kedalaman":"145 km"`,
//! and one `"Coordinates":"-7.22,107.62"` field holding both latitude and longitude.
//! Everything here exists to turn that into numbers exactly once.

use vstd::prelude::*;
use crate::api::{
    a_changed_payload_names_its_url, is_unreadable_at, number_result, ApiError, ApiResult, Failure,
};
use crate::json::{opt_float, opt_tree, optional, trees, Json, Tree};
use crate::number::{is_float, opt_number, tenths_text, Number, NumberError};
use crate::text::{
    debug_form, debug_text, opt, replace_all, replaced, same, split_once, split_pair, trim, trimmed,
    views, words, words_of,
};

verus! {

const BASE: &'static str = "https://data.bmkg.go.id/DataMKG/TEWS";

pub const TTL_LATEST: u32 = 60;

pub const TTL_RECENT: u32 = 300;

pub const TTL_FELT: u32 = 60;

/// An event as the feeds send it.
#[derive(Debug, PartialEq, Eq)]
pub struct Raw {
    pub tanggal: String,
    pub jam: String,
    pub datetime: String,
    pub coordinates: String,
    pub magnitude: String,
    pub kedalaman: String,
    pub wilayah: String,
    pub potensi: Option<String>,
    pub dirasakan: Option<String>,
    pub shakemap: Option<String>,
}

pub ghost struct RawView {
    pub tanggal: Seq<char>,
    pub jam: Seq<char>,
    pub datetime: Seq<char>,
    pub coordinates: Seq<char>,
    pub magnitude: Seq<char>,
    pub kedalaman: Seq<char>,
    pub wilayah: Seq<char>,
    pub potensi: Option<Seq<char>>,
    pub dirasakan: Option<Seq<char>>,
    pub shakemap: Option<Seq<char>>,
}

impl View for Raw {
    type V = RawView;

    open spec fn view(&self) -> RawView {
        RawView {
            tanggal: self.tanggal@,
            jam: self.jam@,
            datetime: self.datetime@,
            coordinates: self.coordinates@,
            magnitude: self.magnitude@,
            kedalaman: self.kedalaman@,
            wilayah: self.wilayah@,
            potensi: opt(self.potensi),
            dirasakan: opt(self.dirasakan),
            shakemap: opt(self.shakemap),
        }
    }
}

pub open spec fn raw_views(v: Seq<Raw>) -> Seq<RawView> {
    v.map_values(|r: Raw| r@)
}

/// An event with its numbers as numbers.
#[derive(Debug, PartialEq, Eq)]
pub struct Quake {
    /// ISO 8601 with offset, straight from BMKG's own `DateTime`.
    pub datetime: String,
    /// The same instant as BMKG prints it for an Indonesian reader.
    pub date_local: String,
    pub time_local: String,
    pub latitude: Number,
    pub longitude: Number,
    pub magnitude: Number,
    pub depth_km: Number,
    pub region: String,
    /// Present on the latest/recent feeds: BMKG's tsunami wording.
    pub tsunami_potential: Option<String>,
    /// Present on the felt feed: MMI intensities per place.
    pub felt_intensity: Option<String>,
    pub shakemap_url: Option<String>,
    /// Only set by a search around a point.
    pub distance_km: Option<Number>,
}

pub ghost struct QuakeView {
    pub datetime: Seq<char>,
    pub date_local: Seq<char>,
    pub time_local: Seq<char>,
    pub latitude: Seq<char>,
    pub longitude: Seq<char>,
    pub magnitude: Seq<char>,
    pub depth_km: Seq<char>,
    pub region: Seq<char>,
    pub tsunami_potential: Option<Seq<char>>,
    pub felt_intensity: Option<Seq<char>>,
    pub shakemap_url: Option<Seq<char>>,
    pub distance_km: Option<Seq<char>>,
}

impl View for Quake {
    type V = QuakeView;

    open spec fn view(&self) -> QuakeView {
        QuakeView {
            datetime: self.datetime@,
            date_local: self.date_local@,
            time_local: self.time_local@,
            latitude: self.latitude@,
            longitude: self.longitude@,
            magnitude: self.magnitude@,
            depth_km: self.depth_km@,
            region: self.region@,
            tsunami_potential: opt(self.tsunami_potential),
            felt_intensity: opt(self.felt_intensity),
            shakemap_url: opt(self.shakemap_url),
            distance_km: opt_number(self.distance_km),
        }
    }
}

pub open spec fn quake_views(v: Seq<Quake>) -> Seq<QuakeView> {
    v.map_values(|q: Quake| q@)
}

impl QuakeView {
    pub open spec fn tree(self) -> Tree {
        Tree::Object(
            seq![
                ("datetime"@, Tree::Text(self.datetime)),
                ("date_local"@, Tree::Text(self.date_local)),
                ("time_local"@, Tree::Text(self.time_local)),
                ("latitude"@, Tree::Float(self.latitude)),
                ("longitude"@, Tree::Float(self.longitude)),
                ("magnitude"@, Tree::Float(self.magnitude)),
                ("depth_km"@, Tree::Float(self.depth_km)),
                ("region"@, Tree::Text(self.region)),
            ] + optional("tsunami_potential"@, opt_tree(self.tsunami_potential)) + optional(
                "felt_intensity"@,
                opt_tree(self.felt_intensity),
            ) + optional("shakemap_url"@, opt_tree(self.shakemap_url)) + optional(
                "distance_km"@,
                opt_float(self.distance_km),
            ),
        )
    }
}

impl Quake {
    pub fn to_json(&self) -> (r: Json)
        ensures
            r@ == self@.tree(),
    {
        let head = Json::object().with("datetime", Json::text(self.datetime.as_str())).with(
            "date_local",
            Json::text(self.date_local.as_str()),
        ).with("time_local", Json::text(self.time_local.as_str())).with(
            "latitude",
            Json::float(&self.latitude),
        ).with("longitude", Json::float(&self.longitude)).with(
            "magnitude",
            Json::float(&self.magnitude),
        ).with("depth_km", Json::float(&self.depth_km)).with(
            "region",
            Json::text(self.region.as_str()),
        );
        assert(head@->Object_0 =~= seq![
            ("datetime"@, Tree::Text(self@.datetime)),
            ("date_local"@, Tree::Text(self@.date_local)),
            ("time_local"@, Tree::Text(self@.time_local)),
            ("latitude"@, Tree::Float(self@.latitude)),
            ("longitude"@, Tree::Float(self@.longitude)),
            ("magnitude"@, Tree::Float(self@.magnitude)),
            ("depth_km"@, Tree::Float(self@.depth_km)),
            ("region"@, Tree::Text(self@.region)),
        ]);
        let r = head.with_text("tsunami_potential", &self.tsunami_potential).with_text(
            "felt_intensity",
            &self.felt_intensity,
        ).with_text("shakemap_url", &self.shakemap_url).with_float(
            "distance_km",
            &self.distance_km,
        );
        assert(r@->Object_0 =~= self@.tree()->Object_0);
        r
    }
}

pub open spec fn quake_trees(v: Seq<Quake>) -> Seq<Tree> {
    v.map_values(|q: Quake| q@.tree())
}

/// The events as the data of a response.
pub fn quakes_json(quakes: &Vec<Quake>) -> (r: Json)
    ensures
        r@ == Tree::Array(quake_trees(quakes@)),
{
    let mut items: Vec<Json> = Vec::new();
    let mut i: usize = 0;
    assert(trees(items@) =~= quake_trees(quakes@).take(0));
    while i < quakes.len()
        invariant
            i <= quakes@.len(),
            trees(items@) == quake_trees(quakes@).take(i as int),
        decreases quakes@.len() - i,
    {
        let ghost before = trees(items@);
        items.push(quakes[i].to_json());
        assert(trees(items@) =~= before.push(quake_trees(quakes@)[i as int]));
        i += 1;
        assert(trees(items@) =~= quake_trees(quakes@).take(i as int));
    }
    assert(quake_trees(quakes@).take(i as int) =~= quake_trees(quakes@));
    Json::array(items)
}

// ------------------------------------------------------------------ reading an event

/// Why a text that spells no number does not.
pub open spec fn number_fault(s: Seq<char>) -> Seq<char> {
    if s.len() == 0 {
        NumberError::Empty.text()
    } else {
        NumberError::Invalid.text()
    }
}

/// The number that the text spells, or what is reported where it spells none.
pub open spec fn measured(what: Seq<char>, shown: Seq<char>, s: Seq<char>) -> Result<
    Seq<char>,
    Failure,
> {
    if is_float(s) {
        Ok(s)
    } else {
        Err(Failure::UpstreamParse(what + debug_form(shown) + ": "@ + number_fault(s)))
    }
}

/// Latitude and longitude out of `"lat,lon"`.
pub open spec fn position(coordinates: Seq<char>) -> Result<(Seq<char>, Seq<char>), Failure> {
    match split_once(coordinates, ',') {
        None => Err(
            Failure::UpstreamParse(
                "Coordinates was "@ + debug_form(coordinates) + ", expected \"lat,lon\""@,
            ),
        ),
        Some((a, b)) => match measured("latitude "@, trim(a), trim(a)) {
            Err(f) => Err(f),
            Ok(lat) => match measured("longitude "@, trim(b), trim(b)) {
                Err(f) => Err(f),
                Ok(lon) => Ok((lat, lon)),
            },
        },
    }
}

/// "145 km" -> "145". BMKG has also used "10 Km" and "5  km" over the years, so take the
/// leading number rather than strip a fixed suffix. A decimal comma counts as a point.
pub open spec fn depth(kedalaman: Seq<char>) -> Result<Seq<char>, Failure> {
    let ws = words(kedalaman);
    if ws.len() > 0 && is_float(replace_all(ws[0], ","@, "."@)) {
        Ok(replace_all(ws[0], ","@, "."@))
    } else {
        Err(
            Failure::UpstreamParse(
                "Kedalaman "@ + debug_form(kedalaman) + " has no leading number"@,
            ),
        )
    }
}

/// Where a shakemap image of this name is found.
pub open spec fn shakemap_address(name: Seq<char>) -> Seq<char> {
    "https://data.bmkg.go.id/DataMKG/TEWS"@ + "/"@ + name
}

impl RawView {
    pub open spec fn quake(self) -> Result<QuakeView, Failure> {
        match position(self.coordinates) {
            Err(f) => Err(f),
            Ok((latitude, longitude)) => match measured(
                "Magnitude "@,
                self.magnitude,
                trim(self.magnitude),
            ) {
                Err(f) => Err(f),
                Ok(magnitude) => match depth(self.kedalaman) {
                    Err(f) => Err(f),
                    Ok(depth_km) => Ok(
                        QuakeView {
                            datetime: self.datetime,
                            date_local: self.tanggal,
                            time_local: self.jam,
                            latitude,
                            longitude,
                            magnitude,
                            depth_km,
                            region: self.wilayah,
                            tsunami_potential: self.potensi,
                            felt_intensity: self.dirasakan,
                            shakemap_url: match self.shakemap {
                                Some(name) => Some(shakemap_address(name)),
                                None => None,
                            },
                            distance_km: None,
                        },
                    ),
                },
            },
        }
    }
}

/// Reads a number, or reports which field did not hold one.
fn measure(what: &str, shown: &str, s: &str) -> (r: ApiResult<Number>)
    ensures
        number_result(r) == measured(what@, shown@, s@),
{
    match Number::parse(s) {
        Ok(n) => Ok(n),
        Err(e) => {
            let mut m = what.to_owned();
            m.append(debug_text(shown).as_str());
            m.append(": ");
            m.append(e.message().as_str());
            Err(ApiError::UpstreamParse(m))
        },
    }
}

pub open spec fn position_result(r: ApiResult<(Number, Number)>) -> Result<
    (Seq<char>, Seq<char>),
    Failure,
> {
    match r {
        Ok((a, b)) => Ok((a@, b@)),
        Err(e) => Err(e@),
    }
}

pub fn parse_position(coordinates: &str) -> (r: ApiResult<(Number, Number)>)
    ensures
        position_result(r) == position(coordinates@),
{
    match split_pair(coordinates, ',') {
        None => {
            let mut m = "Coordinates was ".to_owned();
            m.append(debug_text(coordinates).as_str());
            m.append(", expected \"lat,lon\"");
            Err(ApiError::UpstreamParse(m))
        },
        Some((a, b)) => {
            let a = trimmed(a.as_str());
            let b = trimmed(b.as_str());
            match measure("latitude ", a.as_str(), a.as_str()) {
                Err(e) => Err(e),
                Ok(lat) => match measure("longitude ", b.as_str(), b.as_str()) {
                    Err(e) => Err(e),
                    Ok(lon) => Ok((lat, lon)),
                },
            }
        },
    }
}

pub fn parse_depth(kedalaman: &str) -> (r: ApiResult<Number>)
    ensures
        number_result(r) == depth(kedalaman@),
{
    let ws = words_of(kedalaman);
    if ws.len() > 0 {
        proof {
            reveal_strlit(",");
            assert(views(ws@)[0] == ws@[0]@);
        }
        let n = replaced(ws[0].as_str(), ",", ".");
        match Number::parse(n.as_str()) {
            Ok(n) => {
                return Ok(n);
            },
            Err(_) => {},
        }
    }
    let mut m = "Kedalaman ".to_owned();
    m.append(debug_text(kedalaman).as_str());
    m.append(" has no leading number");
    Err(ApiError::UpstreamParse(m))
}

pub open spec fn quake_result(r: ApiResult<Quake>) -> Result<QuakeView, Failure> {
    match r {
        Ok(q) => Ok(q@),
        Err(e) => Err(e@),
    }
}

impl Raw {
    pub fn parse(self) -> (r: ApiResult<Quake>)
        ensures
            quake_result(r) == self@.quake(),
    {
        let (latitude, longitude) = match parse_position(self.coordinates.as_str()) {
            Ok(p) => p,
            Err(e) => return Err(e),
        };
        let trimmed_magnitude = trimmed(self.magnitude.as_str());
        let magnitude = match measure(
            "Magnitude ",
            self.magnitude.as_str(),
            trimmed_magnitude.as_str(),
        ) {
            Ok(n) => n,
            Err(e) => return Err(e),
        };
        let depth_km = match parse_depth(self.kedalaman.as_str()) {
            Ok(n) => n,
            Err(e) => return Err(e),
        };
        let shakemap_url = match self.shakemap {
            Some(name) => {
                let mut url = BASE.to_owned();
                url.append("/");
                url.append(name.as_str());
                Some(url)
            },
            None => None,
        };
        Ok(
            Quake {
                datetime: self.datetime,
                date_local: self.tanggal,
                time_local: self.jam,
                latitude,
                longitude,
                magnitude,
                depth_km,
                region: self.wilayah,
                tsunami_potential: self.potensi,
                felt_intensity: self.dirasakan,
                shakemap_url,
                distance_km: None,
            },
        )
    }
}

// ------------------------------------------------------------------ feeds

/// Every event of a feed, or what is wrong with the first that cannot be read.
pub open spec fn all_quakes(raws: Seq<RawView>) -> Result<Seq<QuakeView>, Failure>
    decreases raws.len(),
{
    if raws.len() == 0 {
        Ok(Seq::empty())
    } else {
        match all_quakes(raws.drop_last()) {
            Err(f) => Err(f),
            Ok(before) => match raws.last().quake() {
                Err(f) => Err(f),
                Ok(q) => Ok(before.push(q)),
            },
        }
    }
}

pub open spec fn quakes_result(r: ApiResult<Vec<Quake>>) -> Result<Seq<QuakeView>, Failure> {
    match r {
        Ok(v) => Ok(quake_views(v@)),
        Err(e) => Err(e@),
    }
}

proof fn first_fault_stays(raws: Seq<RawView>, k: int)
    requires
        0 <= k <= raws.len(),
        all_quakes(raws.take(k)) is Err,
    ensures
        all_quakes(raws) == all_quakes(raws.take(k)),
    decreases raws.len(),
{
    if k < raws.len() {
        let rest = raws.drop_last();
        assert(rest.take(k) =~= raws.take(k));
        first_fault_stays(rest, k);
    } else {
        assert(raws.take(k) =~= raws);
    }
}

/// Reads every event of a feed.
pub fn parse_all(raws: Vec<Raw>) -> (r: ApiResult<Vec<Quake>>)
    ensures
        quakes_result(r) == all_quakes(raw_views(raws@)),
{
    let mut quakes: Vec<Quake> = Vec::new();
    let ghost all = raw_views(raws@);
    assert(all.take(0) =~= Seq::empty());
    assert(quake_views(quakes@) =~= Seq::empty());
    for raw in it: raws
        invariant
            it.seq() == raws@,
            all == raw_views(raws@),
            all_quakes(all.take(it.index())) == Ok::<Seq<QuakeView>, Failure>(
                quake_views(quakes@),
            ),
    {
        let ghost before = quake_views(quakes@);
        proof {
            assert(all.take(it.index() + 1).drop_last() =~= all.take(it.index()));
            assert(all[it.index()] == raw@);
        }
        match raw.parse() {
            Ok(q) => {
                quakes.push(q);
                assert(quake_views(quakes@) =~= before.push(q@));
            },
            Err(e) => {
                proof {
                    first_fault_stays(all, it.index() + 1);
                }
                return Err(e);
            },
        }
    }
    assert(all.take(all.len() as int) =~= all);
    Ok(quakes)
}

pub open spec fn latest_address() -> Seq<char> {
    "https://data.bmkg.go.id/DataMKG/TEWS"@ + "/autogempa.json"@
}

pub open spec fn recent_address() -> Seq<char> {
    "https://data.bmkg.go.id/DataMKG/TEWS"@ + "/gempaterkini.json"@
}

pub open spec fn felt_address() -> Seq<char> {
    "https://data.bmkg.go.id/DataMKG/TEWS"@ + "/gempadirasakan.json"@
}

/// The latest event. One that cannot be read is reported with the URL it came from.
pub open spec fn latest_result(raw: ApiResult<Raw>) -> Result<QuakeView, Failure> {
    match raw {
        Ok(raw) => match raw@.quake() {
            Ok(q) => Ok(q),
            Err(f) => Err(f.naming(latest_address())),
        },
        Err(e) => Err(e@),
    }
}

/// The events of the feed at this URL. One that cannot be read is reported with the URL.
pub open spec fn feed_result(url: Seq<char>, raws: ApiResult<Vec<Raw>>) -> Result<
    Seq<QuakeView>,
    Failure,
> {
    match raws {
        Ok(raws) => match all_quakes(raw_views(raws@)) {
            Ok(quakes) => Ok(quakes),
            Err(f) => Err(f.naming(url)),
        },
        Err(e) => Err(e@),
    }
}

/// Where the latest event is to be fetched.
pub fn latest_url() -> (r: String)
    ensures
        r@ == latest_address(),
{
    let mut url = BASE.to_owned();
    url.append("/autogempa.json");
    url
}

/// Where the recent events are to be fetched.
pub fn recent_url() -> (r: String)
    ensures
        r@ == recent_address(),
{
    let mut url = BASE.to_owned();
    url.append("/gempaterkini.json");
    url
}

/// Where the felt events are to be fetched.
pub fn felt_url() -> (r: String)
    ensures
        r@ == felt_address(),
{
    let mut url = BASE.to_owned();
    url.append("/gempadirasakan.json");
    url
}

/// The latest event, from what fetching it came to.
pub fn latest(raw: ApiResult<Raw>) -> (r: ApiResult<Quake>)
    ensures
        quake_result(r) == latest_result(raw),
{
    match raw {
        Ok(raw) => match raw.parse() {
            Ok(q) => Ok(q),
            Err(e) => Err(e.naming(latest_url().as_str())),
        },
        Err(e) => Err(e),
    }
}

fn read_feed(url: &str, raws: ApiResult<Vec<Raw>>) -> (r: ApiResult<Vec<Quake>>)
    ensures
        quakes_result(r) == feed_result(url@, raws),
{
    match raws {
        Ok(raws) => match parse_all(raws) {
            Ok(quakes) => Ok(quakes),
            Err(e) => Err(e.naming(url)),
        },
        Err(e) => Err(e),
    }
}

/// The recent events, from what fetching them came to.
pub fn recent(raws: ApiResult<Vec<Raw>>) -> (r: ApiResult<Vec<Quake>>)
    ensures
        quakes_result(r) == feed_result(recent_address(), raws),
{
    read_feed(recent_url().as_str(), raws)
}

/// The felt events, from what fetching them came to.
pub fn felt(raws: ApiResult<Vec<Raw>>) -> (r: ApiResult<Vec<Quake>>)
    ensures
        quakes_result(r) == feed_result(felt_address(), raws),
{
    read_feed(felt_url().as_str(), raws)
}

// ------------------------------------------------------------------ around a point

/// What is wrong with where and how far to look, if anything is. `lat`, `lon` and
/// `radius_km` are the numbers as text.
pub open spec fn area_fault(
    lat: Seq<char>,
    lon: Seq<char>,
    radius_km: Seq<char>,
    point_in_range: bool,
    radius_in_range: bool,
) -> Option<Failure> {
    if !point_in_range {
        Some(
            Failure::BadRequest(
                "lat must be -90..90 and lon -180..180; got "@ + lat + ","@ + lon,
            ),
        )
    } else if !radius_in_range {
        Some(
            Failure::BadRequest("radius_km must be between 0 and 20000; got "@ + radius_km),
        )
    } else {
        None
    }
}

/// Refuses a point off the globe and a radius that is not one.
pub fn check_area(
    lat: &str,
    lon: &str,
    radius_km: &str,
    point_in_range: bool,
    radius_in_range: bool,
) -> (r: ApiResult<()>)
    ensures
        match area_fault(lat@, lon@, radius_km@, point_in_range, radius_in_range) {
            Some(f) => r matches Err(e) && e@ == f,
            None => r is Ok,
        },
{
    if !point_in_range {
        let mut m = "lat must be -90..90 and lon -180..180; got ".to_owned();
        m.append(lat);
        m.append(",");
        m.append(lon);
        Err(ApiError::BadRequest(m))
    } else if !radius_in_range {
        let mut m = "radius_km must be between 0 and 20000; got ".to_owned();
        m.append(radius_km);
        Err(ApiError::BadRequest(m))
    } else {
        Ok(())
    }
}

/// Some event happened at this instant.
pub open spec fn has_time(s: Seq<QuakeView>, datetime: Seq<char>) -> bool {
    exists|i: int| 0 <= i < s.len() && (#[trigger] s[i]).datetime == datetime
}

/// The events without those whose timestamp an earlier one has.
pub open spec fn distinct(s: Seq<QuakeView>) -> Seq<QuakeView>
    decreases s.len(),
{
    if s.len() == 0 {
        s
    } else {
        let before = distinct(s.drop_last());
        if has_time(before, s.last().datetime) {
            before
        } else {
            before.push(s.last())
        }
    }
}

fn seen(quakes: &Vec<Quake>, datetime: &str) -> (r: bool)
    ensures
        r == has_time(quake_views(quakes@), datetime@),
{
    let mut i: usize = 0;
    while i < quakes.len()
        invariant
            i <= quakes@.len(),
            forall|j: int|
                0 <= j < i ==> (#[trigger] quake_views(quakes@)[j]).datetime != datetime@,
        decreases quakes@.len() - i,
    {
        assert(quake_views(quakes@)[i as int] == quakes@[i as int]@);
        if same(quakes[i].datetime.as_str(), datetime) {
            return true;
        }
        i += 1;
    }
    false
}

/// Adds the events whose timestamps are new.
fn add_new(held: Vec<Quake>, more: Vec<Quake>, Ghost(all): Ghost<Seq<QuakeView>>) -> (r: Vec<Quake>)
    requires
        quake_views(held@) == distinct(all),
    ensures
        quake_views(r@) == distinct(all + quake_views(more@)),
{
    let mut r = held;
    let ghost extra = quake_views(more@);
    assert(all + extra.take(0) =~= all);
    for q in it: more
        invariant
            it.seq() == more@,
            extra == quake_views(more@),
            quake_views(r@) == distinct(all + extra.take(it.index())),
    {
        let ghost before = quake_views(r@);
        let ghost longer = all + extra.take(it.index() + 1);
        assert(longer.drop_last() =~= all + extra.take(it.index()));
        assert(longer.last() == q@);
        if !seen(&r, q.datetime.as_str()) {
            r.push(q);
            assert(quake_views(r@) =~= before.push(q@));
        }
    }
    assert(extra.take(extra.len() as int) =~= extra);
    r
}

/// The events of both feeds, de-duplicated by timestamp: BMKG publishes the same event to
/// both when a large quake is also felt, and a caller asking "what happened near me" should
/// see it once.
pub fn merge(recent: Vec<Quake>, felt: Vec<Quake>) -> (r: Vec<Quake>)
    ensures
        quake_views(r@) == distinct(quake_views(recent@) + quake_views(felt@)),
{
    let none: Vec<Quake> = Vec::new();
    assert(quake_views(none@) =~= distinct(Seq::empty()));
    let held = add_new(none, recent, Ghost(Seq::empty()));
    assert(Seq::empty() + quake_views(recent@) =~= quake_views(recent@));
    add_new(held, felt, Ghost(quake_views(recent@)))
}

/// An event and how far off it is.
#[derive(Debug, PartialEq, Eq)]
pub struct Measured {
    pub quake: Quake,
    /// The distance in tenths of a kilometre, or nothing for an event outside the radius.
    pub tenths: Option<u32>,
}

pub ghost struct MeasuredView {
    pub quake: QuakeView,
    pub tenths: Option<nat>,
}

impl View for Measured {
    type V = MeasuredView;

    open spec fn view(&self) -> MeasuredView {
        MeasuredView {
            quake: self.quake@,
            tenths: match self.tenths {
                Some(t) => Some(t as nat),
                None => None,
            },
        }
    }
}

pub open spec fn measured_views(v: Seq<Measured>) -> Seq<MeasuredView> {
    v.map_values(|m: Measured| m@)
}

impl MeasuredView {
    /// The event with its distance in it.
    pub open spec fn placed(self) -> QuakeView {
        QuakeView { distance_km: Some(tenths_text(self.tenths->0)), ..self.quake }
    }
}

/// `i` comes before `j`: it is nearer, or as near and earlier in the list.
pub open spec fn comes_before(s: Seq<MeasuredView>, i: int, j: int) -> bool {
    s[i].tenths->0 < s[j].tenths->0 || (s[i].tenths->0 == s[j].tenths->0 && i < j)
}

/// `order` lists the positions of the events within the radius, each once, nearest first.
pub open spec fn is_nearest_first(s: Seq<MeasuredView>, order: Seq<int>) -> bool {
    &&& forall|k: int|
        0 <= k < order.len() ==> 0 <= #[trigger] order[k] < s.len() && s[order[k]].tenths is Some
    &&& forall|i: int| 0 <= i < s.len() && (#[trigger] s[i]).tenths is Some ==> order.contains(i)
    &&& forall|j: int, k: int|
        0 <= j < k < order.len() ==> comes_before(s, #[trigger] order[j], #[trigger] order[k])
}

/// The events at these positions, each with its distance in it.
pub open spec fn listed(s: Seq<MeasuredView>, order: Seq<int>) -> Seq<QuakeView> {
    order.map_values(|i: int| s[i].placed())
}

/// The position at which an event this far off belongs among nearer and farther ones.
fn place_for(hits: &Vec<Measured>, t: u32) -> (p: usize)
    requires
        forall|k: int| 0 <= k < hits@.len() ==> (#[trigger] hits@[k]).tenths is Some,
        forall|j: int, k: int|
            0 <= j < k < hits@.len() ==> (#[trigger] hits@[j]).tenths->0 <= (
            #[trigger] hits@[k]).tenths->0,
    ensures
        p <= hits@.len(),
        forall|k: int| 0 <= k < p ==> (#[trigger] hits@[k]).tenths->0 <= t,
        forall|k: int| p <= k < hits@.len() ==> (#[trigger] hits@[k]).tenths->0 > t,
{
    let mut p: usize = hits.len();
    while p > 0
        invariant
            p <= hits@.len(),
            forall|k: int| 0 <= k < hits@.len() ==> (#[trigger] hits@[k]).tenths is Some,
            forall|j: int, k: int|
                0 <= j < k < hits@.len() ==> (#[trigger] hits@[j]).tenths->0 <= (
                #[trigger] hits@[k]).tenths->0,
            forall|k: int| p <= k < hits@.len() ==> (#[trigger] hits@[k]).tenths->0 > t,
        decreases p,
    {
        match hits[p - 1].tenths {
            Some(u) => {
                if u <= t {
                    return p;
                }
            },
            None => {},
        }
        p -= 1;
    }
    p
}

/// The order with one more position in its place.
proof fn order_grows(s: Seq<MeasuredView>, order: Seq<int>, n: int, p: int)
    requires
        0 <= n < s.len(),
        s[n].tenths is Some,
        0 <= p <= order.len(),
        is_nearest_first(s.take(n), order),
        forall|k: int| 0 <= k < p ==> s[#[trigger] order[k]].tenths->0 <= s[n].tenths->0,
        forall|k: int| p <= k < order.len() ==> s[#[trigger] order[k]].tenths->0 > s[n].tenths->0,
    ensures
        is_nearest_first(s.take(n + 1), order.insert(p, n)),
{
    let t = s.take(n + 1);
    let grown = order.insert(p, n);
    assert forall|k: int| 0 <= k < grown.len() implies 0 <= #[trigger] grown[k] < t.len()
        && t[grown[k]].tenths is Some by {
        if k < p {
            assert(grown[k] == order[k]);
        } else if k > p {
            assert(grown[k] == order[k - 1]);
        }
    }
    assert forall|i: int| 0 <= i < t.len() && (#[trigger] t[i]).tenths is Some implies grown.contains(
        i,
    ) by {
        if i == n {
            assert(grown[p] == n);
        } else {
            assert(s.take(n)[i] == t[i]);
            let k = order.index_of(i);
            assert(order[k] == i);
            if k < p {
                assert(grown[k] == i);
            } else {
                assert(grown[k + 1] == i);
            }
        }
    }
    assert forall|j: int, k: int| 0 <= j < k < grown.len() implies comes_before(
        t,
        #[trigger] grown[j],
        #[trigger] grown[k],
    ) by {
        let oj = if j < p {
            j
        } else {
            j - 1
        };
        let ok = if k < p {
            k
        } else {
            k - 1
        };
        if j == p {
            assert(grown[k] == order[ok]);
        } else if k == p {
            assert(grown[j] == order[oj]);
        } else {
            assert(grown[j] == order[oj] && grown[k] == order[ok]);
            assert(comes_before(s.take(n), order[oj], order[ok]));
        }
    }
}

/// Everything within the radius of a point, nearest first.
pub fn nearby(all: Vec<Measured>) -> (r: Vec<Quake>)
    ensures
        exists|order: Seq<int>| #[trigger]
            is_nearest_first(measured_views(all@), order) && quake_views(r@) == listed(
                measured_views(all@),
                order,
            ),
{
    let ghost s = measured_views(all@);
    let ghost mut order: Seq<int> = Seq::empty();
    let mut hits: Vec<Measured> = Vec::new();
    for m in it: all
        invariant
            it.seq() == all@,
            s == measured_views(all@),
            is_nearest_first(s.take(it.index()), order),
            hits@.len() == order.len(),
            forall|k: int| 0 <= k < hits@.len() ==> (#[trigger] hits@[k])@ == s[order[k]],
    {
        let ghost n = it.index();
        assert(s[n] == m@);
        match m.tenths {
            Some(t) => {
                proof {
                    assert forall|j: int, k: int| 0 <= j < k < hits@.len() implies (
                    #[trigger] hits@[j]).tenths->0 <= (#[trigger] hits@[k]).tenths->0 by {
                        assert(comes_before(s.take(n), order[j], order[k]));
                        assert(hits@[j]@ == s[order[j]] && hits@[k]@ == s[order[k]]);
                    }
                    assert forall|k: int| 0 <= k < hits@.len() implies (
                    #[trigger] hits@[k]).tenths is Some by {
                        assert(hits@[k]@ == s[order[k]]);
                        assert(s.take(n)[order[k]].tenths is Some);
                    }
                }
                let p = place_for(&hits, t);
                proof {
                    assert forall|k: int| 0 <= k < p implies s[#[trigger] order[k]].tenths->0
                        <= s[n].tenths->0 by {
                        assert(hits@[k]@ == s[order[k]]);
                    }
                    assert forall|k: int| p <= k < order.len() implies s[#[trigger] order[k]].tenths->0
                        > s[n].tenths->0 by {
                        assert(hits@[k]@ == s[order[k]]);
                    }
                    order_grows(s, order, n, p as int);
                }
                let ghost held = hits@;
                let ghost shorter = order;
                proof {
                    order = order.insert(p as int, n);
                }
                hits.insert(p, m);
                proof {
                    assert forall|k: int| 0 <= k < hits@.len() implies (#[trigger] hits@[k])@
                        == s[order[k]] by {
                        if k < p {
                            assert(hits@[k] == held[k] && order[k] == shorter[k]);
                        } else if k > p {
                            assert(hits@[k] == held[k - 1] && order[k] == shorter[k - 1]);
                        }
                    }
                }
            },
            None => {
                proof {
                    assert forall|i: int|
                        0 <= i < n + 1 && (#[trigger] s.take(n + 1)[i]).tenths is Some implies order.contains(
                        i,
                    ) by {
                        assert(s.take(n)[i] == s.take(n + 1)[i]);
                    }
                    assert forall|j: int, k: int| 0 <= j < k < order.len() implies comes_before(
                        s.take(n + 1),
                        #[trigger] order[j],
                        #[trigger] order[k],
                    ) by {
                        assert(comes_before(s.take(n), order[j], order[k]));
                    }
                }
            },
        }
    }
    assert(s.take(s.len() as int) =~= s);
    let mut r: Vec<Quake> = Vec::new();
    let ghost found = hits@;
    for m in it: hits
        invariant
            it.seq() == found,
            s == measured_views(all@),
            is_nearest_first(s, order),
            found.len() == order.len(),
            forall|k: int| 0 <= k < found.len() ==> (#[trigger] found[k])@ == s[order[k]],
            quake_views(r@) == listed(s, order).take(it.index()),
    {
        let ghost before = quake_views(r@);
        let ghost n = it.index();
        assert(found[n]@ == s[order[n]]);
        let distance = match m.tenths {
            Some(t) => Some(Number::tenths(t as u64)),
            None => None,
        };
        let mut q = m.quake;
        q.distance_km = distance;
        assert(q@ == s[order[n]].placed());
        r.push(q);
        assert(quake_views(r@) =~= before.push(listed(s, order)[n]));
        assert(quake_views(r@) =~= listed(s, order).take(n + 1));
    }
    assert(listed(s, order).take(order.len() as int) =~= listed(s, order));
    r
}

// ------------------------------------------------------------------ laws

/// What is read from an event has numbers for its numbers; an event that cannot be read is
/// reported as `upstream_parse`.
pub proof fn numbers_are_numbers(raw: RawView)
    ensures
        match raw.quake() {
            Ok(q) => {
                &&& is_float(q.latitude)
                &&& is_float(q.longitude)
                &&& is_float(q.magnitude)
                &&& is_float(q.depth_km)
            },
            Err(f) => f is UpstreamParse,
        },
{
}

/// No event of a feed is dropped: either all of them are read, in order, or the feed is
/// reported as `upstream_parse` because one of them cannot be.
pub proof fn no_event_is_dropped(raws: Seq<RawView>)
    ensures
        match all_quakes(raws) {
            Ok(quakes) => quakes.len() == raws.len() && forall|i: int|
                0 <= i < raws.len() ==> (#[trigger] raws[i]).quake() == Ok::<QuakeView, Failure>(
                    quakes[i],
                ),
            Err(f) => f is UpstreamParse && exists|i: int|
                0 <= i < raws.len() && (#[trigger] raws[i]).quake() == Err::<QuakeView, Failure>(f),
        },
    decreases raws.len(),
{
    if raws.len() > 0 {
        let rest = raws.drop_last();
        no_event_is_dropped(rest);
        numbers_are_numbers(raws.last());
        assert forall|i: int| 0 <= i < rest.len() implies raws[i] == rest[i] by {}
        match all_quakes(raws) {
            Err(f) => {
                if all_quakes(rest) is Err {
                    let i = choose|i: int|
                        0 <= i < rest.len() && (#[trigger] rest[i]).quake() == Err::<
                            QuakeView,
                            Failure,
                        >(f);
                    assert(raws[i].quake() == Err::<QuakeView, Failure>(f));
                } else {
                    assert(raws[raws.len() - 1].quake() == Err::<QuakeView, Failure>(f));
                }
            },
            Ok(quakes) => {
                let before = all_quakes(rest)->Ok_0;
                assert forall|i: int| 0 <= i < raws.len() implies (#[trigger] raws[i]).quake()
                    == Ok::<QuakeView, Failure>(quakes[i]) by {
                    if i < rest.len() {
                        assert(raws[i] == rest[i]);
                        assert(quakes[i] == before[i]);
                    }
                }
            },
        }
    }
}

/// A feed that was fetched but cannot be read is an `upstream_parse` error naming its URL,
/// never a wrong value.
pub proof fn an_unreadable_feed_names_its_url(url: Seq<char>, raw: Raw, raws: Vec<Raw>)
    ensures
        latest_result(Ok(raw)) matches Err(f) ==> is_unreadable_at(f, latest_address()),
        feed_result(url, Ok(raws)) matches Err(f) ==> is_unreadable_at(f, url),
{
    numbers_are_numbers(raw@);
    no_event_is_dropped(raw_views(raws@));
    if let Err(f) = raw@.quake() {
        a_changed_payload_names_its_url(latest_address(), f.message());
    }
    if let Err(f) = all_quakes(raw_views(raws@)) {
        a_changed_payload_names_its_url(url, f.message());
    }
}

/// `i` is the first position with its timestamp.
pub open spec fn is_first_of_its_time(s: Seq<QuakeView>, i: int) -> bool {
    forall|j: int| 0 <= j < i ==> (#[trigger] s[j]).datetime != s[i].datetime
}

/// A caller sees each event once: no two of the merged events share a timestamp, every
/// timestamp of either feed is among them, and each is the first listed with its timestamp.
pub proof fn each_event_is_seen_once(s: Seq<QuakeView>)
    ensures
        forall|i: int, j: int|
            0 <= i < j < distinct(s).len() ==> (#[trigger] distinct(s)[i]).datetime != (
            #[trigger] distinct(s)[j]).datetime,
        forall|i: int| 0 <= i < s.len() ==> has_time(distinct(s), (#[trigger] s[i]).datetime),
        forall|k: int|
            0 <= k < distinct(s).len() ==> exists|i: int|
                0 <= i < s.len() && #[trigger] s[i] == #[trigger] distinct(s)[k]
                    && is_first_of_its_time(s, i),
    decreases s.len(),
{
    if s.len() > 0 {
        let rest = s.drop_last();
        let before = distinct(rest);
        let after = distinct(s);
        each_event_is_seen_once(rest);
        assert forall|i: int| 0 <= i < s.len() implies has_time(
            after,
            (#[trigger] s[i]).datetime,
        ) by {
            if i < rest.len() {
                assert(rest[i] == s[i]);
                assert(has_time(before, rest[i].datetime));
                let k = choose|k: int|
                    0 <= k < before.len() && (#[trigger] before[k]).datetime == s[i].datetime;
                assert(after[k] == before[k]);
            } else if !has_time(before, s[i].datetime) {
                assert(after[before.len() as int] == s[i]);
            }
        }
        assert forall|k: int| 0 <= k < after.len() implies exists|i: int|
            0 <= i < s.len() && #[trigger] s[i] == #[trigger] after[k] && is_first_of_its_time(
                s,
                i,
            ) by {
            if k < before.len() {
                assert(after[k] == before[k]);
                let i = choose|i: int|
                    0 <= i < rest.len() && #[trigger] rest[i] == before[k] && is_first_of_its_time(
                        rest,
                        i,
                    );
                assert(s[i] == rest[i]);
                assert forall|j: int| 0 <= j < i implies (#[trigger] s[j]).datetime
                    != s[i].datetime by {
                    assert(rest[j] == s[j]);
                }
                assert(is_first_of_its_time(s, i));
            } else {
                let i = s.len() - 1;
                assert forall|j: int| 0 <= j < i implies (#[trigger] s[j]).datetime
                    != s[i].datetime by {
                    assert(rest[j] == s[j]);
                    assert(has_time(before, rest[j].datetime));
                }
                assert(s[i] == after[k]);
                assert(is_first_of_its_time(s, i));
            }
        }
        assert forall|i: int, j: int| 0 <= i < j < after.len() implies (
        #[trigger] after[i]).datetime != (#[trigger] after[j]).datetime by {
            assert(after[i] == before[i]);
            if j < before.len() {
                assert(after[j] == before[j]);
            }
        }
    }
}

/// There is one way to list what is found nearest first, ties included.
pub proof fn nearest_first_is_one_order(s: Seq<MeasuredView>, a: Seq<int>, b: Seq<int>)
    requires
        is_nearest_first(s, a),
        is_nearest_first(s, b),
    ensures
        a == b,
{
    assert forall|i: int| a.contains(i) <==> b.contains(i) by {
        if a.contains(i) {
            let k = a.index_of(i);
            assert(a[k] == i);
            assert(s[i].tenths is Some);
        }
        if b.contains(i) {
            let k = b.index_of(i);
            assert(b[k] == i);
            assert(s[i].tenths is Some);
        }
    }
    ordered_by_same_set(s, a, b);
}

proof fn ordered_by_same_set(s: Seq<MeasuredView>, a: Seq<int>, b: Seq<int>)
    requires
        forall|j: int, k: int|
            0 <= j < k < a.len() ==> comes_before(s, #[trigger] a[j], #[trigger] a[k]),
        forall|j: int, k: int|
            0 <= j < k < b.len() ==> comes_before(s, #[trigger] b[j], #[trigger] b[k]),
        forall|i: int| a.contains(i) <==> b.contains(i),
    ensures
        a == b,
    decreases a.len(),
{
    if a.len() == 0 {
        if b.len() > 0 {
            assert(b.contains(b[0]));
        }
    } else {
        let x = a.last();
        assert(a[a.len() - 1] == x);
        assert(a.contains(x));
        let k = b.index_of(x);
        assert(b[k] == x);
        let y = b.last();
        assert(b[b.len() - 1] == y);
        assert(b.contains(y));
        let j = a.index_of(y);
        assert(a[j] == y);
        assert(x == y) by {
            if k < b.len() - 1 && j < a.len() - 1 {
                assert(comes_before(s, b[k], b[b.len() - 1]));
                assert(comes_before(s, a[j], a[a.len() - 1]));
            }
        }
        let c = a.drop_last();
        let d = b.drop_last();
        assert forall|i: int| c.contains(i) <==> d.contains(i) by {
            if c.contains(i) {
                let n = c.index_of(i);
                assert(a[n] == i);
                assert(comes_before(s, a[n], a[a.len() - 1]));
                assert(a.contains(i));
                let m = b.index_of(i);
                assert(b[m] == i);
                assert(i != y);
                assert(d[m] == i);
            }
            if d.contains(i) {
                let n = d.index_of(i);
                assert(b[n] == i);
                assert(comes_before(s, b[n], b[b.len() - 1]));
                assert(b.contains(i));
                let m = a.index_of(i);
                assert(a[m] == i);
                assert(i != x);
                assert(c[m] == i);
            }
        }
        ordered_by_same_set(s, c, d);
        assert(a =~= c.push(x));
        assert(b =~= d.push(y));
    }
}

} // verus!
