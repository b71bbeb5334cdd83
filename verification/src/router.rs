//! Which route a request takes, and the replies that need no upstream.

use vstd::prelude::*;
use crate::api::{
    decoration, fault, header_views, is_storable, json_ok, set_header, success, ApiError, ApiResult,
    Failure, Header, Reply, TextReply, VERSION,
};
use crate::earthquake::Quake;
use crate::json::{trees, Json, Tree};
use crate::mcp::PROTOCOL_VERSION;
use crate::nowcast::Alert;
use crate::number::{is_float, Number};
use crate::task::{Task, TaskView};
use crate::text::{
    contains, decimal, decimal_text, non_empty, opt, parse_unsigned, same, segments_of, split, trim,
    trimmed, unsigned_value, views,
};
use crate::weather::Forecast;

verus! {

/// The village whose forecast a deep health check asks for.
pub const PROBE_VILLAGE: &'static str = "31.74.04.1006";

#[derive(Debug, PartialEq, Eq)]
pub enum Method {
    Get,
    Post,
    Options,
    /// Any other method, by its name.
    Other(String),
}

/// A key and a value of the query string, both decoded.
#[derive(Debug, PartialEq, Eq)]
pub struct Pair {
    pub key: String,
    pub value: String,
}

#[derive(Debug, PartialEq, Eq)]
pub struct Request {
    pub method: Method,
    pub path: String,
    pub query: Vec<Pair>,
}

pub ghost enum MethodView {
    Get,
    Post,
    Options,
    Other(Seq<char>),
}

pub ghost struct RequestView {
    pub method: MethodView,
    pub path: Seq<char>,
    pub query: Seq<(Seq<char>, Seq<char>)>,
}

pub open spec fn pair_views(v: Seq<Pair>) -> Seq<(Seq<char>, Seq<char>)> {
    v.map_values(|p: Pair| (p.key@, p.value@))
}

impl View for Request {
    type V = RequestView;

    open spec fn view(&self) -> RequestView {
        RequestView {
            method: match self.method {
                Method::Get => MethodView::Get,
                Method::Post => MethodView::Post,
                Method::Options => MethodView::Options,
                Method::Other(m) => MethodView::Other(m@),
            },
            path: self.path@,
            query: pair_views(self.query@),
        }
    }
}

/// What a request is to be answered with.
#[derive(Debug, PartialEq, Eq)]
pub enum Route {
    Preflight,
    Landing,
    Health,
    HealthDeep,
    McpProbe,
    Mcp,
    OpenApi,
    Data(Task),
}

pub ghost enum RouteView {
    Preflight,
    Landing,
    Health,
    HealthDeep,
    McpProbe,
    Mcp,
    OpenApi,
    Data(TaskView),
}

impl View for Route {
    type V = RouteView;

    open spec fn view(&self) -> RouteView {
        match self {
            Route::Preflight => RouteView::Preflight,
            Route::Landing => RouteView::Landing,
            Route::Health => RouteView::Health,
            Route::HealthDeep => RouteView::HealthDeep,
            Route::McpProbe => RouteView::McpProbe,
            Route::Mcp => RouteView::Mcp,
            Route::OpenApi => RouteView::OpenApi,
            Route::Data(task) => RouteView::Data(task@),
        }
    }
}

pub open spec fn route_result(r: ApiResult<Route>) -> Result<RouteView, Failure> {
    match r {
        Ok(x) => Ok(x@),
        Err(e) => Err(e@),
    }
}

// ------------------------------------------------------------------ parameters

/// The value of the first pair with this key.
pub open spec fn first_value(query: Seq<(Seq<char>, Seq<char>)>, key: Seq<char>) -> Option<Seq<char>>
    decreases query.len(),
{
    if query.len() == 0 {
        None
    } else if query[0].0 == key {
        Some(query[0].1)
    } else {
        first_value(query.skip(1), key)
    }
}

/// A parameter: the first value given for it, trimmed, unless that leaves nothing.
pub open spec fn parameter(query: Seq<(Seq<char>, Seq<char>)>, key: Seq<char>) -> Option<Seq<char>> {
    match first_value(query, key) {
        Some(v) => if trim(v).len() > 0 {
            Some(trim(v))
        } else {
            None
        },
        None => None,
    }
}

pub fn param(query: &Vec<Pair>, key: &str) -> (r: Option<String>)
    ensures
        opt(r) == parameter(pair_views(query@), key@),
{
    let ghost all = pair_views(query@);
    let mut i: usize = 0;
    assert(all.skip(0) =~= all);
    while i < query.len()
        invariant
            i <= query@.len(),
            all == pair_views(query@),
            first_value(all, key@) == first_value(all.skip(i as int), key@),
        decreases query@.len() - i,
    {
        let ghost rest = all.skip(i as int);
        assert(rest[0] == (query@[i as int].key@, query@[i as int].value@));
        if same(query[i].key.as_str(), key) {
            let v = trimmed(query[i].value.as_str());
            return if v.as_str().is_empty() {
                None
            } else {
                Some(v)
            };
        }
        assert(rest.skip(1) =~= all.skip(i + 1));
        i += 1;
    }
    None
}

/// A parameter that has to be a number: not given, given as one, or given as something else.
pub open spec fn number_parameter(query: Seq<(Seq<char>, Seq<char>)>, key: Seq<char>) -> Option<
    Result<Seq<char>, ()>,
> {
    match parameter(query, key) {
        Some(v) => if is_float(v) {
            Some(Ok(v))
        } else {
            Some(Err(()))
        },
        None => None,
    }
}

pub open spec fn given_number(n: Option<Result<Number, ()>>) -> Option<Result<Seq<char>, ()>> {
    match n {
        Some(Ok(x)) => Some(Ok(x@)),
        Some(Err(_)) => Some(Err(())),
        None => None,
    }
}

pub fn num_param(query: &Vec<Pair>, key: &str) -> (r: Option<Result<Number, ()>>)
    ensures
        given_number(r) == number_parameter(pair_views(query@), key@),
{
    match param(query, key) {
        Some(v) => match Number::parse(v.as_str()) {
            Ok(n) => Some(Ok(n)),
            Err(_) => Some(Err(())),
        },
        None => None,
    }
}

/// The language asked for, English by default.
pub open spec fn language_parameter(query: Seq<(Seq<char>, Seq<char>)>) -> Seq<char> {
    match parameter(query, "lang"@) {
        Some(l) => l,
        None => "en"@,
    }
}

pub fn lang(query: &Vec<Pair>) -> (r: String)
    ensures
        r@ == language_parameter(pair_views(query@)),
{
    match param(query, "lang") {
        Some(l) => l,
        None => "en".to_owned(),
    }
}

// ------------------------------------------------------------------ routes

/// The parts of a path between its slashes.
pub open spec fn segments(path: Seq<char>) -> Seq<Seq<char>> {
    non_empty(split(path, '/'))
}

pub open spec fn unknown(path: Seq<char>) -> Failure {
    Failure::NotFound(path + " is not a route. See / for the endpoint list."@)
}

fn not_a_route(path: &str) -> (r: ApiError)
    ensures
        r@ == unknown(path@),
{
    let mut m = path.to_owned();
    m.append(" is not a route. See / for the endpoint list.");
    ApiError::NotFound(m)
}

fn bad_request(m: &str) -> (r: ApiError)
    ensures
        r@ == Failure::BadRequest(m@),
{
    ApiError::BadRequest(m.to_owned())
}

/// Around which point to look for earthquakes, and how far: 500 km by default.
pub open spec fn nearby_routed(query: Seq<(Seq<char>, Seq<char>)>) -> Result<RouteView, Failure> {
    let radius: Result<Seq<char>, ()> = match number_parameter(query, "radius_km"@) {
        Some(r) => r,
        None => Ok(decimal(500)),
    };
    match (number_parameter(query, "lat"@), number_parameter(query, "lon"@), radius) {
        (Some(Ok(lat)), Some(Ok(lon)), Ok(radius_km)) => Ok(
            RouteView::Data(TaskView::NearbyEarthquakes { lat, lon, radius_km }),
        ),
        (None, _, _) => Err(
            Failure::BadRequest(
                "lat and lon are required, e.g. /v1/earthquake/nearby?lat=-6.2&lon=106.8"@,
            ),
        ),
        (_, None, _) => Err(
            Failure::BadRequest(
                "lat and lon are required, e.g. /v1/earthquake/nearby?lat=-6.2&lon=106.8"@,
            ),
        ),
        _ => Err(Failure::BadRequest("lat, lon and radius_km must be numbers"@)),
    }
}

fn nearby_route(query: &Vec<Pair>) -> (r: ApiResult<Route>)
    ensures
        route_result(r) == nearby_routed(pair_views(query@)),
{
    let lat = num_param(query, "lat");
    let lon = num_param(query, "lon");
    let radius = match num_param(query, "radius_km") {
        Some(r) => r,
        None => Ok(Number::whole(500, false)),
    };
    match (lat, lon, radius) {
        (Some(Ok(lat)), Some(Ok(lon)), Ok(radius_km)) => Ok(
            Route::Data(Task::NearbyEarthquakes { lat, lon, radius_km }),
        ),
        (None, _, _) => Err(
            bad_request("lat and lon are required, e.g. /v1/earthquake/nearby?lat=-6.2&lon=106.8"),
        ),
        (_, None, _) => Err(
            bad_request("lat and lon are required, e.g. /v1/earthquake/nearby?lat=-6.2&lon=106.8"),
        ),
        _ => Err(bad_request("lat, lon and radius_km must be numbers")),
    }
}

/// Routes under `/v1/earthquake`. `rest` is the path after that.
pub open spec fn earthquake_routed(
    rest: Seq<Seq<char>>,
    path: Seq<char>,
    query: Seq<(Seq<char>, Seq<char>)>,
) -> Result<RouteView, Failure> {
    if rest.len() != 1 {
        Err(unknown(path))
    } else if rest[0] == "latest"@ {
        Ok(RouteView::Data(TaskView::LatestEarthquake))
    } else if rest[0] == "recent"@ {
        Ok(RouteView::Data(TaskView::RecentEarthquakes))
    } else if rest[0] == "felt"@ {
        Ok(RouteView::Data(TaskView::FeltEarthquakes))
    } else if rest[0] == "nearby"@ {
        nearby_routed(query)
    } else {
        Err(unknown(path))
    }
}

/// Routes under `/v1/weather`. `search` is matched first so it is never read as a region
/// code.
pub open spec fn weather_routed(
    rest: Seq<Seq<char>>,
    path: Seq<char>,
    query: Seq<(Seq<char>, Seq<char>)>,
    db: Option<Failure>,
) -> Result<RouteView, Failure> {
    if rest.len() == 1 && rest[0] == "search"@ {
        match parameter(query, "q"@) {
            Some(q) => match db {
                Some(f) => Err(f),
                None => Ok(RouteView::Data(TaskView::FindWeather { query: q })),
            },
            None => Err(
                Failure::BadRequest("q is required, e.g. /v1/weather/search?q=tebet"@),
            ),
        }
    } else if rest.len() == 1 {
        Ok(RouteView::Data(TaskView::WeatherForecast { adm4: rest[0] }))
    } else if rest.len() == 2 && rest[1] == "current"@ {
        Ok(RouteView::Data(TaskView::CurrentWeather { adm4: rest[0] }))
    } else {
        Err(unknown(path))
    }
}

/// The place asked about, under either of two names.
pub open spec fn location_parameter(query: Seq<(Seq<char>, Seq<char>)>) -> Option<Seq<char>> {
    match parameter(query, "location"@) {
        Some(l) => Some(l),
        None => parameter(query, "q"@),
    }
}

/// Routes under `/v1/nowcast`. `check` comes before the code, for the same reason.
pub open spec fn nowcast_routed(
    rest: Seq<Seq<char>>,
    path: Seq<char>,
    query: Seq<(Seq<char>, Seq<char>)>,
) -> Result<RouteView, Failure> {
    let lang = language_parameter(query);
    if rest.len() == 0 {
        Ok(RouteView::Data(TaskView::Warnings { lang }))
    } else if rest.len() == 1 && rest[0] == "check"@ {
        match location_parameter(query) {
            Some(location) => Ok(RouteView::Data(TaskView::WarningCheck { location, lang })),
            None => Err(
                Failure::BadRequest(
                    "location is required, e.g. /v1/nowcast/check?location=jambi"@,
                ),
            ),
        }
    } else if rest.len() == 1 {
        Ok(RouteView::Data(TaskView::WarningDetail { alert_code: rest[0], lang }))
    } else {
        Err(unknown(path))
    }
}

/// The children of the region that the named parameter gives.
pub open spec fn child_routed(
    query: Seq<(Seq<char>, Seq<char>)>,
    name: Seq<char>,
    level: nat,
) -> Result<RouteView, Failure> {
    match parameter(query, name) {
        Some(code) => Ok(RouteView::Data(TaskView::Children { parent_code: code, expect_level: level })),
        None => Err(Failure::BadRequest(name + " is required, e.g. ?"@ + name + "=31"@)),
    }
}

/// The number of hits asked for, ten by default.
pub open spec fn limit_parameter(query: Seq<(Seq<char>, Seq<char>)>) -> nat {
    match parameter(query, "limit"@) {
        Some(s) => match unsigned_value(s, u32::MAX as nat) {
            Some(n) => n,
            None => 10,
        },
        None => 10,
    }
}

/// The level asked for, if any.
pub open spec fn level_parameter(query: Seq<(Seq<char>, Seq<char>)>) -> Option<nat> {
    match parameter(query, "level"@) {
        Some(s) => unsigned_value(s, u8::MAX as nat),
        None => None,
    }
}

/// Routes under `/v1/wilayah`. All of them need the database, so how its binding fared comes
/// first.
pub open spec fn wilayah_routed(
    rest: Seq<Seq<char>>,
    query: Seq<(Seq<char>, Seq<char>)>,
    db: Option<Failure>,
) -> Result<RouteView, Failure> {
    match db {
        Some(f) => Err(f),
        None => if rest.len() != 1 {
            Err(
                Failure::NotFound(
                    "try /v1/wilayah/provinces, /districts, /subdistricts, /villages, /search or /{code}"@,
                ),
            )
        } else if rest[0] == "provinces"@ {
            Ok(RouteView::Data(TaskView::Provinces))
        } else if rest[0] == "districts"@ {
            child_routed(query, "province_code"@, 2)
        } else if rest[0] == "subdistricts"@ {
            child_routed(query, "district_code"@, 3)
        } else if rest[0] == "villages"@ {
            child_routed(query, "subdistrict_code"@, 4)
        } else if rest[0] == "search"@ {
            match parameter(query, "q"@) {
                Some(q) => Ok(
                    RouteView::Data(TaskView::RegionSearch {
                        q,
                        limit: limit_parameter(query),
                        level: level_parameter(query),
                    }),
                ),
                None => Err(
                    Failure::BadRequest("q is required, e.g. /v1/wilayah/search?q=tebet"@),
                ),
            }
        } else {
            Ok(RouteView::Data(TaskView::Region { code: rest[0] }))
        },
    }
}

/// The route of a GET request with these path segments.
pub open spec fn get_routed(
    s: Seq<Seq<char>>,
    path: Seq<char>,
    query: Seq<(Seq<char>, Seq<char>)>,
    db: Option<Failure>,
) -> Result<RouteView, Failure> {
    if s.len() == 0 {
        Ok(RouteView::Landing)
    } else if s.len() == 1 && s[0] == "health"@ {
        Ok(RouteView::Health)
    } else if s.len() == 2 && s[0] == "health"@ && s[1] == "deep"@ {
        Ok(RouteView::HealthDeep)
    } else if s.len() == 1 && s[0] == "mcp"@ {
        Ok(RouteView::McpProbe)
    } else if s.len() >= 2 && s[0] == "v1"@ {
        if s[1] == "openapi.json"@ && s.len() == 2 {
            Ok(RouteView::OpenApi)
        } else if s[1] == "earthquake"@ {
            earthquake_routed(s.skip(2), path, query)
        } else if s[1] == "weather"@ {
            weather_routed(s.skip(2), path, query, db)
        } else if s[1] == "nowcast"@ {
            nowcast_routed(s.skip(2), path, query)
        } else if s[1] == "wilayah"@ {
            wilayah_routed(s.skip(2), query, db)
        } else {
            Err(unknown(path))
        }
    } else {
        Err(unknown(path))
    }
}

/// The route of a request. `db` is how the database binding fared.
pub open spec fn routed(req: RequestView, db: Option<Failure>) -> Result<RouteView, Failure> {
    let s = segments(req.path);
    match req.method {
        MethodView::Options => Ok(RouteView::Preflight),
        MethodView::Post => if s.len() == 1 && s[0] == "mcp"@ {
            Ok(RouteView::Mcp)
        } else {
            Err(Failure::NotFound("POST "@ + req.path + " is not a route"@))
        },
        MethodView::Get => get_routed(s, req.path, req.query, db),
        MethodView::Other(m) => Err(
            Failure::BadRequest(
                m + " is not supported; this API is GET-only except POST /mcp"@,
            ),
        ),
    }
}

fn earthquake_route(rest: &Vec<String>, path: &str, query: &Vec<Pair>) -> (r: ApiResult<Route>)
    ensures
        route_result(r) == earthquake_routed(views(rest@), path@, pair_views(query@)),
{
    if rest.len() != 1 {
        return Err(not_a_route(path));
    }
    let word = rest[0].as_str();
    assert(views(rest@)[0] == word@);
    if same(word, "latest") {
        Ok(Route::Data(Task::LatestEarthquake))
    } else if same(word, "recent") {
        Ok(Route::Data(Task::RecentEarthquakes))
    } else if same(word, "felt") {
        Ok(Route::Data(Task::FeltEarthquakes))
    } else if same(word, "nearby") {
        nearby_route(query)
    } else {
        Err(not_a_route(path))
    }
}

fn weather_route(rest: &Vec<String>, path: &str, query: &Vec<Pair>, db: ApiResult<()>) -> (r:
    ApiResult<Route>)
    ensures
        route_result(r) == weather_routed(views(rest@), path@, pair_views(query@), fault(db)),
{
    let ghost words = views(rest@);
    assert(words.len() == rest@.len());
    if rest.len() == 1 {
        assert(words[0] == rest@[0]@);
        if same(rest[0].as_str(), "search") {
            return match param(query, "q") {
                Some(q) => match db {
                    Err(e) => Err(e),
                    Ok(_) => Ok(Route::Data(Task::FindWeather { query: q })),
                },
                None => Err(bad_request("q is required, e.g. /v1/weather/search?q=tebet")),
            };
        }
        return Ok(Route::Data(Task::WeatherForecast { adm4: rest[0].clone() }));
    }
    if rest.len() == 2 {
        assert(words[0] == rest@[0]@ && words[1] == rest@[1]@);
        if same(rest[1].as_str(), "current") {
            return Ok(Route::Data(Task::CurrentWeather { adm4: rest[0].clone() }));
        }
    }
    Err(not_a_route(path))
}

fn nowcast_route(rest: &Vec<String>, path: &str, query: &Vec<Pair>) -> (r: ApiResult<Route>)
    ensures
        route_result(r) == nowcast_routed(views(rest@), path@, pair_views(query@)),
{
    let ghost words = views(rest@);
    assert(words.len() == rest@.len());
    let lang = lang(query);
    if rest.len() == 0 {
        return Ok(Route::Data(Task::Warnings { lang }));
    }
    if rest.len() == 1 {
        assert(words[0] == rest@[0]@);
        if same(rest[0].as_str(), "check") {
            let location = match param(query, "location") {
                Some(l) => Some(l),
                None => param(query, "q"),
            };
            return match location {
                Some(location) => Ok(Route::Data(Task::WarningCheck { location, lang })),
                None => Err(
                    bad_request("location is required, e.g. /v1/nowcast/check?location=jambi"),
                ),
            };
        }
        return Ok(Route::Data(Task::WarningDetail { alert_code: rest[0].clone(), lang }));
    }
    Err(not_a_route(path))
}

fn child_route(query: &Vec<Pair>, name: &str, level: u8) -> (r: ApiResult<Route>)
    ensures
        route_result(r) == child_routed(pair_views(query@), name@, level as nat),
{
    match param(query, name) {
        Some(code) => Ok(Route::Data(Task::Children { parent_code: code, expect_level: level })),
        None => {
            let mut m = name.to_owned();
            m.append(" is required, e.g. ?");
            m.append(name);
            m.append("=31");
            Err(ApiError::BadRequest(m))
        },
    }
}

fn region_search_route(query: &Vec<Pair>, q: String) -> (r: Route)
    ensures
        r@ == (RouteView::Data(TaskView::RegionSearch {
            q: q@,
            limit: limit_parameter(pair_views(query@)),
            level: level_parameter(pair_views(query@)),
        })),
{
    let limit: u32 = match param(query, "limit") {
        Some(s) => match parse_unsigned(s.as_str(), u32::MAX as u64) {
            Some(n) => n as u32,
            None => 10,
        },
        None => 10,
    };
    let level: Option<u8> = match param(query, "level") {
        Some(s) => match parse_unsigned(s.as_str(), u8::MAX as u64) {
            Some(n) => Some(n as u8),
            None => None,
        },
        None => None,
    };
    Route::Data(Task::RegionSearch { q, limit, level })
}

fn wilayah_route(rest: &Vec<String>, query: &Vec<Pair>, db: ApiResult<()>) -> (r: ApiResult<Route>)
    ensures
        route_result(r) == wilayah_routed(views(rest@), pair_views(query@), fault(db)),
{
    match db {
        Err(e) => {
            return Err(e);
        },
        Ok(_) => {},
    }
    assert(views(rest@).len() == rest@.len());
    if rest.len() != 1 {
        return Err(
            ApiError::NotFound(
                "try /v1/wilayah/provinces, /districts, /subdistricts, /villages, /search or /{code}".to_owned(),
            ),
        );
    }
    let word = rest[0].as_str();
    assert(views(rest@)[0] == word@);
    if same(word, "provinces") {
        Ok(Route::Data(Task::Provinces))
    } else if same(word, "districts") {
        child_route(query, "province_code", 2)
    } else if same(word, "subdistricts") {
        child_route(query, "district_code", 3)
    } else if same(word, "villages") {
        child_route(query, "subdistrict_code", 4)
    } else if same(word, "search") {
        match param(query, "q") {
            Some(q) => Ok(region_search_route(query, q)),
            None => Err(bad_request("q is required, e.g. /v1/wilayah/search?q=tebet")),
        }
    } else {
        Ok(Route::Data(Task::Region { code: rest[0].clone() }))
    }
}

/// The segments after the first two.
fn after_two(segs: &Vec<String>) -> (r: Vec<String>)
    requires
        segs@.len() >= 2,
    ensures
        views(r@) == views(segs@).skip(2),
{
    let mut r: Vec<String> = Vec::new();
    let mut i: usize = 2;
    assert(views(r@) =~= views(segs@).subrange(2, 2));
    while i < segs.len()
        invariant
            2 <= i <= segs@.len(),
            views(r@) == views(segs@).subrange(2, i as int),
        decreases segs@.len() - i,
    {
        let ghost before = views(r@);
        r.push(segs[i].clone());
        assert(views(r@) =~= before.push(views(segs@)[i as int]));
        i += 1;
        assert(views(r@) =~= views(segs@).subrange(2, i as int));
    }
    assert(views(segs@).subrange(2, i as int) =~= views(segs@).skip(2));
    r
}

fn get_route(segs: &Vec<String>, path: &str, query: &Vec<Pair>, db: ApiResult<()>) -> (r: ApiResult<
    Route,
>)
    ensures
        route_result(r) == get_routed(views(segs@), path@, pair_views(query@), fault(db)),
{
    let ghost s = views(segs@);
    assert(s.len() == segs@.len());
    if segs.len() == 0 {
        return Ok(Route::Landing);
    }
    assert(s[0] == segs@[0]@);
    if segs.len() == 1 {
        return if same(segs[0].as_str(), "health") {
            Ok(Route::Health)
        } else if same(segs[0].as_str(), "mcp") {
            Ok(Route::McpProbe)
        } else {
            Err(not_a_route(path))
        };
    }
    assert(s[1] == segs@[1]@);
    let group = segs[1].as_str();
    if segs.len() == 2 && same(segs[0].as_str(), "health") && same(group, "deep") {
        return Ok(Route::HealthDeep);
    }
    if !same(segs[0].as_str(), "v1") {
        return Err(not_a_route(path));
    }
    if segs.len() == 2 && same(group, "openapi.json") {
        return Ok(Route::OpenApi);
    }
    let rest = after_two(segs);
    if same(group, "earthquake") {
        earthquake_route(&rest, path, query)
    } else if same(group, "weather") {
        weather_route(&rest, path, query, db)
    } else if same(group, "nowcast") {
        nowcast_route(&rest, path, query)
    } else if same(group, "wilayah") {
        wilayah_route(&rest, query, db)
    } else {
        Err(not_a_route(path))
    }
}

/// Decides what a request is to be answered with.
pub fn route(req: &Request, db: ApiResult<()>) -> (r: ApiResult<Route>)
    ensures
        route_result(r) == routed(req@, fault(db)),
{
    let segs = segments_of(req.path.as_str(), '/');
    match &req.method {
        Method::Options => Ok(Route::Preflight),
        Method::Post => {
            assert(views(segs@).len() == segs@.len());
            assert(segs@.len() == 1 ==> views(segs@)[0] == segs@[0]@);
            if segs.len() == 1 && same(segs[0].as_str(), "mcp") {
                Ok(Route::Mcp)
            } else {
                let mut m = "POST ".to_owned();
                m.append(req.path.as_str());
                m.append(" is not a route");
                Err(ApiError::NotFound(m))
            }
        },
        Method::Get => get_route(&segs, req.path.as_str(), &req.query, db),
        Method::Other(name) => {
            let mut m = name.clone();
            m.append(" is not supported; this API is GET-only except POST /mcp");
            Err(ApiError::BadRequest(m))
        },
    }
}

// ------------------------------------------------------------------ caching

/// Whether a response goes into the edge cache: a successful answer to a GET that was marked
/// with a lifetime.
pub fn is_cacheable(is_get: bool, status: u16, cache_control: Option<&str>) -> (r: bool)
    ensures
        r == (is_get && status == 200 && (cache_control matches Some(cc) && !contains(
            cc@,
            "no-store"@,
        ))),
{
    is_get && status == 200 && is_storable(cache_control)
}

// ------------------------------------------------------------------ replies of our own

pub open spec fn health_tree() -> Tree {
    Tree::Object(
        seq![
            ("status"@, Tree::Text("ok"@)),
            ("version"@, Tree::Text(VERSION@)),
            (
                "upstreams"@,
                Tree::Array(
                    seq![
                        Tree::Text("data.bmkg.go.id"@),
                        Tree::Text("api.bmkg.go.id"@),
                        Tree::Text("www.bmkg.go.id"@),
                    ],
                ),
            ),
        ],
    )
}

/// The Worker is alive.
pub fn health(generated_at: String) -> (r: Reply)
    ensures
        r.status == 200,
        r.body@ == success(health_tree(), "bmkg-edge"@, 0, generated_at@),
        header_views(r.headers@) == decoration(0),
{
    let mut upstreams: Vec<Json> = Vec::new();
    upstreams.push(Json::text("data.bmkg.go.id"));
    upstreams.push(Json::text("api.bmkg.go.id"));
    upstreams.push(Json::text("www.bmkg.go.id"));
    assert(trees(upstreams@) =~= seq![
        Tree::Text("data.bmkg.go.id"@),
        Tree::Text("api.bmkg.go.id"@),
        Tree::Text("www.bmkg.go.id"@),
    ]);
    let data = Json::object().with("status", Json::text("ok")).with(
        "version",
        Json::text(VERSION),
    ).with("upstreams", Json::array(upstreams));
    assert(data@->Object_0 =~= health_tree()->Object_0);
    json_ok(data, "bmkg-edge", 0, generated_at)
}

/// What came of asking an upstream, and how many milliseconds it took.
pub struct Timed<T> {
    pub outcome: ApiResult<T>,
    pub ms: Number,
}

/// How many items came, or what went wrong instead.
pub open spec fn counted<T>(outcome: ApiResult<T>, count: nat) -> Result<nat, Failure> {
    match outcome {
        Ok(_) => Ok(count),
        Err(e) => Err(e@),
    }
}

/// One line of the deep health check.
pub open spec fn check_tree(source: Seq<char>, found: Result<nat, Failure>, ms: Seq<char>) -> Tree {
    Tree::Object(
        seq![
            ("source"@, Tree::Text(source)),
            ("ok"@, Tree::Bool(found is Ok)),
            (
                "detail"@,
                Tree::Text(
                    match found {
                        Ok(n) => decimal(n) + " item(s)"@,
                        Err(f) => f.code() + ": "@ + f.message(),
                    },
                ),
            ),
            ("ms"@, Tree::Float(ms)),
        ],
    )
}

fn check(source: &str, found: Result<usize, &ApiError>, ms: &Number) -> (r: Json)
    ensures
        r@ == check_tree(
            source@,
            match found {
                Ok(n) => Ok(n as nat),
                Err(e) => Err(e@),
            },
            ms@,
        ),
{
    let (ok, detail) = match found {
        Ok(n) => {
            let mut d = decimal_text(n as u64);
            d.append(" item(s)");
            (true, d)
        },
        Err(e) => {
            let mut d = e.code().to_owned();
            d.append(": ");
            d.append(e.message());
            (false, d)
        },
    };
    let r = Json::object().with("source", Json::text(source)).with("ok", Json::bool(ok)).with(
        "detail",
        Json::text(detail.as_str()),
    ).with("ms", Json::float(ms));
    assert(r@->Object_0 =~= check_tree(
        source@,
        match found {
            Ok(n) => Ok(n as nat),
            Err(e) => Err(e@),
        },
        ms@,
    )->Object_0);
    r
}

/// The five checks of the deep health check.
pub open spec fn check_trees(
    latest: Timed<Quake>,
    recent: Timed<Vec<Quake>>,
    felt: Timed<Vec<Quake>>,
    forecast: Timed<Forecast>,
    index: Timed<Vec<Alert>>,
) -> Seq<Tree> {
    seq![
        check_tree("earthquake/latest"@, counted(latest.outcome, 1), latest.ms@),
        check_tree(
            "earthquake/recent"@,
            counted(recent.outcome, recent.outcome->Ok_0@.len()),
            recent.ms@,
        ),
        check_tree(
            "earthquake/felt"@,
            counted(felt.outcome, felt.outcome->Ok_0@.len()),
            felt.ms@,
        ),
        check_tree(
            "weather/forecast"@,
            counted(forecast.outcome, forecast.outcome->Ok_0.slots@.len()),
            forecast.ms@,
        ),
        check_tree(
            "nowcast/index"@,
            counted(index.outcome, index.outcome->Ok_0@.len()),
            index.ms@,
        ),
    ]
}

pub open spec fn verdict_tree(healthy: bool, checks: Seq<Tree>) -> Tree {
    Tree::Object(
        seq![
            ("healthy"@, Tree::Bool(healthy)),
            ("version"@, Tree::Text(VERSION@)),
            ("checks"@, Tree::Array(checks)),
        ],
    )
}

/// Reports which upstreams answered.
///
/// `health` says the Worker is alive; this says the *data* is alive. It exists because
/// other projects depend on this service, and the failure that matters is not the Worker
/// going down: it is BMKG changing a payload while every response stays HTTP 200.
///
/// Stays inside the standard envelope. The verdict is `healthy`, not `ok`: `ok` already
/// means "the request succeeded", and overloading it to also mean "the data is fine" would
/// make two different things read the same key. A watchdog can read either `data.healthy`
/// or the HTTP status.
pub fn health_deep(
    latest: Timed<Quake>,
    recent: Timed<Vec<Quake>>,
    felt: Timed<Vec<Quake>>,
    forecast: Timed<Forecast>,
    index: Timed<Vec<Alert>>,
    generated_at: String,
) -> (r: Reply)
    ensures
        ({
            let healthy = latest.outcome is Ok && recent.outcome is Ok && felt.outcome is Ok
                && forecast.outcome is Ok && index.outcome is Ok;
            &&& r.status == (if healthy {
                200u16
            } else {
                503u16
            })
            &&& r.body@ == success(
                verdict_tree(healthy, check_trees(latest, recent, felt, forecast, index)),
                "bmkg-edge"@,
                0,
                generated_at@,
            )
            &&& header_views(r.headers@) == decoration(0)
        }),
{
    let mut checks: Vec<Json> = Vec::new();
    checks.push(
        check(
            "earthquake/latest",
            match &latest.outcome {
                Ok(_) => Ok(1),
                Err(e) => Err(e),
            },
            &latest.ms,
        ),
    );
    checks.push(
        check(
            "earthquake/recent",
            match &recent.outcome {
                Ok(v) => Ok(v.len()),
                Err(e) => Err(e),
            },
            &recent.ms,
        ),
    );
    checks.push(
        check(
            "earthquake/felt",
            match &felt.outcome {
                Ok(v) => Ok(v.len()),
                Err(e) => Err(e),
            },
            &felt.ms,
        ),
    );
    checks.push(
        check(
            "weather/forecast",
            match &forecast.outcome {
                Ok(f) => Ok(f.slots.len()),
                Err(e) => Err(e),
            },
            &forecast.ms,
        ),
    );
    checks.push(
        check(
            "nowcast/index",
            match &index.outcome {
                Ok(v) => Ok(v.len()),
                Err(e) => Err(e),
            },
            &index.ms,
        ),
    );
    assert(trees(checks@) =~= check_trees(latest, recent, felt, forecast, index));
    let healthy = latest.outcome.is_ok() && recent.outcome.is_ok() && felt.outcome.is_ok()
        && forecast.outcome.is_ok() && index.outcome.is_ok();
    let data = Json::object().with("healthy", Json::bool(healthy)).with(
        "version",
        Json::text(VERSION),
    ).with("checks", Json::array(checks));
    assert(data@->Object_0 =~= verdict_tree(
        healthy,
        check_trees(latest, recent, felt, forecast, index),
    )->Object_0);
    let mut r = json_ok(data, "bmkg-edge", 0, generated_at);
    if !healthy {
        r.status = 503;
    }
    r
}

pub open spec fn probe_tree() -> Tree {
    Tree::Object(
        seq![
            ("transport"@, Tree::Text("streamable-http"@)),
            ("protocolVersion"@, Tree::Text(PROTOCOL_VERSION@)),
            ("usage"@, Tree::Text("POST JSON-RPC 2.0 to this URL"@)),
        ],
    )
}

/// A GET on /mcp is a client checking whether the endpoint exists. Say what it is
/// rather than returning a bare 405, which reads as "broken" in a client's logs.
pub fn mcp_probe(generated_at: String) -> (r: Reply)
    ensures
        r.status == 200,
        r.body@ == success(probe_tree(), "bmkg-edge"@, 0, generated_at@),
        header_views(r.headers@) == decoration(0),
{
    let data = Json::object().with("transport", Json::text("streamable-http")).with(
        "protocolVersion",
        Json::text(PROTOCOL_VERSION),
    ).with("usage", Json::text("POST JSON-RPC 2.0 to this URL"));
    assert(data@->Object_0 =~= probe_tree()->Object_0);
    json_ok(data, "bmkg-edge", 0, generated_at)
}

pub open spec fn preflight_headers() -> Seq<(Seq<char>, Seq<char>)> {
    seq![
        ("access-control-allow-origin"@, "*"@),
        ("access-control-allow-methods"@, "GET, POST, OPTIONS"@),
        ("access-control-allow-headers"@, "content-type, mcp-session-id, mcp-protocol-version"@),
        ("access-control-max-age"@, "86400"@),
    ]
}

/// What a browser is told before it makes a request from another origin.
pub fn preflight() -> (r: TextReply)
    ensures
        r.status == 204,
        header_views(r.headers@) == preflight_headers(),
        r.body is None,
{
    let mut h: Vec<Header> = Vec::new();
    assert(header_views(h@) =~= Seq::empty());
    set_header(&mut h, "access-control-allow-origin", "*");
    set_header(&mut h, "access-control-allow-methods", "GET, POST, OPTIONS");
    set_header(
        &mut h,
        "access-control-allow-headers",
        "content-type, mcp-session-id, mcp-protocol-version",
    );
    set_header(&mut h, "access-control-max-age", "86400");
    assert(header_views(h@) =~= preflight_headers());
    TextReply { status: 204, headers: h, body: None }
}

// ------------------------------------------------------------------ laws

/// The words that name a route are never read as a code.
pub proof fn route_words_are_not_codes(req: RequestView, db: Option<Failure>)
    ensures
        match routed(req, db) {
            Ok(RouteView::Data(TaskView::WeatherForecast { adm4 })) => adm4 != "search"@,
            Ok(RouteView::Data(TaskView::WarningDetail { alert_code, .. })) => alert_code != "check"@,
            Ok(RouteView::Data(TaskView::Region { code })) => code != "provinces"@ && code != "districts"@ && code
                != "subdistricts"@ && code != "villages"@ && code != "search"@,
            _ => true,
        },
{
}

/// Slashes at the ends of a path and repeated slashes make no difference to its route.
pub proof fn only_segments_matter(req: RequestView, path: Seq<char>, db: Option<Failure>)
    requires
        segments(path) == segments(req.path),
    ensures
        routed(req, db) is Ok ==> routed(RequestView { path, ..req }, db) == routed(req, db),
        routed(req, db) is Err ==> routed(RequestView { path, ..req }, db) is Err,
{
}

/// The service is read-only: what is not a GET is a preflight, a POST to `/mcp`, or refused.
pub proof fn everything_else_is_refused(req: RequestView, db: Option<Failure>)
    requires
        req.method !is Get,
    ensures
        match routed(req, db) {
            Ok(RouteView::Preflight) => req.method is Options,
            Ok(RouteView::Mcp) => req.method is Post && segments(req.path) == seq!["mcp"@],
            Ok(_) => false,
            Err(f) => f is NotFound || f is BadRequest,
        },
{
    if req.method is Post && segments(req.path).len() == 1 && segments(req.path)[0] == "mcp"@ {
        assert(segments(req.path) =~= seq!["mcp"@]);
    }
}

/// A missing database only matters to the routes that need it.
pub proof fn the_database_only_matters_to_regions(req: RequestView, f: Failure)
    ensures
        routed(req, Some(f)) != routed(req, None) ==> match routed(req, Some(f)) {
            Err(g) => g == f,
            Ok(_) => false,
        },
        routed(req, Some(f)) matches Ok(RouteView::Data(task)) ==> !task.needs_database(),
{
}

} // verus!
