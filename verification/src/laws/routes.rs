//! Routes: which question each path asks, and with which parameters.

use vstd::prelude::*;
use crate::api::Failure;
use crate::laws::regions::{joined_parts_split_back, non_empty_of_two};
use crate::number::is_float;
use crate::parity::{is_get, words_differ};
use crate::router::{
    first_value, level_parameter, limit_parameter, number_parameter, parameter, routed, segments,
    Method, MethodView, Request, RequestView, Route, RouteView,
};
use crate::task::{Task, TaskView};
use crate::text::{
    decimal, decimal_reads_back, is_digit, join, non_empty, non_empty_push, trim, unsigned_value,
};

verus! {

// ------------------------------------------------------------------ requests and routes

/// A request is seen as it came: its method, its path, and its parameters in their order.
pub proof fn a_request_is_seen_as_it_came(req: Request)
    ensures
        req@.path == req.path@,
        req@.query.len() == req.query@.len(),
        forall|i: int|
            0 <= i < req.query@.len() ==> req@.query[i] == ((#[trigger] req.query@[i]).key@, req.query@[i].value@),
        match req.method {
            Method::Get => req@.method is Get,
            Method::Post => req@.method is Post,
            Method::Options => req@.method is Options,
            Method::Other(m) => req@.method == MethodView::Other(m@),
        },
{
}

/// What is decided is what is done: a task names its question and carries its parameters, each
/// under its own name.
pub proof fn a_task_carries_its_parameters(task: Task)
    ensures
        match task@ {
            TaskView::LatestEarthquake => task is LatestEarthquake,
            TaskView::RecentEarthquakes => task is RecentEarthquakes,
            TaskView::FeltEarthquakes => task is FeltEarthquakes,
            TaskView::NearbyEarthquakes { lat, lon, radius_km } => task matches Task::NearbyEarthquakes {
                lat: a,
                lon: b,
                radius_km: c,
            } && a@ == lat && b@ == lon && c@ == radius_km,
            TaskView::FindWeather { query } => task matches Task::FindWeather { query: a } && a@
                == query,
            TaskView::WeatherForecast { adm4 } => task matches Task::WeatherForecast { adm4: a }
                && a@ == adm4,
            TaskView::CurrentWeather { adm4 } => task matches Task::CurrentWeather { adm4: a } && a@
                == adm4,
            TaskView::Warnings { lang } => task matches Task::Warnings { lang: a } && a@ == lang,
            TaskView::WarningCheck { location, lang } => task matches Task::WarningCheck {
                location: a,
                lang: b,
            } && a@ == location && b@ == lang,
            TaskView::WarningDetail { alert_code, lang } => task matches Task::WarningDetail {
                alert_code: a,
                lang: b,
            } && a@ == alert_code && b@ == lang,
            TaskView::Provinces => task is Provinces,
            TaskView::Children { parent_code, expect_level } => task matches Task::Children {
                parent_code: a,
                expect_level: b,
            } && a@ == parent_code && b == expect_level,
            TaskView::RegionSearch { q, limit, level } => task matches Task::RegionSearch {
                q: a,
                limit: b,
                level: c,
            } && a@ == q && b == limit && (match (c, level) {
                (Some(x), Some(y)) => x == y,
                (None, None) => true,
                _ => false,
            }),
            TaskView::Region { code } => task matches Task::Region { code: a } && a@ == code,
        },
{
}

/// What is decided of a request is what it is answered with.
pub proof fn a_route_is_what_was_decided(r: Route)
    ensures
        match r@ {
            RouteView::Preflight => r is Preflight,
            RouteView::Landing => r is Landing,
            RouteView::Health => r is Health,
            RouteView::HealthDeep => r is HealthDeep,
            RouteView::McpProbe => r is McpProbe,
            RouteView::Mcp => r is Mcp,
            RouteView::OpenApi => r is OpenApi,
            RouteView::Data(t) => r matches Route::Data(task) && task@ == t,
        },
{
}

proof fn non_empty_keeps_all(ws: Seq<Seq<char>>)
    requires
        forall|i: int| 0 <= i < ws.len() ==> (#[trigger] ws[i]).len() > 0,
    ensures
        non_empty(ws) == ws,
    decreases ws.len(),
{
    if ws.len() == 0 {
        reveal(Seq::filter);
        assert(non_empty(ws) =~= ws);
    } else {
        let rest = ws.drop_last();
        let last = ws[ws.len() - 1];
        assert forall|i: int| 0 <= i < rest.len() implies (#[trigger] rest[i]).len() > 0 by {
            assert(rest[i] == ws[i]);
        }
        non_empty_keeps_all(rest);
        non_empty_push(rest, last);
        assert(ws =~= rest.push(last));
    }
}

proof fn nothing_is_left_of_nothing()
    ensures
        non_empty(seq![Seq::<char>::empty()]) == Seq::<Seq<char>>::empty(),
{
    let e = Seq::<Seq<char>>::empty();
    non_empty_keeps_all(e);
    non_empty_push(e, Seq::empty());
}

/// A path is its segments: what stands between its slashes, in their order.
pub proof fn a_path_is_its_segments(ws: Seq<Seq<char>>)
    requires
        forall|i: int|
            0 <= i < ws.len() ==> (#[trigger] ws[i]).len() > 0 && !ws[i].contains('/'),
    ensures
        segments(join(seq![Seq::<char>::empty()] + ws, seq!['/'])) == ws,
{
    let parts = seq![Seq::<char>::empty()] + ws;
    assert forall|i: int| 0 <= i < parts.len() implies !(#[trigger] parts[i]).contains('/') by {
        if i > 0 {
            assert(parts[i] == ws[i - 1]);
        }
    }
    joined_parts_split_back(parts, '/');
    nothing_is_left_of_nothing();
    non_empty_of_two(seq![Seq::<char>::empty()], ws);
    non_empty_keeps_all(ws);
    assert(Seq::<Seq<char>>::empty() + ws =~= ws);
}

// ------------------------------------------------------------------ parameters

proof fn first_value_after(
    a: Seq<(Seq<char>, Seq<char>)>,
    b: Seq<(Seq<char>, Seq<char>)>,
    key: Seq<char>,
)
    requires
        forall|i: int| 0 <= i < a.len() ==> (#[trigger] a[i]).0 != key,
    ensures
        first_value(a + b, key) == first_value(b, key),
    decreases a.len(),
{
    if a.len() == 0 {
        assert(a + b =~= b);
    } else {
        let rest = a.skip(1);
        assert(a[0].0 != key);
        assert((a + b)[0] == a[0]);
        assert((a + b).skip(1) =~= rest + b);
        assert forall|i: int| 0 <= i < rest.len() implies (#[trigger] rest[i]).0 != key by {
            assert(rest[i] == a[i + 1]);
        }
        first_value_after(rest, b, key);
    }
}

/// A parameter is the first value given under its key, without the white space around it; a
/// key that is not given, or first given as a blank, is no parameter.
pub proof fn a_parameter_is_the_first_value_given(
    before: Seq<(Seq<char>, Seq<char>)>,
    key: Seq<char>,
    value: Seq<char>,
    after: Seq<(Seq<char>, Seq<char>)>,
)
    requires
        forall|i: int| 0 <= i < before.len() ==> (#[trigger] before[i]).0 != key,
    ensures
        trim(value).len() > 0 ==> parameter(before + seq![(key, value)] + after, key) == Some(
            trim(value),
        ),
        trim(value).len() == 0 ==> parameter(before + seq![(key, value)] + after, key) is None,
        parameter(before, key) is None,
{
    let rest = seq![(key, value)] + after;
    assert(before + seq![(key, value)] + after =~= before + rest);
    assert(rest[0] == (key, value));
    first_value_after(before, rest, key);
    first_value_after(before, Seq::empty(), key);
    assert(before + Seq::<(Seq<char>, Seq<char>)>::empty() =~= before);
}

/// A number is a parameter that spells one; one that spells none is told apart from one that
/// is not given.
pub proof fn a_number_is_a_parameter_that_spells_one(
    query: Seq<(Seq<char>, Seq<char>)>,
    key: Seq<char>,
)
    ensures
        match parameter(query, key) {
            Some(v) => if is_float(v) {
                number_parameter(query, key) == Some(Ok::<Seq<char>, ()>(v))
            } else {
                number_parameter(query, key) == Some(Err::<Seq<char>, ()>(()))
            },
            None => number_parameter(query, key) is None,
        },
{
}

/// A whole number in decimal is read as that number, up to the most there is.
pub proof fn whole_numbers_are_read(n: nat, max: nat)
    ensures
        unsigned_value(decimal(n), max) == (if n <= max {
            Some(n)
        } else {
            None
        }),
{
    decimal_reads_back(n);
    assert(is_digit(decimal(n)[0]));
}

/// The number of hits and the level are what the parameters `limit` and `level` say in
/// decimal; without a limit, or with one that is no number, ten hits are meant, and without a
/// level all levels.
pub proof fn limits_and_levels_are_what_was_asked(
    query: Seq<(Seq<char>, Seq<char>)>,
    limit: u32,
    level: u8,
)
    ensures
        parameter(query, "limit"@) == Some(decimal(limit as nat)) ==> limit_parameter(query) == limit,
        parameter(query, "limit"@) is None ==> limit_parameter(query) == 10,
        parameter(query, "limit"@) matches Some(s) ==> (unsigned_value(s, u32::MAX as nat) is None
            ==> limit_parameter(query) == 10),
        parameter(query, "level"@) == Some(decimal(level as nat)) ==> level_parameter(query) == Some(
            level as nat,
        ),
        parameter(query, "level"@) is None ==> level_parameter(query) is None,
{
    whole_numbers_are_read(limit as nat, u32::MAX as nat);
    whole_numbers_are_read(level as nat, u8::MAX as nat);
}

// ------------------------------------------------------------------ the routes

/// The pages that need no data of BMKG's.
pub proof fn pages_of_our_own(req: RequestView, db: Option<Failure>)
    ensures
        is_get(req, Seq::empty()) ==> routed(req, db) == Ok::<RouteView, Failure>(RouteView::Landing),
        is_get(req, seq!["health"@]) ==> routed(req, db) == Ok::<RouteView, Failure>(
            RouteView::Health,
        ),
        is_get(req, seq!["health"@, "deep"@]) ==> routed(req, db) == Ok::<RouteView, Failure>(
            RouteView::HealthDeep,
        ),
        is_get(req, seq!["mcp"@]) ==> routed(req, db) == Ok::<RouteView, Failure>(
            RouteView::McpProbe,
        ),
        is_get(req, seq!["v1"@, "openapi.json"@]) ==> routed(req, db) == Ok::<RouteView, Failure>(
            RouteView::OpenApi,
        ),
        req.method is Post && segments(req.path) == seq!["mcp"@] ==> routed(req, db) == Ok::<
            RouteView,
            Failure,
        >(RouteView::Mcp),
        req.method is Options ==> routed(req, db) == Ok::<RouteView, Failure>(RouteView::Preflight),
{
    words_differ();
    reveal_strlit("mcp");
    reveal_strlit("health");
    assert("mcp"@.len() == 3 && "health"@.len() == 6);
    let s = segments(req.path);
    if is_get(req, seq!["health"@, "deep"@]) {
        assert(s[0] == "health"@ && s[1] == "deep"@);
    }
    if is_get(req, seq!["v1"@, "openapi.json"@]) {
        assert(s[0] == "v1"@ && s[1] == "openapi.json"@);
    }
}

/// The data that a route asks for.
pub open spec fn asks_for(req: RequestView, db: Option<Failure>, task: TaskView) -> bool {
    routed(req, db) == Ok::<RouteView, Failure>(RouteView::Data(task))
}

/// Each earthquake feed has its route.
pub proof fn feed_routes(req: RequestView, db: Option<Failure>)
    ensures
        is_get(req, seq!["v1"@, "earthquake"@, "latest"@]) ==> asks_for(
            req,
            db,
            TaskView::LatestEarthquake,
        ),
        is_get(req, seq!["v1"@, "earthquake"@, "recent"@]) ==> asks_for(
            req,
            db,
            TaskView::RecentEarthquakes,
        ),
        is_get(req, seq!["v1"@, "earthquake"@, "felt"@]) ==> asks_for(
            req,
            db,
            TaskView::FeltEarthquakes,
        ),
{
    words_differ();
    let s = segments(req.path);
    if s.len() == 3 {
        assert(s.skip(2) =~= seq![s[2]]);
    }
}

/// A search around a point is asked for with `lat`, `lon` and `radius_km`, each the number
/// under its own name, and 500 km where no radius is given.
pub proof fn nearby_route(
    req: RequestView,
    db: Option<Failure>,
    lat: Seq<char>,
    lon: Seq<char>,
    radius_km: Seq<char>,
)
    requires
        is_get(req, seq!["v1"@, "earthquake"@, "nearby"@]),
    ensures
        parameter(req.query, "lat"@) == Some(lat) && is_float(lat) && parameter(req.query, "lon"@)
            == Some(lon) && is_float(lon) && parameter(req.query, "radius_km"@) == Some(radius_km)
            && is_float(radius_km) ==> asks_for(
            req,
            db,
            TaskView::NearbyEarthquakes { lat, lon, radius_km },
        ),
        parameter(req.query, "lat"@) == Some(lat) && is_float(lat) && parameter(req.query, "lon"@)
            == Some(lon) && is_float(lon) && parameter(req.query, "radius_km"@) is None
            ==> asks_for(
            req,
            db,
            TaskView::NearbyEarthquakes { lat, lon, radius_km: seq!['5', '0', '0'] },
        ),
        parameter(req.query, "lat"@) is None || parameter(req.query, "lon"@) is None ==> (routed(
            req,
            db,
        ) matches Err(f) && f is BadRequest),
        parameter(req.query, "lat"@) == Some(lat) && !is_float(lat) ==> (routed(
            req,
            db,
        ) matches Err(f) && f is BadRequest),
        parameter(req.query, "lon"@) == Some(lon) && !is_float(lon) ==> (routed(
            req,
            db,
        ) matches Err(f) && f is BadRequest),
        parameter(req.query, "radius_km"@) == Some(radius_km) && !is_float(radius_km) ==> (routed(
            req,
            db,
        ) matches Err(f) && f is BadRequest),
{
    words_differ();
    let s = segments(req.path);
    assert(s.skip(2) =~= seq!["nearby"@]);
    reveal_with_fuel(decimal, 4);
    assert(decimal(500) =~= seq!['5', '0', '0']);
}

/// A forecast and the weather of now are asked for by the code in the path, a forecast by
/// name with `q`.
pub proof fn weather_routes(
    req: RequestView,
    db: Option<Failure>,
    adm4: Seq<char>,
    q: Seq<char>,
)
    ensures
        is_get(req, seq!["v1"@, "weather"@, adm4]) && adm4 != "search"@ ==> asks_for(
            req,
            db,
            TaskView::WeatherForecast { adm4 },
        ),
        is_get(req, seq!["v1"@, "weather"@, adm4, "current"@]) ==> asks_for(
            req,
            db,
            TaskView::CurrentWeather { adm4 },
        ),
        is_get(req, seq!["v1"@, "weather"@, "search"@]) ==> match (parameter(req.query, "q"@), db) {
            (Some(p), None) => asks_for(req, db, TaskView::FindWeather { query: p }),
            (Some(_), Some(f)) => routed(req, db) == Err::<RouteView, Failure>(f),
            (None, _) => routed(req, db) matches Err(f) && f is BadRequest,
        },
{
    words_differ();
    let s = segments(req.path);
    if s.len() == 3 {
        assert(s.skip(2) =~= seq![s[2]]);
    }
    if s.len() == 4 {
        assert(s.skip(2) =~= seq![s[2], s[3]]);
    }
}

/// Warnings are asked for in the language that `lang` gives, English by default: all of them,
/// those for a place under `location` or else `q`, or the one with the code in the path.
pub proof fn warning_routes(req: RequestView, db: Option<Failure>, alert_code: Seq<char>)
    ensures
        ({
            let lang = match parameter(req.query, "lang"@) {
                Some(l) => l,
                None => "en"@,
            };
            &&& is_get(req, seq!["v1"@, "nowcast"@]) ==> asks_for(req, db, TaskView::Warnings { lang })
            &&& is_get(req, seq!["v1"@, "nowcast"@, alert_code]) && alert_code != "check"@ ==> asks_for(
                req,
                db,
                TaskView::WarningDetail { alert_code, lang },
            )
            &&& is_get(req, seq!["v1"@, "nowcast"@, "check"@]) ==> match (
                parameter(req.query, "location"@),
                parameter(req.query, "q"@),
            ) {
                (Some(location), _) => asks_for(req, db, TaskView::WarningCheck { location, lang }),
                (None, Some(location)) => asks_for(
                    req,
                    db,
                    TaskView::WarningCheck { location, lang },
                ),
                (None, None) => routed(req, db) matches Err(f) && f is BadRequest,
            }
        }),
{
    words_differ();
    let s = segments(req.path);
    if s.len() == 2 {
        assert(s.skip(2) =~= Seq::empty());
    }
    if s.len() == 3 {
        assert(s.skip(2) =~= seq![s[2]]);
    }
}

/// The levels below a region are asked for by the code of the region, a search by `q` with
/// its limit and level, and one region by the code in the path.
pub proof fn region_routes(req: RequestView, code: Seq<char>)
    ensures
        is_get(req, seq!["v1"@, "wilayah"@, "provinces"@]) ==> asks_for(
            req,
            None,
            TaskView::Provinces,
        ),
        is_get(req, seq!["v1"@, "wilayah"@, "districts"@]) ==> match parameter(
            req.query,
            "province_code"@,
        ) {
            Some(p) => asks_for(req, None, TaskView::Children { parent_code: p, expect_level: 2 }),
            None => routed(req, None) matches Err(f) && f is BadRequest,
        },
        is_get(req, seq!["v1"@, "wilayah"@, "subdistricts"@]) ==> match parameter(
            req.query,
            "district_code"@,
        ) {
            Some(p) => asks_for(req, None, TaskView::Children { parent_code: p, expect_level: 3 }),
            None => routed(req, None) matches Err(f) && f is BadRequest,
        },
        is_get(req, seq!["v1"@, "wilayah"@, "villages"@]) ==> match parameter(
            req.query,
            "subdistrict_code"@,
        ) {
            Some(p) => asks_for(req, None, TaskView::Children { parent_code: p, expect_level: 4 }),
            None => routed(req, None) matches Err(f) && f is BadRequest,
        },
        is_get(req, seq!["v1"@, "wilayah"@, "search"@]) ==> match parameter(req.query, "q"@) {
            Some(q) => asks_for(
                req,
                None,
                TaskView::RegionSearch {
                    q,
                    limit: limit_parameter(req.query),
                    level: level_parameter(req.query),
                },
            ),
            None => routed(req, None) matches Err(f) && f is BadRequest,
        },
        is_get(req, seq!["v1"@, "wilayah"@, code]) && code != "provinces"@ && code != "districts"@
            && code != "subdistricts"@ && code != "villages"@ && code != "search"@ ==> asks_for(
            req,
            None,
            TaskView::Region { code },
        ),
{
    words_differ();
    let s = segments(req.path);
    if s.len() == 3 {
        assert(s.skip(2) =~= seq![s[2]]);
    }
}

/// Without a database every question about regions fails as the database did.
pub proof fn regions_need_the_database(req: RequestView, f: Failure)
    requires
        req.method is Get,
        segments(req.path).len() >= 2,
        segments(req.path)[0] == "v1"@,
        segments(req.path)[1] == "wilayah"@,
    ensures
        routed(req, Some(f)) == Err::<RouteView, Failure>(f),
{
    words_differ();
    reveal_strlit("wilayah");
    reveal_strlit("openapi.json");
    assert("wilayah"@.len() == 7 && "openapi.json"@.len() == 12);
}

/// A path outside the groups of routes is not found.
pub proof fn other_paths_are_not_found(req: RequestView, db: Option<Failure>)
    requires
        req.method is Get,
        segments(req.path).len() >= 1,
        segments(req.path)[0] != "health"@,
        segments(req.path)[0] != "mcp"@,
        segments(req.path)[0] != "v1"@ || segments(req.path).len() == 1 || (segments(req.path)[1]
            != "openapi.json"@ && segments(req.path)[1] != "earthquake"@ && segments(req.path)[1]
            != "weather"@ && segments(req.path)[1] != "nowcast"@ && segments(req.path)[1]
            != "wilayah"@),
    ensures
        routed(req, db) matches Err(f) && f is NotFound && f.status() == 404,
{
}

} // verus!
