//! Tool calls and routes side by side: the same question is the same task.
//!
//! Nothing here runs. Each law takes a tool and the GET route for the same question, and says
//! that both come to the same task or the same error, whether or not there is a database. What
//! is then answered for a task is one outcome, which both carry back.

use vstd::prelude::*;
use crate::api::Failure;
use crate::json::Tree;
use crate::mcp::{all_tools, text_argument, tool_names_differ, tool_plan};
use crate::router::{number_parameter, parameter, routed, segments, RequestView, RouteView};
use crate::task::TaskView;
use crate::text::{split, trim, trim_is_tight, unsigned_value};
use crate::wilayah::{children_have_the_level_asked_for, children_result, RegionView};

verus! {

/// A tool's plan as the route to the same task.
pub open spec fn as_route(plan: Result<TaskView, Failure>) -> Result<RouteView, Failure> {
    match plan {
        Ok(task) => Ok(RouteView::Data(task)),
        Err(f) => Err(f),
    }
}

/// The request and the tool call come to the same task, or to the same error.
pub open spec fn agree(
    req: RequestView,
    name: Seq<char>,
    args: Tree,
    db: Option<Failure>,
) -> bool {
    routed(req, db) == as_route(tool_plan(name, args, db))
}

/// A GET request for the path with these segments.
pub open spec fn is_get(req: RequestView, s: Seq<Seq<char>>) -> bool {
    req.method is Get && segments(req.path) == s
}

/// Both give this text.
pub open spec fn same_text(req: RequestView, key: Seq<char>, args: Tree, name: Seq<char>) -> bool {
    parameter(req.query, key) is Some && args.member_text(name) == parameter(req.query, key)
}

/// Both give this number, or neither does.
pub open spec fn same_number(req: RequestView, args: Tree, key: Seq<char>) -> bool {
    match number_parameter(req.query, key) {
        Some(Ok(n)) => args.member_number(key) == Some(n),
        Some(Err(_)) => false,
        None => args.member_number(key) is None,
    }
}

/// Both give this whole number, which is at most `max`, or neither does.
pub open spec fn same_whole(req: RequestView, args: Tree, key: Seq<char>, max: nat) -> bool {
    match parameter(req.query, key) {
        Some(s) => unsigned_value(s, max) is Some && args.member_unsigned(key) == unsigned_value(
            s,
            max,
        ),
        None => args.member_unsigned(key) is None,
    }
}

/// Both ask for the same language, or neither for any.
pub open spec fn same_language(req: RequestView, args: Tree) -> bool {
    args.member_text("lang"@) == parameter(req.query, "lang"@)
}

/// A parameter is never blank, so a tool takes the same text.
proof fn a_parameter_is_not_blank(query: Seq<(Seq<char>, Seq<char>)>, key: Seq<char>)
    ensures
        parameter(query, key) matches Some(v) ==> trim(v).len() > 0,
{
    match crate::router::first_value(query, key) {
        Some(v) => {
            trim_is_tight(v);
        },
        None => {},
    }
}

/// The tools in the order in which they are listed, no two with the same name.
pub proof fn tools_by_name()
    ensures
        all_tools()[0].name == "get_latest_earthquake"@,
        all_tools()[1].name == "get_recent_earthquakes"@,
        all_tools()[2].name == "get_felt_earthquakes"@,
        all_tools()[3].name == "get_nearby_earthquakes"@,
        all_tools()[4].name == "find_weather"@,
        all_tools()[5].name == "get_weather_forecast"@,
        all_tools()[6].name == "get_current_weather"@,
        all_tools()[7].name == "get_weather_warnings"@,
        all_tools()[8].name == "check_location_warnings"@,
        all_tools()[9].name == "get_warning_detail"@,
        all_tools()[10].name == "search_regions"@,
        all_tools()[11].name == "list_regions"@,
        all_tools().len() == 12,
        forall|i: int, j: int|
            0 <= i < 12 && 0 <= j < 12 && i != j ==> (#[trigger] all_tools()[i]).name != (
            #[trigger] all_tools()[j]).name,
{
    tool_names_differ();
    assert(all_tools().len() == 12);
}

/// The words of a path that are told apart on the way to a task.
pub proof fn words_differ()
    ensures
        "v1"@ != "health"@,
        "nowcast"@ != "openapi.json"@,
        "weather"@ != "earthquake"@,
        "nowcast"@ != "earthquake"@,
        "nowcast"@ != "weather"@,
        "wilayah"@ != "earthquake"@,
        "wilayah"@ != "weather"@,
        "wilayah"@ != "nowcast"@,
        "recent"@ != "latest"@,
        "felt"@ != "latest"@,
        "felt"@ != "recent"@,
        "nearby"@ != "latest"@,
        "nearby"@ != "recent"@,
        "nearby"@ != "felt"@,
        "districts"@ != "provinces"@,
        "subdistricts"@ != "provinces"@,
        "subdistricts"@ != "districts"@,
        "villages"@ != "provinces"@,
        "villages"@ != "districts"@,
        "villages"@ != "subdistricts"@,
        "search"@ != "provinces"@,
        "search"@ != "districts"@,
        "search"@ != "subdistricts"@,
        "search"@ != "villages"@,
{
    reveal_strlit("v1");
    reveal_strlit("health");
    reveal_strlit("openapi.json");
    reveal_strlit("earthquake");
    reveal_strlit("weather");
    reveal_strlit("nowcast");
    reveal_strlit("wilayah");
    reveal_strlit("latest");
    reveal_strlit("recent");
    reveal_strlit("felt");
    reveal_strlit("nearby");
    reveal_strlit("provinces");
    reveal_strlit("districts");
    reveal_strlit("subdistricts");
    reveal_strlit("villages");
    reveal_strlit("search");
    assert("v1"@.len() == 2
        && "health"@.len() == 6
        && "openapi.json"@.len() == 12
        && "earthquake"@.len() == 10
        && "weather"@.len() == 7
        && "nowcast"@.len() == 7
        && "wilayah"@.len() == 7
        && "latest"@.len() == 6
        && "recent"@.len() == 6
        && "felt"@.len() == 4
        && "nearby"@.len() == 6
        && "provinces"@.len() == 9
        && "districts"@.len() == 9
        && "subdistricts"@.len() == 12
        && "villages"@.len() == 8
        && "search"@.len() == 6);
    assert("weather"@[1] == 'e' && "wilayah"@[1] == 'i' && "nowcast"@[1] == 'o');
    assert("latest"@[0] == 'l' && "recent"@[0] == 'r' && "nearby"@[0] == 'n');
    assert("provinces"@[0] == 'p' && "districts"@[0] == 'd');
}

/// `get_latest_earthquake` is `/v1/earthquake/latest`.
pub proof fn latest_agrees(req: RequestView, args: Tree, db: Option<Failure>)
    requires
        is_get(req, seq!["v1"@, "earthquake"@, "latest"@]),
    ensures
        agree(req, "get_latest_earthquake"@, args, db),
{
    tools_by_name();
    words_differ();
    assert(segments(req.path).skip(2) =~= seq!["latest"@]);
}

/// `get_recent_earthquakes` is `/v1/earthquake/recent`.
pub proof fn recent_agrees(req: RequestView, args: Tree, db: Option<Failure>)
    requires
        is_get(req, seq!["v1"@, "earthquake"@, "recent"@]),
    ensures
        agree(req, "get_recent_earthquakes"@, args, db),
{
    tools_by_name();
    words_differ();
    assert(segments(req.path).skip(2) =~= seq!["recent"@]);
}

/// `get_felt_earthquakes` is `/v1/earthquake/felt`.
pub proof fn felt_agrees(req: RequestView, args: Tree, db: Option<Failure>)
    requires
        is_get(req, seq!["v1"@, "earthquake"@, "felt"@]),
    ensures
        agree(req, "get_felt_earthquakes"@, args, db),
{
    tools_by_name();
    words_differ();
    assert(segments(req.path).skip(2) =~= seq!["felt"@]);
}

/// `get_nearby_earthquakes` is `/v1/earthquake/nearby`, with the same point and the same
/// radius, or 500 km in both where none is given.
pub proof fn nearby_agrees(req: RequestView, args: Tree, db: Option<Failure>)
    requires
        is_get(req, seq!["v1"@, "earthquake"@, "nearby"@]),
        number_parameter(req.query, "lat"@) is Some,
        number_parameter(req.query, "lon"@) is Some,
        same_number(req, args, "lat"@),
        same_number(req, args, "lon"@),
        same_number(req, args, "radius_km"@),
    ensures
        agree(req, "get_nearby_earthquakes"@, args, db),
{
    tools_by_name();
    words_differ();
    assert(segments(req.path).skip(2) =~= seq!["nearby"@]);
}

/// `find_weather` is `/v1/weather/search`.
pub proof fn find_weather_agrees(req: RequestView, args: Tree, db: Option<Failure>)
    requires
        is_get(req, seq!["v1"@, "weather"@, "search"@]),
        same_text(req, "q"@, args, "query"@),
    ensures
        agree(req, "find_weather"@, args, db),
{
    tools_by_name();
    words_differ();
    assert(segments(req.path).skip(2) =~= seq!["search"@]);
    a_parameter_is_not_blank(req.query, "q"@);
}

/// `get_weather_forecast` is `/v1/weather/{adm4}`, for every code that is not the word of a
/// route.
pub proof fn forecast_agrees(adm4: Seq<char>, req: RequestView, args: Tree, db: Option<Failure>)
    requires
        is_get(req, seq!["v1"@, "weather"@, adm4]),
        adm4 != "search"@,
        trim(adm4).len() > 0,
        args.member_text("adm4"@) == Some(adm4),
    ensures
        agree(req, "get_weather_forecast"@, args, db),
{
    tools_by_name();
    words_differ();
    assert(segments(req.path).skip(2) =~= seq![adm4]);
}

/// `get_current_weather` is `/v1/weather/{adm4}/current`.
pub proof fn current_agrees(adm4: Seq<char>, req: RequestView, args: Tree, db: Option<Failure>)
    requires
        is_get(req, seq!["v1"@, "weather"@, adm4, "current"@]),
        trim(adm4).len() > 0,
        args.member_text("adm4"@) == Some(adm4),
    ensures
        agree(req, "get_current_weather"@, args, db),
{
    tools_by_name();
    words_differ();
    assert(segments(req.path).skip(2) =~= seq![adm4, "current"@]);
}

/// `get_weather_warnings` is `/v1/nowcast`, in the same language, or English in both where
/// none is given.
pub proof fn warnings_agree(req: RequestView, args: Tree, db: Option<Failure>)
    requires
        is_get(req, seq!["v1"@, "nowcast"@]),
        same_language(req, args),
    ensures
        agree(req, "get_weather_warnings"@, args, db),
{
    tools_by_name();
    words_differ();
    assert(segments(req.path).skip(2) =~= Seq::empty());
}

/// `check_location_warnings` is `/v1/nowcast/check`.
pub proof fn location_warnings_agree(req: RequestView, args: Tree, db: Option<Failure>)
    requires
        is_get(req, seq!["v1"@, "nowcast"@, "check"@]),
        same_text(req, "location"@, args, "location"@),
        same_language(req, args),
    ensures
        agree(req, "check_location_warnings"@, args, db),
{
    tools_by_name();
    words_differ();
    assert(segments(req.path).skip(2) =~= seq!["check"@]);
    a_parameter_is_not_blank(req.query, "location"@);
}

/// `get_warning_detail` is `/v1/nowcast/{alert_code}`, for every code that is not the word of
/// a route.
pub proof fn warning_detail_agrees(alert_code: Seq<char>, req: RequestView, args: Tree, db: Option<Failure>)
    requires
        is_get(req, seq!["v1"@, "nowcast"@, alert_code]),
        alert_code != "check"@,
        trim(alert_code).len() > 0,
        args.member_text("alert_code"@) == Some(alert_code),
        same_language(req, args),
    ensures
        agree(req, "get_warning_detail"@, args, db),
{
    tools_by_name();
    words_differ();
    assert(segments(req.path).skip(2) =~= seq![alert_code]);
}

/// `search_regions` is `/v1/wilayah/search`, with the same limit, or ten hits in both where
/// none is given, and the same level, if any.
pub proof fn region_search_agrees(req: RequestView, args: Tree, db: Option<Failure>)
    requires
        is_get(req, seq!["v1"@, "wilayah"@, "search"@]),
        same_text(req, "q"@, args, "q"@),
        same_whole(req, args, "limit"@, u32::MAX as nat),
        same_whole(req, args, "level"@, u8::MAX as nat),
    ensures
        agree(req, "search_regions"@, args, db),
{
    tools_by_name();
    words_differ();
    assert(segments(req.path).skip(2) =~= seq!["search"@]);
    a_parameter_is_not_blank(req.query, "q"@);
}

/// `list_regions` without a parent code, or with a blank one, is `/v1/wilayah/provinces`.
pub proof fn province_list_agrees(req: RequestView, args: Tree, db: Option<Failure>)
    requires
        is_get(req, seq!["v1"@, "wilayah"@, "provinces"@]),
        text_argument(args, "parent_code"@) is Err,
    ensures
        agree(req, "list_regions"@, args, db),
{
    tools_by_name();
    words_differ();
    assert(segments(req.path).skip(2) =~= seq!["provinces"@]);
}

/// `list_regions` with the code of a province is `/v1/wilayah/districts`.
pub proof fn district_list_agrees(req: RequestView, args: Tree, db: Option<Failure>)
    requires
        is_get(req, seq!["v1"@, "wilayah"@, "districts"@]),
        same_text(req, "province_code"@, args, "parent_code"@),
        split(parameter(req.query, "province_code"@)->0, '.').len() == 1,
    ensures
        agree(req, "list_regions"@, args, db),
{
    tools_by_name();
    words_differ();
    assert(segments(req.path).skip(2) =~= seq!["districts"@]);
    a_parameter_is_not_blank(req.query, "province_code"@);
}

/// `list_regions` with the code of a kabupaten/kota is `/v1/wilayah/subdistricts`.
pub proof fn subdistrict_list_agrees(req: RequestView, args: Tree, db: Option<Failure>)
    requires
        is_get(req, seq!["v1"@, "wilayah"@, "subdistricts"@]),
        same_text(req, "district_code"@, args, "parent_code"@),
        split(parameter(req.query, "district_code"@)->0, '.').len() == 2,
    ensures
        agree(req, "list_regions"@, args, db),
{
    tools_by_name();
    words_differ();
    assert(segments(req.path).skip(2) =~= seq!["subdistricts"@]);
    a_parameter_is_not_blank(req.query, "district_code"@);
}

/// `list_regions` with the code of a kecamatan is `/v1/wilayah/villages`.
pub proof fn village_list_agrees(req: RequestView, args: Tree, db: Option<Failure>)
    requires
        is_get(req, seq!["v1"@, "wilayah"@, "villages"@]),
        same_text(req, "subdistrict_code"@, args, "parent_code"@),
        split(parameter(req.query, "subdistrict_code"@)->0, '.').len() == 3,
    ensures
        agree(req, "list_regions"@, args, db),
{
    tools_by_name();
    words_differ();
    assert(segments(req.path).skip(2) =~= seq!["villages"@]);
    a_parameter_is_not_blank(req.query, "subdistrict_code"@);
}

/// `/districts`, `/subdistricts` and `/villages` list regions of that level only: what such a
/// route answers with is not empty, and every region in it is a kabupaten/kota, a kecamatan or
/// a desa/kelurahan, and a child of the given code wherever the rows found for it are.
pub proof fn child_routes_list_their_level(
    word: Seq<char>,
    key: Seq<char>,
    level: nat,
    code: Seq<char>,
    req: RequestView,
    rows: Seq<RegionView>,
)
    requires
        is_get(req, seq!["v1"@, "wilayah"@, word]),
        (word == "districts"@ && key == "province_code"@ && level == 2) || (word == "subdistricts"@
            && key == "district_code"@ && level == 3) || (word == "villages"@ && key
            == "subdistrict_code"@ && level == 4),
        parameter(req.query, key) == Some(code),
    ensures
        routed(req, None) == Ok::<RouteView, Failure>(
            RouteView::Data(TaskView::Children { parent_code: code, expect_level: level }),
        ),
        children_result(code, level, Ok(rows)) matches Ok(v) ==> {
            &&& v.len() > 0
            &&& forall|i: int|
                0 <= i < v.len() ==> (#[trigger] v[i]).level == level && rows.contains(v[i])
            &&& (forall|k: int| 0 <= k < rows.len() ==> (#[trigger] rows[k]).parent == Some(code))
                ==> (forall|i: int| 0 <= i < v.len() ==> (#[trigger] v[i]).parent == Some(code))
        },
{
    words_differ();
    assert(segments(req.path).skip(2) =~= seq![word]);
    children_have_the_level_asked_for(code, level, rows);
}

} // verus!
