//! Tools: what each call asks for, and how messages are answered.

use vstd::prelude::*;
use crate::api::Failure;
use crate::json::{Json, Tree};
use crate::laws::responses::lookups;
use crate::mcp::{
    all_tools, answer_tree, answered, body_tree, call_tree, dispatched, error_tree,
    initialize_tree, number_argument, text_argument, tool_plan, tool_trees, Answers, DispatchView,
    Kind, PropertyView, ToolView,
};
use crate::parity::tools_by_name;
use crate::task::TaskView;
use crate::text::{decimal, split, trim};

verus! {

// ------------------------------------------------------------------ what a call asks for

/// The tool asks for this.
pub open spec fn plans(name: Seq<char>, args: Tree, task: TaskView) -> bool {
    tool_plan(name, args, None) == Ok::<TaskView, Failure>(task)
}

/// A text argument is the text under its name, unless that is blank; without one the call is a
/// bad request.
pub proof fn a_text_argument_is_the_text_under_its_name(args: Tree, key: Seq<char>)
    ensures
        match args.member(key) {
            Some(Tree::Text(s)) => if trim(s).len() > 0 {
                text_argument(args, key) == Ok::<Seq<char>, Failure>(s)
            } else {
                text_argument(args, key) matches Err(f) && f is BadRequest
            },
            _ => text_argument(args, key) matches Err(f) && f is BadRequest,
        },
{
}

/// A number argument is the number under its name, in whichever form it stands there; without
/// one the call is a bad request.
pub proof fn a_number_argument_is_the_number_under_its_name(args: Tree, key: Seq<char>)
    ensures
        match args.member(key) {
            Some(Tree::Float(s)) => number_argument(args, key) == Ok::<Seq<char>, Failure>(s),
            Some(Tree::Unsigned(n)) => number_argument(args, key) == Ok::<Seq<char>, Failure>(
                decimal(n),
            ),
            Some(Tree::Signed(n)) => number_argument(args, key) == Ok::<Seq<char>, Failure>(
                if n < 0 {
                    seq!['-'] + decimal((-n) as nat)
                } else {
                    decimal(n as nat)
                },
            ),
            _ => number_argument(args, key) matches Err(f) && f is BadRequest,
        },
{
}

/// Each tool for an earthquake feed asks for that feed, and the one for a point asks with the
/// numbers under `lat`, `lon` and `radius_km`, 500 km where no radius is given.
pub proof fn earthquake_tools_ask_for_earthquakes(
    args: Tree,
    lat: Seq<char>,
    lon: Seq<char>,
    radius_km: Seq<char>,
)
    ensures
        plans("get_latest_earthquake"@, args, TaskView::LatestEarthquake),
        plans("get_recent_earthquakes"@, args, TaskView::RecentEarthquakes),
        plans("get_felt_earthquakes"@, args, TaskView::FeltEarthquakes),
        args.member_number("lat"@) == Some(lat) && args.member_number("lon"@) == Some(lon)
            && args.member_number("radius_km"@) == Some(radius_km) ==> plans(
            "get_nearby_earthquakes"@,
            args,
            TaskView::NearbyEarthquakes { lat, lon, radius_km },
        ),
        args.member_number("lat"@) == Some(lat) && args.member_number("lon"@) == Some(lon)
            && args.member_number("radius_km"@) is None ==> plans(
            "get_nearby_earthquakes"@,
            args,
            TaskView::NearbyEarthquakes { lat, lon, radius_km: seq!['5', '0', '0'] },
        ),
        args.member_number("lat"@) is None || args.member_number("lon"@) is None ==> (tool_plan(
            "get_nearby_earthquakes"@,
            args,
            None,
        ) matches Err(f) && f is BadRequest),
{
    tools_by_name();
    reveal_with_fuel(decimal, 4);
    assert(decimal(500) =~= seq!['5', '0', '0']);
}

/// The argument is there, and not blank.
pub open spec fn is_told(args: Tree, key: Seq<char>, s: Seq<char>) -> bool {
    args.member(key) == Some(Tree::Text(s)) && trim(s).len() > 0
}

/// The language under `lang`, English where none is given.
pub open spec fn told_language(args: Tree) -> Seq<char> {
    match args.member("lang"@) {
        Some(Tree::Text(l)) => l,
        _ => "en"@,
    }
}

/// Each tool for the weather asks for the place under its argument, and each for warnings for
/// the place or the code under its own, in the language asked for.
pub proof fn weather_tools_ask_for_the_place_given(args: Tree, s: Seq<char>)
    ensures
        is_told(args, "adm4"@, s) ==> plans(
            "get_weather_forecast"@,
            args,
            TaskView::WeatherForecast { adm4: s },
        ),
        is_told(args, "adm4"@, s) ==> plans(
            "get_current_weather"@,
            args,
            TaskView::CurrentWeather { adm4: s },
        ),
        is_told(args, "query"@, s) ==> plans(
            "find_weather"@,
            args,
            TaskView::FindWeather { query: s },
        ),
        plans("get_weather_warnings"@, args, TaskView::Warnings { lang: told_language(args) }),
        is_told(args, "location"@, s) ==> plans(
            "check_location_warnings"@,
            args,
            TaskView::WarningCheck { location: s, lang: told_language(args) },
        ),
        is_told(args, "alert_code"@, s) ==> plans(
            "get_warning_detail"@,
            args,
            TaskView::WarningDetail { alert_code: s, lang: told_language(args) },
        ),
{
    tools_by_name();
}

/// A search for regions asks for the words, the number of hits and the level given: ten hits
/// and all levels where they are not.
pub proof fn a_region_tool_searches_for_what_was_given(args: Tree, q: Seq<char>, limit: u32, level: u8)
    requires
        is_told(args, "q"@, q),
    ensures
        args.member("limit"@) == Some(Tree::Unsigned(limit as nat)) && args.member("level"@) == Some(
            Tree::Unsigned(level as nat),
        ) ==> plans(
            "search_regions"@,
            args,
            TaskView::RegionSearch { q, limit: limit as nat, level: Some(level as nat) },
        ),
        args.member("limit"@) is None && args.member("level"@) is None ==> plans(
            "search_regions"@,
            args,
            TaskView::RegionSearch { q, limit: 10, level: None },
        ),
{
    tools_by_name();
}

/// Regions are listed one level below the code given, which has one level for each of its
/// segments, and the provinces where none is given.
pub proof fn a_region_tool_lists_the_level_below(args: Tree, code: Seq<char>)
    ensures
        is_told(args, "parent_code"@, code) && split(code, '.').len() <= 4 ==> plans(
            "list_regions"@,
            args,
            TaskView::Children {
                parent_code: code,
                expect_level: (split(code, '.').len() + 1) as nat,
            },
        ),
        args.member("parent_code"@) is None ==> plans("list_regions"@, args, TaskView::Provinces),
{
    tools_by_name();
}

/// A tool of any other name is not found.
pub proof fn other_tools_are_not_found(name: Seq<char>, args: Tree, db: Option<Failure>)
    requires
        forall|i: int| 0 <= i < all_tools().len() ==> name != (#[trigger] all_tools()[i]).name,
    ensures
        tool_plan(name, args, db) matches Err(f) && f is NotFound,
{
    tools_by_name();
    let all = all_tools();
    assert(name != all[0].name && name != all[1].name && name != all[2].name && name != all[3].name
        && name != all[4].name && name != all[5].name && name != all[6].name && name != all[7].name
        && name != all[8].name && name != all[9].name && name != all[10].name && name
        != all[11].name);
}

// ------------------------------------------------------------------ messages

/// The answer has this under `result`, in the form of the protocol.
pub open spec fn results_in(d: DispatchView, id: Tree, result: Tree) -> bool {
    d matches DispatchView::Reply(t) && t.member("jsonrpc"@) == Some(Tree::Text("2.0"@)) && t.member(
        "id"@,
    ) == Some(id) && t.member("result"@) == Some(result) && t.member("error"@) is None
}

proof fn answers_have_three_members(id: Tree, value: Tree)
    ensures
        answer_tree(id, "result"@, value).member("jsonrpc"@) == Some(Tree::Text("2.0"@)),
        answer_tree(id, "result"@, value).member("id"@) == Some(id),
        answer_tree(id, "result"@, value).member("result"@) == Some(value),
        answer_tree(id, "result"@, value).member("error"@) is None,
        answer_tree(id, "error"@, value).member("jsonrpc"@) == Some(Tree::Text("2.0"@)),
        answer_tree(id, "error"@, value).member("id"@) == Some(id),
        answer_tree(id, "error"@, value).member("error"@) == Some(value),
        answer_tree(id, "error"@, value).member("result"@) is None,
{
    lookups();
    reveal_strlit("jsonrpc");
    reveal_strlit("id");
    reveal_strlit("result");
    reveal_strlit("error");
    assert("jsonrpc"@.len() == 7
        && "id"@.len() == 2
        && "result"@.len() == 6
        && "error"@.len() == 5);
    let r = answer_tree(id, "result"@, value);
    let e = answer_tree(id, "error"@, value);
    assert(r->Object_0 =~= Seq::<(Seq<char>, Tree)>::empty().push(r->Object_0[0]).push(r->Object_0[1]).push(r->Object_0[2]));
    assert(e->Object_0 =~= Seq::<(Seq<char>, Tree)>::empty().push(e->Object_0[0]).push(e->Object_0[1]).push(e->Object_0[2]));
}

proof fn methods_differ()
    ensures
        "initialize"@ != "ping"@,
        "initialize"@ != "tools/list"@,
        "initialize"@ != "tools/call"@,
        "ping"@ != "tools/list"@,
        "ping"@ != "tools/call"@,
        "tools/list"@ != "tools/call"@,
{
    reveal_strlit("initialize");
    reveal_strlit("ping");
    reveal_strlit("tools/list");
    reveal_strlit("tools/call");
    assert("initialize"@.len() == 10
        && "ping"@.len() == 4
        && "tools/list"@.len() == 10
        && "tools/call"@.len() == 10
        && "initialize"@[8] == 'z'
        && "tools/list"@[8] == 's'
        && "tools/call"@[8] == 'l');
}

/// Each method is answered with what it asks for: `initialize` with the protocol and the
/// server, `ping` with nothing, `tools/list` with every tool in its order, and `tools/call`
/// with the call of the tool named, with its arguments. Any other is a method not found.
pub proof fn each_method_is_answered_with_what_it_asks_for(msg: Tree, id: Tree, method: Seq<char>)
    requires
        msg.member("id"@) == Some(id),
        msg.member("method"@) == Some(Tree::Text(method)),
    ensures
        method == "initialize"@ ==> results_in(dispatched(msg), id, initialize_tree()),
        method == "ping"@ ==> results_in(dispatched(msg), id, Tree::Object(Seq::empty())),
        method == "tools/list"@ ==> results_in(
            dispatched(msg),
            id,
            Tree::Object(seq![("tools"@, Tree::Array(tool_trees(all_tools())))]),
        ),
        method == "tools/call"@ ==> (dispatched(msg) matches DispatchView::Call {
            id: i,
            name,
            arguments,
        } && i == id && (msg.member("params"@) matches Some(p) ==> (p.member("name"@) matches Some(
            Tree::Text(n),
        ) ==> name == n) && (p.member("arguments"@) matches Some(a) ==> arguments == a) && (p.member(
            "arguments"@,
        ) is None ==> arguments == Tree::Object(Seq::empty())))),
        method != "initialize"@ && method != "ping"@ && method != "tools/list"@ && method
            != "tools/call"@ ==> (dispatched(msg) matches DispatchView::Reply(t) && t == error_tree(
            id,
            -32601,
            "method not found: "@ + method,
        )),
{
    methods_differ();
    answers_have_three_members(id, initialize_tree());
    answers_have_three_members(id, Tree::Object(Seq::empty()));
    answers_have_three_members(
        id,
        Tree::Object(seq![("tools"@, Tree::Array(tool_trees(all_tools())))]),
    );
}

/// An error answer has the code and the message under `error`, and the id of the message.
pub proof fn an_error_answer_has_its_code(id: Tree, code: int, message: Seq<char>)
    ensures
        ({
            let t = error_tree(id, code, message);
            &&& t.member("jsonrpc"@) == Some(Tree::Text("2.0"@))
            &&& t.member("id"@) == Some(id)
            &&& t.member("result"@) is None
            &&& t.member("error"@) matches Some(e) && e.member("code"@) == Some(Tree::Signed(code))
                && e.member("message"@) == Some(Tree::Text(message))
        }),
{
    lookups();
    reveal_strlit("code");
    reveal_strlit("message");
    assert("code"@.len() == 4
        && "message"@.len() == 7);
    let e = Tree::Object(seq![("code"@, Tree::Signed(code)), ("message"@, Tree::Text(message))]);
    assert(e->Object_0 =~= Seq::<(Seq<char>, Tree)>::empty().push(e->Object_0[0]).push(e->Object_0[1]));
    answers_have_three_members(id, e);
}

/// A client is told the protocol, the server's name and version, and that the tools do not
/// change.
pub proof fn a_client_is_told_whom_it_talks_to()
    ensures
        initialize_tree().member("protocolVersion"@) == Some(Tree::Text("2025-06-18"@)),
        initialize_tree().member("serverInfo"@) matches Some(s) && s.member("name"@) == Some(
            Tree::Text("bmkg-edge"@),
        ) && s.member("version"@) == Some(Tree::Text("0.1.0"@)),
        initialize_tree().member("capabilities"@) matches Some(c) && (c.member(
            "tools"@,
        ) matches Some(t) && t.member("listChanged"@) == Some(Tree::Bool(false))),
{
    lookups();
    reveal_strlit("protocolVersion");
    reveal_strlit("capabilities");
    reveal_strlit("serverInfo");
    reveal_strlit("instructions");
    reveal_strlit("name");
    reveal_strlit("version");
    assert("protocolVersion"@.len() == 15
        && "capabilities"@.len() == 12
        && "serverInfo"@.len() == 10
        && "instructions"@.len() == 12
        && "name"@.len() == 4
        && "version"@.len() == 7
        && "capabilities"@[0] == 'c'
        && "instructions"@[0] == 'i');
    let t = initialize_tree();
    assert(t->Object_0 =~= Seq::<(Seq<char>, Tree)>::empty().push(t->Object_0[0]).push(t->Object_0[1]).push(t->Object_0[2]).push(t->Object_0[3]));
    let s = t->Object_0[2].1;
    assert(s->Object_0 =~= Seq::<(Seq<char>, Tree)>::empty().push(s->Object_0[0]).push(s->Object_0[1]));
}

/// A tool's answer tells the payload printed as text and the payload itself, and whether it is
/// an error.
pub proof fn a_call_is_answered_with_its_payload(
    id: Tree,
    payload: Tree,
    is_error: bool,
    text: Seq<char>,
)
    ensures
        ({
            let t = call_tree(id, payload, is_error, text);
            &&& t.member("id"@) == Some(id)
            &&& t.member("error"@) is None
            &&& t.member("result"@) matches Some(r) && r.member("structuredContent"@) == Some(payload)
                && r.member("isError"@) == Some(Tree::Bool(is_error)) && (r.member(
                "content"@,
            ) matches Some(Tree::Array(c)) && c.len() == 1 && c[0].member("type"@) == Some(
                Tree::Text("text"@),
            ) && c[0].member("text"@) == Some(Tree::Text(text)))
        }),
{
    lookups();
    reveal_strlit("content");
    reveal_strlit("structuredContent");
    reveal_strlit("isError");
    reveal_strlit("type");
    reveal_strlit("text");
    assert("content"@.len() == 7
        && "structuredContent"@.len() == 17
        && "isError"@.len() == 7
        && "type"@.len() == 4
        && "text"@.len() == 4
        && "content"@[0] == 'c'
        && "isError"@[0] == 'i'
        && "type"@[1] == 'y'
        && "text"@[1] == 'e');
    let block = Tree::Object(seq![("type"@, Tree::Text("text"@)), ("text"@, Tree::Text(text))]);
    assert(block->Object_0 =~= Seq::<(Seq<char>, Tree)>::empty().push(block->Object_0[0]).push(block->Object_0[1]));
    let r = Tree::Object(
        seq![
            ("content"@, Tree::Array(seq![block])),
            ("structuredContent"@, payload),
            ("isError"@, Tree::Bool(is_error)),
        ],
    );
    assert(r->Object_0 =~= Seq::<(Seq<char>, Tree)>::empty().push(r->Object_0[0]).push(r->Object_0[1]).push(r->Object_0[2]));
    answers_have_three_members(id, r);
}

/// The answers to a batch are sent back in the order of its messages, without gaps for those
/// that are not answered; where none is, nothing is sent. A single answer is sent as it is.
pub proof fn answers_are_sent_in_order(v: Vec<Option<Json>>, one: Json) -> (at: Seq<int>)
    ensures
        body_tree(Answers::Single(Some(one))) == Some(one@),
        body_tree(Answers::Single(None)) is None,
        at.len() == 0 ==> body_tree(Answers::Batch(v)) is None,
        at.len() > 0 ==> (body_tree(Answers::Batch(v)) matches Some(Tree::Array(sent)) && sent.len()
            == at.len() && forall|k: int|
            0 <= k < sent.len() ==> #[trigger] sent[k] == v@[at[k]]->0@),
        forall|k: int| 0 <= k < at.len() ==> 0 <= #[trigger] at[k] < v@.len() && v@[at[k]] is Some,
        forall|j: int, k: int| 0 <= j < k < at.len() ==> #[trigger] at[j] < #[trigger] at[k],
        forall|i: int| 0 <= i < v@.len() && (#[trigger] v@[i]) is Some ==> at.contains(i),
{
    let at = answered_in_order(v@);
    let sent = answered(v@);
    assert forall|k: int| 0 <= k < sent.len() implies #[trigger] sent[k] == v@[at[k]]->0@ by {
        assert(0 <= at[k]);
    }
    at
}

proof fn answered_in_order(v: Seq<Option<Json>>) -> (at: Seq<int>)
    ensures
        at.len() == answered(v).len(),
        forall|k: int|
            0 <= k < at.len() ==> 0 <= #[trigger] at[k] < v.len() && v[at[k]] is Some && answered(v)[k]
                == v[at[k]]->0@,
        forall|j: int, k: int| 0 <= j < k < at.len() ==> #[trigger] at[j] < #[trigger] at[k],
        forall|i: int| 0 <= i < v.len() && (#[trigger] v[i]) is Some ==> at.contains(i),
    decreases v.len(),
{
    if v.len() == 0 {
        Seq::empty()
    } else {
        let rest = v.drop_last();
        let before = answered_in_order(rest);
        let at = if v.last() is Some {
            before.push(v.len() - 1)
        } else {
            before
        };
        assert forall|k: int| 0 <= k < at.len() implies 0 <= #[trigger] at[k] < v.len() && v[at[k]]
            is Some && answered(v)[k] == v[at[k]]->0@ by {
            if k < before.len() {
                assert(at[k] == before[k]);
                assert(rest[before[k]] == v[before[k]]);
            }
        }
        assert forall|j: int, k: int| 0 <= j < k < at.len() implies #[trigger] at[j]
            < #[trigger] at[k] by {
            assert(at[j] == before[j]);
            if k < before.len() {
                assert(at[k] == before[k]);
            }
        }
        assert forall|i: int| 0 <= i < v.len() && (#[trigger] v[i]) is Some implies at.contains(i) by {
            if i < rest.len() {
                assert(rest[i] == v[i]);
                let k = choose|k: int| 0 <= k < before.len() && before[k] == i;
                assert(at[k] == i);
            } else {
                assert(at[before.len() as int] == i);
            }
        }
        at
    }
}

// ------------------------------------------------------------------ definitions

/// A tool is listed with its name, its description, and the arguments it takes: each under its
/// name, those it needs as required, and no others.
pub proof fn a_tool_is_listed_with_its_arguments(t: ToolView, i: int)
    requires
        0 <= i < t.properties.len(),
    ensures
        t.tree().member("name"@) == Some(Tree::Text(t.name)),
        t.tree().member("description"@) == Some(Tree::Text(t.description)),
        t.tree().member("inputSchema"@) matches Some(s) && s.member("type"@) == Some(
            Tree::Text("object"@),
        ) && s.member("additionalProperties"@) == Some(Tree::Bool(false)) && (s.member(
            "properties"@,
        ) matches Some(Tree::Object(ps)) && ps.len() == t.properties.len() && ps[i] == (
            t.properties[i].name,
            t.properties[i].tree(),
        )) && (if t.required.len() > 0 {
            s.member("required"@) matches Some(Tree::Array(rs)) && rs.len() == t.required.len() && (
            forall|k: int| 0 <= k < rs.len() ==> #[trigger] rs[k] == Tree::Text(t.required[k]))
        } else {
            s.member("required"@) is None
        }),
{
    lookups();
    reveal_strlit("name");
    reveal_strlit("description");
    reveal_strlit("inputSchema");
    reveal_strlit("type");
    reveal_strlit("properties");
    reveal_strlit("required");
    reveal_strlit("additionalProperties");
    assert("name"@.len() == 4
        && "description"@.len() == 11
        && "inputSchema"@.len() == 11
        && "type"@.len() == 4
        && "properties"@.len() == 10
        && "required"@.len() == 8
        && "additionalProperties"@.len() == 20
        && "name"@[0] == 'n'
        && "type"@[0] == 't'
        && "description"@[0] == 'd'
        && "inputSchema"@[0] == 'i');
    let x = t.tree();
    assert(x->Object_0 =~= Seq::<(Seq<char>, Tree)>::empty().push(x->Object_0[0]).push(x->Object_0[1]).push(x->Object_0[2]));
    let head = seq![
        ("type"@, Tree::Text("object"@)),
        ("properties"@, Tree::Object(t.property_members())),
    ];
    assert(head =~= Seq::<(Seq<char>, Tree)>::empty().push(head[0]).push(head[1]));
}

/// The tool takes an argument of this name and kind at this place.
pub open spec fn takes(t: ToolView, i: int, name: Seq<char>, kind: Kind, languages: bool) -> bool {
    0 <= i < t.properties.len() && t.properties[i].name == name && t.properties[i].kind == kind
        && t.properties[i].languages == languages
}

/// The tools in their order, each with the arguments it takes and those it needs.
pub proof fn each_tool_takes_its_arguments()
    ensures
        all_tools()[0].name == "get_latest_earthquake"@,
        all_tools()[0].properties.len() == 0,
        all_tools()[0].required.len() == 0,
        all_tools()[1].name == "get_recent_earthquakes"@,
        all_tools()[1].properties.len() == 0,
        all_tools()[1].required.len() == 0,
        all_tools()[2].name == "get_felt_earthquakes"@,
        all_tools()[2].properties.len() == 0,
        all_tools()[2].required.len() == 0,
        all_tools()[3].name == "get_nearby_earthquakes"@,
        all_tools()[3].properties.len() == 3,
        takes(all_tools()[3], 0, "lat"@, Kind::Number, false),
        takes(all_tools()[3], 1, "lon"@, Kind::Number, false),
        takes(all_tools()[3], 2, "radius_km"@, Kind::Number, false),
        all_tools()[3].required.len() == 2,
        all_tools()[3].required[0] == "lat"@,
        all_tools()[3].required[1] == "lon"@,
        all_tools()[4].name == "find_weather"@,
        all_tools()[4].properties.len() == 1,
        takes(all_tools()[4], 0, "query"@, Kind::Text, false),
        all_tools()[4].required.len() == 1,
        all_tools()[4].required[0] == "query"@,
        all_tools()[5].name == "get_weather_forecast"@,
        all_tools()[5].properties.len() == 1,
        takes(all_tools()[5], 0, "adm4"@, Kind::Text, false),
        all_tools()[5].required.len() == 1,
        all_tools()[5].required[0] == "adm4"@,
        all_tools()[6].name == "get_current_weather"@,
        all_tools()[6].properties.len() == 1,
        takes(all_tools()[6], 0, "adm4"@, Kind::Text, false),
        all_tools()[6].required.len() == 1,
        all_tools()[6].required[0] == "adm4"@,
        all_tools()[7].name == "get_weather_warnings"@,
        all_tools()[7].properties.len() == 1,
        takes(all_tools()[7], 0, "lang"@, Kind::Text, true),
        all_tools()[7].required.len() == 0,
        all_tools()[8].name == "check_location_warnings"@,
        all_tools()[8].properties.len() == 2,
        takes(all_tools()[8], 0, "location"@, Kind::Text, false),
        takes(all_tools()[8], 1, "lang"@, Kind::Text, true),
        all_tools()[8].required.len() == 1,
        all_tools()[8].required[0] == "location"@,
        all_tools()[9].name == "get_warning_detail"@,
        all_tools()[9].properties.len() == 2,
        takes(all_tools()[9], 0, "alert_code"@, Kind::Text, false),
        takes(all_tools()[9], 1, "lang"@, Kind::Text, true),
        all_tools()[9].required.len() == 1,
        all_tools()[9].required[0] == "alert_code"@,
        all_tools()[10].name == "search_regions"@,
        all_tools()[10].properties.len() == 3,
        takes(all_tools()[10], 0, "q"@, Kind::Text, false),
        takes(all_tools()[10], 1, "limit"@, Kind::Integer, false),
        takes(all_tools()[10], 2, "level"@, Kind::Integer, false),
        all_tools()[10].required.len() == 1,
        all_tools()[10].required[0] == "q"@,
        all_tools()[11].name == "list_regions"@,
        all_tools()[11].properties.len() == 1,
        takes(all_tools()[11], 0, "parent_code"@, Kind::Text, false),
        all_tools()[11].required.len() == 0,
{
    tools_by_name();
}

/// An argument is described by its JSON type, by the languages where it has to be one, and by
/// its description where it has one.
pub proof fn an_argument_is_described_by_its_type(p: PropertyView)
    ensures
        p.tree().member("type"@) == Some(
            Tree::Text(
                match p.kind {
                    Kind::Text => "string"@,
                    Kind::Number => "number"@,
                    Kind::Integer => "integer"@,
                },
            ),
        ),
        p.languages ==> p.tree().member("enum"@) == Some(
            Tree::Array(seq![Tree::Text("en"@), Tree::Text("id"@)]),
        ),
        !p.languages ==> p.tree().member("enum"@) is None,
        match p.description {
            Some(d) => p.tree().member("description"@) == Some(Tree::Text(d)),
            None => p.tree().member("description"@) is None,
        },
{
    lookups();
    reveal_strlit("type");
    reveal_strlit("enum");
    reveal_strlit("description");
    assert("type"@.len() == 4
        && "enum"@.len() == 4
        && "description"@.len() == 11
        && "type"@[0] == 't'
        && "enum"@[0] == 'e');
}

} // verus!
