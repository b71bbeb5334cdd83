//! MCP endpoint: JSON-RPC 2.0 over streamable HTTP, on the same origin as the REST API.
//!
//! The tools stand for the route handlers themselves, in this same isolate. There is no base
//! URL to go stale, because there is no second service.
//!
//! Stateless by design: no `Mcp-Session-Id` is issued, so any isolate can serve any request.

use vstd::prelude::*;
use crate::api::{
    fault, header_views, number_result, outcome_of, reply_body, reply_status, set_header, text_result, ApiError, ApiResult, Failure, Header,
    TextReply, VERSION,
};
use crate::json::{trees, Json, Tree};
use crate::number::Number;
use crate::task::{Task, TaskView};
use crate::text::{debug_form, debug_text, decimal, decimal_text, same, split, split_text, trim, trimmed};
use crate::wilayah::{normal_form, normalise};

verus! {

pub const PROTOCOL_VERSION: &'static str = "2025-06-18";

// ------------------------------------------------------------------ arguments

/// The text argument with this name, unless it is missing, no text, or blank.
pub open spec fn text_argument(args: Tree, key: Seq<char>) -> Result<Seq<char>, Failure> {
    match args.member_text(key) {
        Some(s) => if trim(s).len() > 0 {
            Ok(s)
        } else {
            Err(Failure::BadRequest("missing required argument "@ + debug_form(key)))
        },
        None => Err(Failure::BadRequest("missing required argument "@ + debug_form(key))),
    }
}

pub fn str_arg(args: &Json, key: &str) -> (r: ApiResult<String>)
    ensures
        text_result(r) == text_argument(args@, key@),
{
    match args.get_text(key) {
        Some(s) => {
            if !trimmed(s).as_str().is_empty() {
                return Ok(s.to_owned());
            }
        },
        None => {},
    }
    let mut m = "missing required argument ".to_owned();
    m.append(debug_text(key).as_str());
    Err(ApiError::BadRequest(m))
}

/// The number argument with this name, unless it is missing or no number.
pub open spec fn number_argument(args: Tree, key: Seq<char>) -> Result<Seq<char>, Failure> {
    match args.member_number(key) {
        Some(n) => Ok(n),
        None => Err(Failure::BadRequest("missing numeric argument "@ + debug_form(key))),
    }
}

pub fn num_arg(args: &Json, key: &str) -> (r: ApiResult<Number>)
    ensures
        number_result(r) == number_argument(args@, key@),
{
    match args.get_number(key) {
        Some(n) => Ok(n),
        None => {
            let mut m = "missing numeric argument ".to_owned();
            m.append(debug_text(key).as_str());
            Err(ApiError::BadRequest(m))
        },
    }
}

/// The language asked for, English by default.
pub open spec fn language_argument(args: Tree) -> Seq<char> {
    match args.member_text("lang"@) {
        Some(s) => s,
        None => "en"@,
    }
}

pub fn lang_arg(args: &Json) -> (r: String)
    ensures
        r@ == language_argument(args@),
{
    match args.get_text("lang") {
        Some(s) => s.to_owned(),
        None => "en".to_owned(),
    }
}

// ------------------------------------------------------------------ tool calls

/// The radius asked for, 500 km by default.
pub open spec fn radius_argument(args: Tree) -> Seq<char> {
    match args.member_number("radius_km"@) {
        Some(n) => n,
        None => crate::text::decimal(500),
    }
}

/// The number of hits asked for, ten by default. A search gives a hundred at most, so more
/// than can be counted is as good as the most that can.
pub open spec fn limit_argument(args: Tree) -> nat {
    match args.member_unsigned("limit"@) {
        Some(n) => if n > u32::MAX {
            u32::MAX as nat
        } else {
            n
        },
        None => 10,
    }
}

/// What is wrong with a level that is not even a small number. A search refuses all others
/// that are none of the four, after a `q` that is too short, so this comes after it too.
pub open spec fn level_fault(q: Seq<char>, level: nat) -> Option<Failure> {
    if level <= u8::MAX {
        None
    } else if normal_form(q).len() < 2 {
        Some(Failure::BadRequest("q must be at least 2 characters"@))
    } else {
        Some(Failure::BadRequest("level must be 1..4, got "@ + decimal(level)))
    }
}

pub open spec fn nearby_plan(args: Tree) -> Result<TaskView, Failure> {
    match number_argument(args, "lat"@) {
        Err(f) => Err(f),
        Ok(lat) => match number_argument(args, "lon"@) {
            Err(f) => Err(f),
            Ok(lon) => Ok(TaskView::NearbyEarthquakes { lat, lon, radius_km: radius_argument(args) }),
        },
    }
}

pub open spec fn search_plan(args: Tree) -> Result<TaskView, Failure> {
    match text_argument(args, "q"@) {
        Err(f) => Err(f),
        Ok(q) => match args.member_unsigned("level"@) {
            Some(level) => match level_fault(q, level) {
                Some(f) => Err(f),
                None => Ok(
                    TaskView::RegionSearch { q, limit: limit_argument(args), level: Some(level) },
                ),
            },
            None => Ok(TaskView::RegionSearch { q, limit: limit_argument(args), level: None }),
        },
    }
}

/// The level below a code with this many segments, as far as a level can be counted.
pub open spec fn level_below(segments: nat) -> nat {
    if segments < u8::MAX {
        segments + 1
    } else {
        u8::MAX as nat
    }
}

/// Regions one level down from the parent code, or the provinces where none is given.
pub open spec fn list_plan(args: Tree) -> TaskView {
    match text_argument(args, "parent_code"@) {
        Ok(p) => TaskView::Children {
            parent_code: p,
            expect_level: level_below(split(p, '.').len()),
        },
        Err(_) => TaskView::Provinces,
    }
}

/// What a call of the named tool comes to. `db` is how the database binding fared: the tools
/// that need it report its failure before anything else.
pub open spec fn tool_plan(name: Seq<char>, args: Tree, db: Option<Failure>) -> Result<
    TaskView,
    Failure,
> {
    if name == "get_latest_earthquake"@ {
        Ok(TaskView::LatestEarthquake)
    } else if name == "get_recent_earthquakes"@ {
        Ok(TaskView::RecentEarthquakes)
    } else if name == "get_felt_earthquakes"@ {
        Ok(TaskView::FeltEarthquakes)
    } else if name == "get_nearby_earthquakes"@ {
        nearby_plan(args)
    } else if name == "get_weather_forecast"@ {
        match text_argument(args, "adm4"@) {
            Ok(adm4) => Ok(TaskView::WeatherForecast { adm4 }),
            Err(f) => Err(f),
        }
    } else if name == "get_current_weather"@ {
        match text_argument(args, "adm4"@) {
            Ok(adm4) => Ok(TaskView::CurrentWeather { adm4 }),
            Err(f) => Err(f),
        }
    } else if name == "find_weather"@ {
        match db {
            Some(f) => Err(f),
            None => match text_argument(args, "query"@) {
                Ok(query) => Ok(TaskView::FindWeather { query }),
                Err(f) => Err(f),
            },
        }
    } else if name == "get_weather_warnings"@ {
        Ok(TaskView::Warnings { lang: language_argument(args) })
    } else if name == "check_location_warnings"@ {
        match text_argument(args, "location"@) {
            Ok(location) => Ok(TaskView::WarningCheck { location, lang: language_argument(args) }),
            Err(f) => Err(f),
        }
    } else if name == "get_warning_detail"@ {
        match text_argument(args, "alert_code"@) {
            Ok(alert_code) => Ok(TaskView::WarningDetail { alert_code, lang: language_argument(args) }),
            Err(f) => Err(f),
        }
    } else if name == "search_regions"@ {
        match db {
            Some(f) => Err(f),
            None => search_plan(args),
        }
    } else if name == "list_regions"@ {
        match db {
            Some(f) => Err(f),
            None => Ok(list_plan(args)),
        }
    } else {
        Err(Failure::NotFound("no tool named "@ + debug_form(name)))
    }
}

pub open spec fn plan_result(r: ApiResult<Task>) -> Result<TaskView, Failure> {
    match r {
        Ok(c) => Ok(c@),
        Err(e) => Err(e@),
    }
}

fn nearby_call(args: &Json) -> (r: ApiResult<Task>)
    ensures
        plan_result(r) == nearby_plan(args@),
{
    let radius_km = match args.get_number("radius_km") {
        Some(n) => n,
        None => Number::whole(500, false),
    };
    match num_arg(args, "lat") {
        Err(e) => Err(e),
        Ok(lat) => match num_arg(args, "lon") {
            Err(e) => Err(e),
            Ok(lon) => Ok(Task::NearbyEarthquakes { lat, lon, radius_km }),
        },
    }
}

fn search_call(args: &Json) -> (r: ApiResult<Task>)
    ensures
        plan_result(r) == search_plan(args@),
{
    let limit: u32 = match args.get_unsigned("limit") {
        Some(n) => {
            if n > u32::MAX as u64 {
                u32::MAX
            } else {
                n as u32
            }
        },
        None => 10,
    };
    let q = match str_arg(args, "q") {
        Ok(q) => q,
        Err(e) => {
            return Err(e);
        },
    };
    match args.get_unsigned("level") {
        Some(n) => {
            if n <= u8::MAX as u64 {
                Ok(Task::RegionSearch { q, limit, level: Some(n as u8) })
            } else if normalise(q.as_str()).as_str().unicode_len() < 2 {
                Err(ApiError::BadRequest("q must be at least 2 characters".to_owned()))
            } else {
                let mut m = "level must be 1..4, got ".to_owned();
                m.append(decimal_text(n).as_str());
                Err(ApiError::BadRequest(m))
            }
        },
        None => Ok(Task::RegionSearch { q, limit, level: None }),
    }
}

fn list_call(args: &Json) -> (r: Task)
    ensures
        r@ == list_plan(args@),
{
    match str_arg(args, "parent_code") {
        Ok(parent_code) => {
            let segments = split_text(parent_code.as_str(), '.');
            assert(segments@.len() == split(parent_code@, '.').len());
            let count: usize = segments.len();
            let expect_level: u8 = if count < u8::MAX as usize {
                (count + 1) as u8
            } else {
                u8::MAX
            };
            Task::Children { parent_code, expect_level }
        },
        Err(_) => Task::Provinces,
    }
}

/// Decides what a tool call asks for.
pub fn run_tool(name: &str, args: &Json, db: ApiResult<()>) -> (r: ApiResult<Task>)
    ensures
        plan_result(r) == tool_plan(name@, args@, fault(db)),
{
    if same(name, "get_latest_earthquake") {
        Ok(Task::LatestEarthquake)
    } else if same(name, "get_recent_earthquakes") {
        Ok(Task::RecentEarthquakes)
    } else if same(name, "get_felt_earthquakes") {
        Ok(Task::FeltEarthquakes)
    } else if same(name, "get_nearby_earthquakes") {
        nearby_call(args)
    } else if same(name, "get_weather_forecast") {
        match str_arg(args, "adm4") {
            Ok(adm4) => Ok(Task::WeatherForecast { adm4 }),
            Err(e) => Err(e),
        }
    } else if same(name, "get_current_weather") {
        match str_arg(args, "adm4") {
            Ok(adm4) => Ok(Task::CurrentWeather { adm4 }),
            Err(e) => Err(e),
        }
    } else if same(name, "find_weather") {
        match db {
            Err(e) => Err(e),
            Ok(_) => match str_arg(args, "query") {
                Ok(query) => Ok(Task::FindWeather { query }),
                Err(e) => Err(e),
            },
        }
    } else if same(name, "get_weather_warnings") {
        Ok(Task::Warnings { lang: lang_arg(args) })
    } else if same(name, "check_location_warnings") {
        match str_arg(args, "location") {
            Ok(location) => Ok(Task::WarningCheck { location, lang: lang_arg(args) }),
            Err(e) => Err(e),
        }
    } else if same(name, "get_warning_detail") {
        match str_arg(args, "alert_code") {
            Ok(alert_code) => Ok(Task::WarningDetail { alert_code, lang: lang_arg(args) }),
            Err(e) => Err(e),
        }
    } else if same(name, "search_regions") {
        match db {
            Err(e) => Err(e),
            Ok(_) => search_call(args),
        }
    } else if same(name, "list_regions") {
        match db {
            Err(e) => Err(e),
            Ok(_) => Ok(list_call(args)),
        }
    } else {
        let mut m = "no tool named ".to_owned();
        m.append(debug_text(name).as_str());
        Err(ApiError::NotFound(m))
    }
}

// ------------------------------------------------------------------ tool definitions

/// The JSON type of an argument.
#[derive(Clone, Copy, PartialEq, Eq, Structural, Debug)]
pub enum Kind {
    Text,
    Number,
    Integer,
}

impl Kind {
    pub open spec fn json_type(self) -> Seq<char> {
        match self {
            Kind::Text => "string"@,
            Kind::Number => "number"@,
            Kind::Integer => "integer"@,
        }
    }

    pub fn name(&self) -> (r: &'static str)
        ensures
            r@ == self.json_type(),
    {
        match self {
            Kind::Text => "string",
            Kind::Number => "number",
            Kind::Integer => "integer",
        }
    }
}

/// An argument that a tool takes.
#[derive(Debug, PartialEq, Eq)]
pub struct Property {
    pub name: &'static str,
    pub kind: Kind,
    /// Whether it has to be one of the feed languages.
    pub languages: bool,
    pub description: Option<&'static str>,
}

pub ghost struct PropertyView {
    pub name: Seq<char>,
    pub kind: Kind,
    pub languages: bool,
    pub description: Option<Seq<char>>,
}

impl View for Property {
    type V = PropertyView;

    open spec fn view(&self) -> PropertyView {
        PropertyView {
            name: self.name@,
            kind: self.kind,
            languages: self.languages,
            description: match self.description {
                Some(d) => Some(d@),
                None => None,
            },
        }
    }
}

/// A tool. Descriptions are what an LLM reads to choose: they say what the data is and how
/// fresh it is, because "get weather" alone does not tell it when to call this.
#[derive(Debug, PartialEq, Eq)]
pub struct Tool {
    pub name: &'static str,
    pub description: &'static str,
    pub properties: Vec<Property>,
    pub required: Vec<&'static str>,
}

pub ghost struct ToolView {
    pub name: Seq<char>,
    pub description: Seq<char>,
    pub properties: Seq<PropertyView>,
    pub required: Seq<Seq<char>>,
}

impl View for Tool {
    type V = ToolView;

    open spec fn view(&self) -> ToolView {
        ToolView {
            name: self.name@,
            description: self.description@,
            properties: self.properties@.map_values(|p: Property| p@),
            required: self.required@.map_values(|r: &'static str| r@),
        }
    }
}

pub open spec fn tool_views(v: Seq<Tool>) -> Seq<ToolView> {
    v.map_values(|t: Tool| t@)
}

impl PropertyView {
    pub open spec fn tree(self) -> Tree {
        Tree::Object(
            seq![("type"@, Tree::Text(self.kind.json_type()))] + (if self.languages {
                seq![
                    ("enum"@, Tree::Array(seq![Tree::Text("en"@), Tree::Text("id"@)])),
                ]
            } else {
                Seq::empty()
            }) + (match self.description {
                Some(d) => seq![("description"@, Tree::Text(d))],
                None => Seq::empty(),
            }),
        )
    }
}

impl Property {
    pub fn to_json(&self) -> (r: Json)
        ensures
            r@ == self@.tree(),
    {
        let mut r = Json::object().with("type", Json::text(self.kind.name()));
        assert(r@->Object_0 =~= seq![("type"@, Tree::Text(self.kind.json_type()))]);
        if self.languages {
            let mut choices: Vec<Json> = Vec::new();
            choices.push(Json::text("en"));
            choices.push(Json::text("id"));
            assert(trees(choices@) =~= seq![Tree::Text("en"@), Tree::Text("id"@)]);
            r = r.with("enum", Json::array(choices));
        }
        let ghost before = r@->Object_0;
        match self.description {
            Some(d) => {
                r = r.with("description", Json::text(d));
                assert(r@->Object_0 =~= before + seq![("description"@, Tree::Text(d@))]);
            },
            None => {},
        }
        assert(r@->Object_0 =~= self@.tree()->Object_0);
        r
    }
}

impl ToolView {
    /// The arguments, each under its name.
    pub open spec fn property_members(self) -> Seq<(Seq<char>, Tree)> {
        self.properties.map_values(|p: PropertyView| (p.name, p.tree()))
    }

    pub open spec fn required_trees(self) -> Seq<Tree> {
        self.required.map_values(|r: Seq<char>| Tree::Text(r))
    }

    pub open spec fn schema(self) -> Tree {
        Tree::Object(
            seq![
                ("type"@, Tree::Text("object"@)),
                ("properties"@, Tree::Object(self.property_members())),
            ] + (if self.required.len() > 0 {
                seq![("required"@, Tree::Array(self.required_trees()))]
            } else {
                Seq::empty()
            }) + seq![("additionalProperties"@, Tree::Bool(false))],
        )
    }

    pub open spec fn tree(self) -> Tree {
        Tree::Object(
            seq![
                ("name"@, Tree::Text(self.name)),
                ("description"@, Tree::Text(self.description)),
                ("inputSchema"@, self.schema()),
            ],
        )
    }
}

impl Tool {
    fn properties_json(&self) -> (r: Json)
        ensures
            r@ == Tree::Object(self@.property_members()),
    {
        let mut r = Json::object();
        let ghost all = self@.property_members();
        let mut i: usize = 0;
        assert(all.take(0) =~= Seq::empty());
        while i < self.properties.len()
            invariant
                i <= self.properties@.len(),
                all == self@.property_members(),
                r@ == Tree::Object(all.take(i as int)),
            decreases self.properties@.len() - i,
        {
            let p = &self.properties[i];
            assert(all[i as int] == (p@.name, p@.tree()));
            r = r.with(p.name, p.to_json());
            assert(r@->Object_0 =~= all.take(i + 1));
            i += 1;
        }
        assert(all.take(i as int) =~= all);
        r
    }

    fn required_json(&self) -> (r: Json)
        ensures
            r@ == Tree::Array(self@.required_trees()),
    {
        let mut items: Vec<Json> = Vec::new();
        let ghost all = self@.required_trees();
        let mut i: usize = 0;
        assert(trees(items@) =~= all.take(0));
        while i < self.required.len()
            invariant
                i <= self.required@.len(),
                all == self@.required_trees(),
                trees(items@) == all.take(i as int),
            decreases self.required@.len() - i,
        {
            let ghost before = trees(items@);
            assert(all[i as int] == Tree::Text(self.required@[i as int]@));
            items.push(Json::text(self.required[i]));
            assert(trees(items@) =~= before.push(all[i as int]));
            i += 1;
            assert(trees(items@) =~= all.take(i as int));
        }
        assert(all.take(i as int) =~= all);
        Json::array(items)
    }

    pub fn to_json(&self) -> (r: Json)
        ensures
            r@ == self@.tree(),
    {
        let mut schema = Json::object().with("type", Json::text("object")).with(
            "properties",
            self.properties_json(),
        );
        if self.required.len() > 0 {
            schema = schema.with("required", self.required_json());
        }
        let schema = schema.with("additionalProperties", Json::bool(false));
        assert(schema@->Object_0 =~= self@.schema()->Object_0);
        let r = Json::object().with("name", Json::text(self.name)).with(
            "description",
            Json::text(self.description),
        ).with("inputSchema", schema);
        assert(r@->Object_0 =~= self@.tree()->Object_0);
        r
    }
}

/// The tools that read the earthquake feeds.
pub open spec fn earthquake_tools() -> Seq<ToolView> {
    seq![
        ToolView {
            name: "get_latest_earthquake"@,
            description: "The single most recent earthquake recorded anywhere in Indonesia, updated by BMKG within minutes of the event. Includes magnitude, depth, coordinates, the affected region, tsunami wording and felt intensities."@,
            properties: Seq::empty(),
            required: Seq::empty(),
        },
        ToolView {
            name: "get_recent_earthquakes"@,
            description: "The last 15 earthquakes of magnitude 5.0 or greater in Indonesia. Use for 'has there been a big quake recently'."@,
            properties: Seq::empty(),
            required: Seq::empty(),
        },
        ToolView {
            name: "get_felt_earthquakes"@,
            description: "Recent earthquakes that people actually reported feeling, with MMI intensity per place. Smaller than M5 but locally significant."@,
            properties: Seq::empty(),
            required: Seq::empty(),
        },
        ToolView {
            name: "get_nearby_earthquakes"@,
            description: "Recent earthquakes within a radius of a point, nearest first, each with its distance in kilometres."@,
            properties: seq![
                PropertyView {
                    name: "lat"@,
                    kind: Kind::Number,
                    languages: false,
                    description: Some("Latitude, -90 to 90."@),
                },
                PropertyView {
                    name: "lon"@,
                    kind: Kind::Number,
                    languages: false,
                    description: Some("Longitude, -180 to 180."@),
                },
                PropertyView {
                    name: "radius_km"@,
                    kind: Kind::Number,
                    languages: false,
                    description: Some("Search radius in km. Default 500."@),
                },
            ],
            required: seq!["lat"@, "lon"@],
        },
    ]
}

fn list_earthquake_tools() -> (r: Vec<Tool>)
    ensures
        tool_views(r@) == earthquake_tools(),
{
    let mut r: Vec<Tool> = Vec::new();
    let t = Tool {
        name: "get_latest_earthquake",
        description: "The single most recent earthquake recorded anywhere in Indonesia, updated by BMKG within minutes of the event. Includes magnitude, depth, coordinates, the affected region, tsunami wording and felt intensities.",
        properties: Vec::new(),
        required: Vec::new(),
    };
    assert(t@.properties =~= earthquake_tools()[r@.len() as int].properties);
    assert(t@.required =~= earthquake_tools()[r@.len() as int].required);
    r.push(t);
    let t = Tool {
        name: "get_recent_earthquakes",
        description: "The last 15 earthquakes of magnitude 5.0 or greater in Indonesia. Use for 'has there been a big quake recently'.",
        properties: Vec::new(),
        required: Vec::new(),
    };
    assert(t@.properties =~= earthquake_tools()[r@.len() as int].properties);
    assert(t@.required =~= earthquake_tools()[r@.len() as int].required);
    r.push(t);
    let t = Tool {
        name: "get_felt_earthquakes",
        description: "Recent earthquakes that people actually reported feeling, with MMI intensity per place. Smaller than M5 but locally significant.",
        properties: Vec::new(),
        required: Vec::new(),
    };
    assert(t@.properties =~= earthquake_tools()[r@.len() as int].properties);
    assert(t@.required =~= earthquake_tools()[r@.len() as int].required);
    r.push(t);
    let t = Tool {
        name: "get_nearby_earthquakes",
        description: "Recent earthquakes within a radius of a point, nearest first, each with its distance in kilometres.",
        properties: vec![
            Property {
                name: "lat",
                kind: Kind::Number,
                languages: false,
                description: Some("Latitude, -90 to 90."),
            },
            Property {
                name: "lon",
                kind: Kind::Number,
                languages: false,
                description: Some("Longitude, -180 to 180."),
            },
            Property {
                name: "radius_km",
                kind: Kind::Number,
                languages: false,
                description: Some("Search radius in km. Default 500."),
            },
        ],
        required: vec!["lat", "lon"],
    };
    assert(t@.properties =~= earthquake_tools()[r@.len() as int].properties);
    assert(t@.required =~= earthquake_tools()[r@.len() as int].required);
    r.push(t);
    assert(tool_views(r@) =~= earthquake_tools());
    r
}

/// The tools that read forecasts and the warning index.
pub open spec fn weather_tools() -> Seq<ToolView> {
    seq![
        ToolView {
            name: "find_weather"@,
            description: "Weather forecast for a place named in plain text, for example 'Tebet' or 'Pejaten Barat'. PREFER THIS over get_weather_forecast when you do not already have a region code: it resolves the name and returns the forecast in one call, and reports what else the name could have meant."@,
            properties: seq![
                PropertyView {
                    name: "query"@,
                    kind: Kind::Text,
                    languages: false,
                    description: Some("Village, subdistrict or town name."@),
                },
            ],
            required: seq!["query"@],
        },
        ToolView {
            name: "get_weather_forecast"@,
            description: "Three-day forecast in roughly 3-hourly slots for one village, keyed by its Kemendagri level-4 code such as 31.74.04.1006. Use find_weather instead if you only have a name."@,
            properties: seq![
                PropertyView {
                    name: "adm4"@,
                    kind: Kind::Text,
                    languages: false,
                    description: Some("Level-4 region code, e.g. 31.74.04.1006."@),
                },
            ],
            required: seq!["adm4"@],
        },
        ToolView {
            name: "get_current_weather"@,
            description: "The forecast slot covering right now for one village, plus the next three slots."@,
            properties: seq![
                PropertyView {
                    name: "adm4"@,
                    kind: Kind::Text,
                    languages: false,
                    description: Some("Level-4 region code, e.g. 31.74.04.1006."@),
                },
            ],
            required: seq!["adm4"@],
        },
        ToolView {
            name: "get_weather_warnings"@,
            description: "All active BMKG severe-weather warnings across Indonesia — thunderstorms, heavy rain, strong winds — with the affected subdistricts named in the text."@,
            properties: seq![
                PropertyView {
                    name: "lang"@,
                    kind: Kind::Text,
                    languages: true,
                    description: Some("Default en."@),
                },
            ],
            required: Seq::empty(),
        },
    ]
}

fn list_weather_tools() -> (r: Vec<Tool>)
    ensures
        tool_views(r@) == weather_tools(),
{
    let mut r: Vec<Tool> = Vec::new();
    let t = Tool {
        name: "find_weather",
        description: "Weather forecast for a place named in plain text, for example 'Tebet' or 'Pejaten Barat'. PREFER THIS over get_weather_forecast when you do not already have a region code: it resolves the name and returns the forecast in one call, and reports what else the name could have meant.",
        properties: vec![
            Property {
                name: "query",
                kind: Kind::Text,
                languages: false,
                description: Some("Village, subdistrict or town name."),
            },
        ],
        required: vec!["query"],
    };
    assert(t@.properties =~= weather_tools()[r@.len() as int].properties);
    assert(t@.required =~= weather_tools()[r@.len() as int].required);
    r.push(t);
    let t = Tool {
        name: "get_weather_forecast",
        description: "Three-day forecast in roughly 3-hourly slots for one village, keyed by its Kemendagri level-4 code such as 31.74.04.1006. Use find_weather instead if you only have a name.",
        properties: vec![
            Property {
                name: "adm4",
                kind: Kind::Text,
                languages: false,
                description: Some("Level-4 region code, e.g. 31.74.04.1006."),
            },
        ],
        required: vec!["adm4"],
    };
    assert(t@.properties =~= weather_tools()[r@.len() as int].properties);
    assert(t@.required =~= weather_tools()[r@.len() as int].required);
    r.push(t);
    let t = Tool {
        name: "get_current_weather",
        description: "The forecast slot covering right now for one village, plus the next three slots.",
        properties: vec![
            Property {
                name: "adm4",
                kind: Kind::Text,
                languages: false,
                description: Some("Level-4 region code, e.g. 31.74.04.1006."),
            },
        ],
        required: vec!["adm4"],
    };
    assert(t@.properties =~= weather_tools()[r@.len() as int].properties);
    assert(t@.required =~= weather_tools()[r@.len() as int].required);
    r.push(t);
    let t = Tool {
        name: "get_weather_warnings",
        description: "All active BMKG severe-weather warnings across Indonesia — thunderstorms, heavy rain, strong winds — with the affected subdistricts named in the text.",
        properties: vec![
            Property {
                name: "lang",
                kind: Kind::Text,
                languages: true,
                description: Some("Default en."),
            },
        ],
        required: Vec::new(),
    };
    assert(t@.properties =~= weather_tools()[r@.len() as int].properties);
    assert(t@.required =~= weather_tools()[r@.len() as int].required);
    r.push(t);
    assert(tool_views(r@) =~= weather_tools());
    r
}

/// The tools that look a place, a warning or a region up.
pub open spec fn place_tools() -> Seq<ToolView> {
    seq![
        ToolView {
            name: "check_location_warnings"@,
            description: "Active severe-weather warnings mentioning a place. This is a text match over the live warning list, so it finds a place that BMKG named in the warning text."@,
            properties: seq![
                PropertyView {
                    name: "location"@,
                    kind: Kind::Text,
                    languages: false,
                    description: Some("Place name, at least 3 characters."@),
                },
                PropertyView {
                    name: "lang"@,
                    kind: Kind::Text,
                    languages: true,
                    description: None,
                },
            ],
            required: seq!["location"@],
        },
        ToolView {
            name: "get_warning_detail"@,
            description: "Full CAP detail for one warning: severity, urgency, certainty, effective and expiry times, and the affected area as a GeoJSON-ordered polygon."@,
            properties: seq![
                PropertyView {
                    name: "alert_code"@,
                    kind: Kind::Text,
                    languages: false,
                    description: Some("Code from get_weather_warnings, e.g. CJI20260911005."@),
                },
                PropertyView {
                    name: "lang"@,
                    kind: Kind::Text,
                    languages: true,
                    description: None,
                },
            ],
            required: seq!["alert_code"@],
        },
        ToolView {
            name: "search_regions"@,
            description: "Search Indonesian administrative regions by name across all four levels. Returns the region code plus its full path, e.g. 'DKI Jakarta › Kota Adm. Jakarta Selatan › Pasar Minggu › Pejaten Barat'."@,
            properties: seq![
                PropertyView {
                    name: "q"@,
                    kind: Kind::Text,
                    languages: false,
                    description: Some("At least 2 characters. Matches whole words."@),
                },
                PropertyView {
                    name: "limit"@,
                    kind: Kind::Integer,
                    languages: false,
                    description: Some("1-100, default 10."@),
                },
                PropertyView {
                    name: "level"@,
                    kind: Kind::Integer,
                    languages: false,
                    description: Some("Restrict to 1 province, 2 kabupaten/kota, 3 kecamatan, 4 desa/kelurahan."@),
                },
            ],
            required: seq!["q"@],
        },
        ToolView {
            name: "list_regions"@,
            description: "List regions one level down from a parent code — omit the code for the 38 provinces, pass '31' for Jakarta's cities, '31.74' for its subdistricts, and so on."@,
            properties: seq![
                PropertyView {
                    name: "parent_code"@,
                    kind: Kind::Text,
                    languages: false,
                    description: Some("Omit for provinces."@),
                },
            ],
            required: Seq::empty(),
        },
    ]
}

fn list_place_tools() -> (r: Vec<Tool>)
    ensures
        tool_views(r@) == place_tools(),
{
    let mut r: Vec<Tool> = Vec::new();
    let t = Tool {
        name: "check_location_warnings",
        description: "Active severe-weather warnings mentioning a place. This is a text match over the live warning list, so it finds a place that BMKG named in the warning text.",
        properties: vec![
            Property {
                name: "location",
                kind: Kind::Text,
                languages: false,
                description: Some("Place name, at least 3 characters."),
            },
            Property {
                name: "lang",
                kind: Kind::Text,
                languages: true,
                description: None,
            },
        ],
        required: vec!["location"],
    };
    assert(t@.properties =~= place_tools()[r@.len() as int].properties);
    assert(t@.required =~= place_tools()[r@.len() as int].required);
    r.push(t);
    let t = Tool {
        name: "get_warning_detail",
        description: "Full CAP detail for one warning: severity, urgency, certainty, effective and expiry times, and the affected area as a GeoJSON-ordered polygon.",
        properties: vec![
            Property {
                name: "alert_code",
                kind: Kind::Text,
                languages: false,
                description: Some("Code from get_weather_warnings, e.g. CJI20260911005."),
            },
            Property {
                name: "lang",
                kind: Kind::Text,
                languages: true,
                description: None,
            },
        ],
        required: vec!["alert_code"],
    };
    assert(t@.properties =~= place_tools()[r@.len() as int].properties);
    assert(t@.required =~= place_tools()[r@.len() as int].required);
    r.push(t);
    let t = Tool {
        name: "search_regions",
        description: "Search Indonesian administrative regions by name across all four levels. Returns the region code plus its full path, e.g. 'DKI Jakarta › Kota Adm. Jakarta Selatan › Pasar Minggu › Pejaten Barat'.",
        properties: vec![
            Property {
                name: "q",
                kind: Kind::Text,
                languages: false,
                description: Some("At least 2 characters. Matches whole words."),
            },
            Property {
                name: "limit",
                kind: Kind::Integer,
                languages: false,
                description: Some("1-100, default 10."),
            },
            Property {
                name: "level",
                kind: Kind::Integer,
                languages: false,
                description: Some("Restrict to 1 province, 2 kabupaten/kota, 3 kecamatan, 4 desa/kelurahan."),
            },
        ],
        required: vec!["q"],
    };
    assert(t@.properties =~= place_tools()[r@.len() as int].properties);
    assert(t@.required =~= place_tools()[r@.len() as int].required);
    r.push(t);
    let t = Tool {
        name: "list_regions",
        description: "List regions one level down from a parent code — omit the code for the 38 provinces, pass '31' for Jakarta's cities, '31.74' for its subdistricts, and so on.",
        properties: vec![
            Property {
                name: "parent_code",
                kind: Kind::Text,
                languages: false,
                description: Some("Omit for provinces."),
            },
        ],
        required: Vec::new(),
    };
    assert(t@.properties =~= place_tools()[r@.len() as int].properties);
    assert(t@.required =~= place_tools()[r@.len() as int].required);
    r.push(t);
    assert(tool_views(r@) =~= place_tools());
    r
}

/// Every tool, in the order in which they are listed.
pub open spec fn all_tools() -> Seq<ToolView> {
    earthquake_tools() + weather_tools() + place_tools()
}

pub fn tools() -> (r: Vec<Tool>)
    ensures
        tool_views(r@) == all_tools(),
{
    let mut r = list_earthquake_tools();
    let mut weather = list_weather_tools();
    let mut place = list_place_tools();
    let ghost a = r@;
    let ghost b = weather@;
    let ghost c = place@;
    r.append(&mut weather);
    r.append(&mut place);
    assert(r@ =~= a + b + c);
    assert(tool_views(r@) =~= tool_views(a) + tool_views(b) + tool_views(c));
    r
}

pub open spec fn tool_trees(v: Seq<ToolView>) -> Seq<Tree> {
    v.map_values(|t: ToolView| t.tree())
}

pub fn tool_definitions() -> (r: Json)
    ensures
        r@ == Tree::Array(tool_trees(all_tools())),
{
    let list = tools();
    let ghost all = tool_trees(all_tools());
    let mut items: Vec<Json> = Vec::new();
    let mut i: usize = 0;
    assert(trees(items@) =~= all.take(0));
    while i < list.len()
        invariant
            i <= list@.len(),
            all == tool_trees(all_tools()),
            tool_views(list@) == all_tools(),
            trees(items@) == all.take(i as int),
        decreases list@.len() - i,
    {
        let ghost before = trees(items@);
        assert(tool_views(list@)[i as int] == list@[i as int]@);
        assert(all[i as int] == list@[i as int]@.tree());
        items.push(list[i].to_json());
        assert(trees(items@) =~= before.push(all[i as int]));
        i += 1;
        assert(trees(items@) =~= all.take(i as int));
    }
    assert(tool_views(list@).len() == list@.len());
    assert(all.take(i as int) =~= all);
    Json::array(items)
}

// ------------------------------------------------------------------ messages

/// What a message asks for.
#[derive(Debug, PartialEq, Eq)]
pub enum Dispatch {
    /// A notification: answer nothing.
    Nothing,
    /// The answer itself.
    Reply(Json),
    /// A tool call, to be answered once the tool has run.
    Call { id: Json, name: String, arguments: Json },
}

pub ghost enum DispatchView {
    Nothing,
    Reply(Tree),
    Call { id: Tree, name: Seq<char>, arguments: Tree },
}

impl View for Dispatch {
    type V = DispatchView;

    open spec fn view(&self) -> DispatchView {
        match self {
            Dispatch::Nothing => DispatchView::Nothing,
            Dispatch::Reply(r) => DispatchView::Reply(r@),
            Dispatch::Call { id, name, arguments } => DispatchView::Call {
                id: id@,
                name: name@,
                arguments: arguments@,
            },
        }
    }
}

pub open spec fn or_empty(t: Option<Tree>) -> Tree {
    match t {
        Some(t) => t,
        None => Tree::Object(Seq::empty()),
    }
}

pub open spec fn or_blank(t: Option<Seq<char>>) -> Seq<char> {
    match t {
        Some(s) => s,
        None => ""@,
    }
}

/// An answer to the message with this id.
pub open spec fn answer_tree(id: Tree, key: Seq<char>, value: Tree) -> Tree {
    Tree::Object(seq![("jsonrpc"@, Tree::Text("2.0"@)), ("id"@, id), (key, value)])
}

pub open spec fn error_tree(id: Tree, code: int, message: Seq<char>) -> Tree {
    answer_tree(
        id,
        "error"@,
        Tree::Object(seq![("code"@, Tree::Signed(code)), ("message"@, Tree::Text(message))]),
    )
}

pub open spec fn initialize_tree() -> Tree {
    Tree::Object(
        seq![
            ("protocolVersion"@, Tree::Text(PROTOCOL_VERSION@)),
            (
                "capabilities"@,
                Tree::Object(
                    seq![
                        ("tools"@, Tree::Object(seq![("listChanged"@, Tree::Bool(false))])),
                    ],
                ),
            ),
            (
                "serverInfo"@,
                Tree::Object(
                    seq![
                        ("name"@, Tree::Text("bmkg-edge"@)),
                        ("version"@, Tree::Text(VERSION@)),
                    ],
                ),
            ),
            (
                "instructions"@,
                Tree::Text(
                    "Indonesian weather, earthquake and severe-weather-warning data from BMKG. Region codes are Kemendagri codes; when you only have a place name, call find_weather rather than looking the code up first."@,
                ),
            ),
        ],
    )
}

/// What a message asks for. Without an id it is a notification; a tool call is left to be
/// run; everything else is answered at once.
pub open spec fn dispatched(msg: Tree) -> DispatchView {
    let method = or_blank(msg.member_text("method"@));
    match msg.member("id"@) {
        None => DispatchView::Nothing,
        Some(id) => if method == "initialize"@ {
            DispatchView::Reply(answer_tree(id, "result"@, initialize_tree()))
        } else if method == "ping"@ {
            DispatchView::Reply(answer_tree(id, "result"@, Tree::Object(Seq::empty())))
        } else if method == "tools/list"@ {
            DispatchView::Reply(
                answer_tree(
                    id,
                    "result"@,
                    Tree::Object(seq![("tools"@, Tree::Array(tool_trees(all_tools())))]),
                ),
            )
        } else if method == "tools/call"@ {
            let params = or_empty(msg.member("params"@));
            DispatchView::Call {
                id,
                name: or_blank(params.member_text("name"@)),
                arguments: or_empty(params.member("arguments"@)),
            }
        } else {
            DispatchView::Reply(error_tree(id, -32601, "method not found: "@ + method))
        },
    }
}

fn answer(id: Json, key: &str, value: Json) -> (r: Json)
    ensures
        r@ == answer_tree(id@, key@, value@),
{
    let r = Json::object().with("jsonrpc", Json::text("2.0")).with("id", id).with(key, value);
    assert(r@->Object_0 =~= answer_tree(id@, key@, value@)->Object_0);
    r
}

/// An error answer to the message with this id.
pub fn rpc_error(id: Json, code: i32, message: &str) -> (r: Json)
    ensures
        r@ == error_tree(id@, code as int, message@),
{
    let error = Json::object().with("code", Json::signed(code as i64)).with(
        "message",
        Json::text(message),
    );
    assert(error@->Object_0 =~= seq![
        ("code"@, Tree::Signed(code as int)),
        ("message"@, Tree::Text(message@)),
    ]);
    answer(id, "error", error)
}

fn null() -> (r: Json)
    ensures
        r@ == Tree::Null,
{
    let r = Json::Null;
    proof {
        crate::json::tree_of(r);
    }
    r
}

/// The answer to a body that is not JSON.
pub fn parse_error(reason: &str) -> (r: Json)
    ensures
        r@ == error_tree(Tree::Null, -32700, "parse error: "@ + reason@),
{
    let mut m = "parse error: ".to_owned();
    m.append(reason);
    rpc_error(null(), -32700, m.as_str())
}

fn initialize_result() -> (r: Json)
    ensures
        r@ == initialize_tree(),
{
    let list_changed = Json::object().with("listChanged", Json::bool(false));
    assert(list_changed@->Object_0 =~= seq![("listChanged"@, Tree::Bool(false))]);
    let capabilities = Json::object().with("tools", list_changed);
    assert(capabilities@->Object_0 =~= seq![("tools"@, list_changed@)]);
    let server_info = Json::object().with("name", Json::text("bmkg-edge")).with(
        "version",
        Json::text(VERSION),
    );
    assert(server_info@->Object_0 =~= seq![
        ("name"@, Tree::Text("bmkg-edge"@)),
        ("version"@, Tree::Text(VERSION@)),
    ]);
    let r = Json::object().with("protocolVersion", Json::text(PROTOCOL_VERSION)).with(
        "capabilities",
        capabilities,
    ).with("serverInfo", server_info).with(
        "instructions",
        Json::text(
            "Indonesian weather, earthquake and severe-weather-warning data from BMKG. Region codes are Kemendagri codes; when you only have a place name, call find_weather rather than looking the code up first.",
        ),
    );
    assert(r@->Object_0 =~= initialize_tree()->Object_0);
    r
}

fn copy_or_empty(j: Option<&Json>) -> (r: Json)
    ensures
        r@ == or_empty(
            match j {
                Some(x) => Some(x@),
                None => None,
            },
        ),
{
    match j {
        Some(x) => x.copy(),
        None => Json::object(),
    }
}

/// Decides what a message asks for.
pub fn dispatch(msg: &Json) -> (r: Dispatch)
    ensures
        r@ == dispatched(msg@),
{
    let method = match msg.get_text("method") {
        Some(s) => s,
        None => "",
    };
    let id = match msg.get("id") {
        Some(id) => id.copy(),
        None => {
            return Dispatch::Nothing;
        },
    };
    if same(method, "initialize") {
        Dispatch::Reply(answer(id, "result", initialize_result()))
    } else if same(method, "ping") {
        Dispatch::Reply(answer(id, "result", Json::object()))
    } else if same(method, "tools/list") {
        let result = Json::object().with("tools", tool_definitions());
        assert(result@->Object_0 =~= seq![("tools"@, Tree::Array(tool_trees(all_tools())))]);
        Dispatch::Reply(answer(id, "result", result))
    } else if same(method, "tools/call") {
        let params = copy_or_empty(msg.get("params"));
        let name = match params.get_text("name") {
            Some(s) => s.to_owned(),
            None => "".to_owned(),
        };
        let arguments = copy_or_empty(params.get("arguments"));
        Dispatch::Call { id, name, arguments }
    } else {
        let mut m = "method not found: ".to_owned();
        m.append(method);
        Dispatch::Reply(rpc_error(id, -32601, m.as_str()))
    }
}

/// What a tool call carries back: the tool's data, or the error envelope of the REST layer.
pub open spec fn payload_tree(outcome: Result<Tree, Failure>) -> Tree {
    match outcome {
        Ok(v) => v,
        Err(f) => f.envelope(),
    }
}

/// The payload of a tool call, and whether it is an error.
pub fn tool_payload(outcome: ApiResult<Json>) -> (r: (Json, bool))
    ensures
        r.0@ == payload_tree(outcome_of(outcome)),
        r.1 == outcome is Err,
{
    match outcome {
        Ok(v) => (v, false),
        Err(e) => (e.to_value(), true),
    }
}

pub open spec fn call_tree(id: Tree, payload: Tree, is_error: bool, text: Seq<char>) -> Tree {
    answer_tree(
        id,
        "result"@,
        Tree::Object(
            seq![
                (
                    "content"@,
                    Tree::Array(
                        seq![
                            Tree::Object(
                                seq![
                                    ("type"@, Tree::Text("text"@)),
                                    ("text"@, Tree::Text(text)),
                                ],
                            ),
                        ],
                    ),
                ),
                ("structuredContent"@, payload),
                ("isError"@, Tree::Bool(is_error)),
            ],
        ),
    )
}

/// The answer to a tool call. `text` is the payload printed for a reader.
pub fn call_tool(id: Json, payload: Json, is_error: bool, text: &str) -> (r: Json)
    ensures
        r@ == call_tree(id@, payload@, is_error, text@),
{
    let block = Json::object().with("type", Json::text("text")).with("text", Json::text(text));
    assert(block@->Object_0 =~= seq![
        ("type"@, Tree::Text("text"@)),
        ("text"@, Tree::Text(text@)),
    ]);
    let mut content: Vec<Json> = Vec::new();
    content.push(block);
    assert(trees(content@) =~= seq![block@]);
    let result = Json::object().with("content", Json::array(content)).with(
        "structuredContent",
        payload,
    ).with("isError", Json::bool(is_error));
    assert(result@->Object_0 =~= seq![
        ("content"@, Tree::Array(seq![block@])),
        ("structuredContent"@, payload@),
        ("isError"@, Tree::Bool(is_error)),
    ]);
    answer(id, "result", result)
}

// ------------------------------------------------------------------ transport

/// The answers to one body: to a single message, or to each message of a batch in turn.
#[derive(Debug, PartialEq, Eq)]
pub enum Answers {
    Single(Option<Json>),
    Batch(Vec<Option<Json>>),
}

pub open spec fn answered(v: Seq<Option<Json>>) -> Seq<Tree>
    decreases v.len(),
{
    if v.len() == 0 {
        Seq::empty()
    } else {
        match v.last() {
            Some(j) => answered(v.drop_last()).push(j@),
            None => answered(v.drop_last()),
        }
    }
}

/// What is sent back, if anything is: notifications get an acknowledgement only.
pub open spec fn body_tree(answers: Answers) -> Option<Tree> {
    match answers {
        Answers::Single(Some(j)) => Some(j@),
        Answers::Single(None) => None,
        Answers::Batch(v) => if answered(v@).len() == 0 {
            None
        } else {
            Some(Tree::Array(answered(v@)))
        },
    }
}

/// Gathers the answers to a body into what is sent back.
pub fn handle(answers: Answers) -> (r: Option<Json>)
    ensures
        match body_tree(answers) {
            Some(t) => r matches Some(j) && j@ == t,
            None => r is None,
        },
{
    match answers {
        Answers::Single(one) => one,
        Answers::Batch(many) => {
            let mut out: Vec<Json> = Vec::new();
            let ghost all = many@;
            assert(all.take(0) =~= Seq::empty());
            assert(trees(out@) =~= Seq::empty());
            for a in it: many
                invariant
                    it.seq() == all,
                    trees(out@) == answered(all.take(it.index())),
            {
                let ghost before = trees(out@);
                assert(all.take(it.index() + 1).drop_last() =~= all.take(it.index()));
                match a {
                    Some(j) => {
                        out.push(j);
                        assert(trees(out@) =~= before.push(j@));
                    },
                    None => {},
                }
            }
            assert(all.take(all.len() as int) =~= all);
            assert(trees(out@).len() == out@.len());
            if out.len() == 0 {
                None
            } else {
                Some(Json::array(out))
            }
        },
    }
}

pub open spec fn stream_headers() -> Seq<(Seq<char>, Seq<char>)> {
    seq![
        ("content-type"@, "text/event-stream"@),
        ("cache-control"@, "no-store"@),
        ("access-control-allow-origin"@, "*"@),
        ("access-control-allow-headers"@, "content-type, mcp-session-id, mcp-protocol-version"@),
        ("access-control-allow-methods"@, "POST, GET, OPTIONS"@),
    ]
}

pub fn headers() -> (r: Vec<Header>)
    ensures
        header_views(r@) == stream_headers(),
{
    let mut h: Vec<Header> = Vec::new();
    assert(header_views(h@) =~= Seq::empty());
    set_header(&mut h, "content-type", "text/event-stream");
    set_header(&mut h, "cache-control", "no-store");
    set_header(&mut h, "access-control-allow-origin", "*");
    set_header(
        &mut h,
        "access-control-allow-headers",
        "content-type, mcp-session-id, mcp-protocol-version",
    );
    set_header(&mut h, "access-control-allow-methods", "POST, GET, OPTIONS");
    assert(header_views(h@) =~= stream_headers());
    h
}

/// One server-sent event that carries the printed JSON.
pub fn sse(json: &str) -> (r: TextReply)
    ensures
        r.status == 200,
        header_views(r.headers@) == stream_headers(),
        r.body matches Some(b) && b@ == "event: message\ndata: "@ + json@ + "\n\n"@,
{
    let mut body = "event: message\ndata: ".to_owned();
    body.append(json);
    body.append("\n\n");
    TextReply { status: 200, headers: headers(), body: Some(body) }
}

/// The acknowledgement of a notification.
pub fn accepted() -> (r: TextReply)
    ensures
        r.status == 202,
        header_views(r.headers@) == stream_headers(),
        r.body is None,
{
    TextReply { status: 202, headers: headers(), body: None }
}

// ------------------------------------------------------------------ laws

/// A name under which a tool is listed.
pub open spec fn is_listed(name: Seq<char>) -> bool {
    exists|i: int| 0 <= i < all_tools().len() && (#[trigger] all_tools()[i]).name == name
}

/// The tools that are listed are the tools that can be called: a call is answered with
/// `no tool named` exactly when its name is not in the list.
pub proof fn what_is_listed_can_be_called(name: Seq<char>, args: Tree, db: Option<Failure>)
    requires
        db matches Some(f) ==> f is Internal,
    ensures
        is_listed(name) <==> !(tool_plan(name, args, db) matches Err(f) && f is NotFound),
        all_tools().len() == 12,
{
    let all = all_tools();
    assert(all.len() == 12);
    assert(all[0].name == "get_latest_earthquake"@);
    assert(all[1].name == "get_recent_earthquakes"@);
    assert(all[2].name == "get_felt_earthquakes"@);
    assert(all[3].name == "get_nearby_earthquakes"@);
    assert(all[4].name == "find_weather"@);
    assert(all[5].name == "get_weather_forecast"@);
    assert(all[6].name == "get_current_weather"@);
    assert(all[7].name == "get_weather_warnings"@);
    assert(all[8].name == "check_location_warnings"@);
    assert(all[9].name == "get_warning_detail"@);
    assert(all[10].name == "search_regions"@);
    assert(all[11].name == "list_regions"@);
}

/// No two tools have the same name.
pub proof fn tool_names_differ()
    ensures
        forall|i: int, j: int|
            0 <= i < j < all_tools().len() ==> (#[trigger] all_tools()[i]).name != (
            #[trigger] all_tools()[j]).name,
{
    reveal_strlit("get_latest_earthquake");
    reveal_strlit("get_recent_earthquakes");
    reveal_strlit("get_felt_earthquakes");
    reveal_strlit("get_nearby_earthquakes");
    reveal_strlit("find_weather");
    reveal_strlit("get_weather_forecast");
    reveal_strlit("get_current_weather");
    reveal_strlit("get_weather_warnings");
    reveal_strlit("check_location_warnings");
    reveal_strlit("get_warning_detail");
    reveal_strlit("search_regions");
    reveal_strlit("list_regions");
    let all = all_tools();
    assert(all[0].name.len() == 21);
    assert(all[1].name.len() == 22 && all[1].name[4] == 'r');
    assert(all[2].name.len() == 20 && all[2].name[4] == 'f');
    assert(all[3].name.len() == 22 && all[3].name[4] == 'n');
    assert(all[4].name.len() == 12 && all[4].name[0] == 'f');
    assert(all[5].name.len() == 20 && all[5].name[4] == 'w' && all[5].name[12] == 'f');
    assert(all[6].name.len() == 19);
    assert(all[7].name.len() == 20 && all[7].name[4] == 'w' && all[7].name[12] == 'w');
    assert(all[8].name.len() == 23);
    assert(all[9].name.len() == 18);
    assert(all[10].name.len() == 14);
    assert(all[11].name.len() == 12 && all[11].name[0] == 'l');
}

/// A search by tool only looks within the four levels: any other level is refused, by the
/// plan or by the search it plans, and the message says which level it was.
pub proof fn levels_off_the_scale_are_refused(args: Tree, q: Seq<char>, level: nat)
    requires
        text_argument(args, "q"@) == Ok::<Seq<char>, Failure>(q),
        args.member_unsigned("level"@) == Some(level),
        normal_form(q).len() >= 2,
        !(1 <= level <= 4),
    ensures
        ({
            let refusal = Failure::BadRequest("level must be 1..4, got "@ + decimal(level));
            match search_plan(args) {
                Err(f) => f == refusal,
                Ok(TaskView::RegionSearch { q, level: Some(l), .. }) => l <= u8::MAX
                    && crate::wilayah::search_fault(q, Some(l as u8)) == Some(refusal),
                Ok(_) => false,
            }
        }),
{
}

/// An argument of this kind is there.
pub open spec fn is_given(args: Tree, p: PropertyView) -> bool {
    match p.kind {
        Kind::Text => text_argument(args, p.name) is Ok,
        Kind::Number => number_argument(args, p.name) is Ok,
        Kind::Integer => args.member_unsigned(p.name) is Some,
    }
}

/// Every argument that the tool's schema requires is there, and of the kind it says.
pub open spec fn has_required(t: ToolView, args: Tree) -> bool {
    forall|i: int, j: int|
        0 <= i < t.required.len() && 0 <= j < t.properties.len() && #[trigger] t.required[i] == (
        #[trigger] t.properties[j]).name ==> is_given(args, t.properties[j])
}

/// The schema of a tool says what it needs: every required argument is described, and a call
/// that gives the required arguments is never refused for what it lacks. (A level that is far
/// off the scale is refused for what it is.)
pub proof fn the_schema_says_what_is_needed(i: int, args: Tree)
    requires
        0 <= i < all_tools().len(),
    ensures
        forall|r: int|
            0 <= r < all_tools()[i].required.len() ==> exists|p: int|
                0 <= p < all_tools()[i].properties.len() && all_tools()[i].properties[p].name
                    == #[trigger] all_tools()[i].required[r],
        has_required(all_tools()[i], args) && !(args.member_unsigned("level"@) matches Some(n) && n
            > u8::MAX) ==> tool_plan(all_tools()[i].name, args, None) is Ok,
{
    let t = all_tools()[i];
    let all = all_tools();
    assert(all.len() == 12);
    assert forall|r: int| 0 <= r < t.required.len() implies exists|p: int|
        0 <= p < t.properties.len() && t.properties[p].name == #[trigger] t.required[r] by {
        assert(t.required[r] == t.properties[r].name);
    }
    if has_required(t, args) {
        assert forall|r: int| 0 <= r < t.required.len() implies is_given(args, #[trigger] t.properties[r]) by {
            assert(t.required[r] == t.properties[r].name);
        }
        if t.required.len() > 0 {
            assert(is_given(args, t.properties[0]));
        }
        if t.required.len() > 1 {
            assert(is_given(args, t.properties[1]));
        }
        tool_names_differ();
        assert forall|j: int| 0 <= j < 12 && j != i implies t.name != (#[trigger] all[j]).name by {}
        assert(all[0].name == "get_latest_earthquake"@);
        assert(all[1].name == "get_recent_earthquakes"@);
        assert(all[2].name == "get_felt_earthquakes"@);
        assert(all[3].name == "get_nearby_earthquakes"@);
        assert(all[4].name == "find_weather"@);
        assert(all[5].name == "get_weather_forecast"@);
        assert(all[6].name == "get_current_weather"@);
        assert(all[7].name == "get_weather_warnings"@);
        assert(all[8].name == "check_location_warnings"@);
        assert(all[9].name == "get_warning_detail"@);
        assert(all[10].name == "search_regions"@);
        assert(all[11].name == "list_regions"@);
    }
}

/// A message with an id is answered under that id, and one without is never answered.
pub proof fn answers_carry_the_id(msg: Tree)
    ensures
        match dispatched(msg) {
            DispatchView::Nothing => msg.member("id"@) is None,
            DispatchView::Reply(t) => msg.member("id"@) is Some && t.member("id"@) == msg.member(
                "id"@,
            ),
            DispatchView::Call { id, .. } => msg.member("id"@) == Some(id),
        },
{
    reveal_strlit("id");
    reveal_strlit("jsonrpc");
    reveal_with_fuel(crate::json::first_named, 3);
    assert("id"@.len() == 2 && "jsonrpc"@.len() == 7);
}

/// A tool call that needs the database is only run when there is one.
pub proof fn tools_that_need_the_database_have_it(name: Seq<char>, args: Tree, db: Option<Failure>)
    ensures
        tool_plan(name, args, db) matches Ok(task) && task.needs_database() ==> db is None,
{
}

/// No session is issued, so any isolate can serve any request.
pub proof fn no_session_is_issued(i: int)
    requires
        0 <= i < stream_headers().len(),
    ensures
        stream_headers()[i].0 != "mcp-session-id"@,
{
    reveal_strlit("mcp-session-id");
    reveal_strlit("content-type");
    reveal_strlit("cache-control");
    reveal_strlit("access-control-allow-origin");
    reveal_strlit("access-control-allow-headers");
    reveal_strlit("access-control-allow-methods");
    assert("mcp-session-id"@.len() == 14);
    assert(stream_headers()[i].0.len() != 14);
}

/// What a tool call carries back is what the REST layer answers with: for the same outcome
/// the same data, or the very error envelope, which the status goes with.
pub proof fn tools_answer_what_routes_answer(
    outcome: Result<Tree, Failure>,
    id: Tree,
    text: Seq<char>,
    source: Seq<char>,
    ttl: nat,
    generated_at: Seq<char>,
)
    ensures
        ({
            let call = call_tree(id, payload_tree(outcome), outcome is Err, text);
            let body = reply_body(outcome, source, ttl, generated_at);
            call.member("result"@) matches Some(result) && result.member("isError"@) == Some(
                Tree::Bool(outcome is Err),
            ) && match outcome {
                Ok(v) => {
                    &&& result.member("structuredContent"@) == Some(v)
                    &&& body.member("data"@) == Some(v)
                    &&& reply_status(outcome) == 200
                },
                Err(f) => {
                    &&& result.member("structuredContent"@) == Some(body)
                    &&& body == f.envelope()
                    &&& reply_status(outcome) == f.status()
                },
            }
        }),
{
    reveal_strlit("id");
    reveal_strlit("jsonrpc");
    reveal_strlit("result");
    reveal_strlit("content");
    reveal_strlit("structuredContent");
    reveal_strlit("isError");
    reveal_with_fuel(crate::json::first_named, 4);
    assert("id"@.len() == 2 && "jsonrpc"@.len() == 7 && "result"@.len() == 6 && "content"@.len()
        == 7 && "structuredContent"@.len() == 17 && "isError"@.len() == 7);
    assert("content"@[0] != "isError"@[0]);
    if let Ok(v) = outcome {
        crate::api::one_response_shape(
            v,
            source,
            ttl,
            generated_at,
            Failure::Internal(Seq::empty()),
        );
    }
}

} // verus!
