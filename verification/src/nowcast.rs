//! Severe-weather warnings: BMKG's RSS index and its CAP 1.2 detail files.
//!
//! Both are read event by event. Entity references arrive as events of their own rather
//! than inside the text, so text is accumulated across events until the closing tag. Miss
//! that and every `&amp;` silently truncates a description.

use vstd::prelude::*;
use crate::api::{
    a_changed_payload_names_its_url, is_unreadable_at, text_result, ApiError, ApiResult, Failure,
};
use crate::json::{opt_tree, optional, trees, Json, Tree};
use crate::number::{is_float, Number};
use crate::text::{
    all_alnum, alnum, chars_of, contains, contains_text, debug_form, debug_text, ends_with,
    is_last_occurrence, last_occurrence, last_piece, opt, piece, same, split, split_once, split_pair,
    trim, trimmed, uppercase, uppercased, views, words, words_of,
};
use crate::xml::{is_complete, is_final, next_event, open, outcome, pending, xml_nodes, Node, XmlEvent};

verus! {

const BASE: &'static str = "https://www.bmkg.go.id/alerts/nowcast";

pub const TTL_INDEX: u32 = 120;

pub const TTL_DETAIL: u32 = 900;

/// One active warning, as the index lists it.
#[derive(Debug, PartialEq, Eq)]
pub struct Alert {
    /// The id used by `/v1/nowcast/{code}`, taken from the item link.
    pub alert_code: String,
    pub headline: String,
    /// Best effort, read off the headline ("… in Jambi"). Absent when the wording
    /// does not carry it: the authoritative area is in the detail response.
    pub area: Option<String>,
    pub description: String,
    pub category: Option<String>,
    pub published: Option<String>,
    pub detail_url: String,
}

pub ghost struct AlertView {
    pub alert_code: Seq<char>,
    pub headline: Seq<char>,
    pub area: Option<Seq<char>>,
    pub description: Seq<char>,
    pub category: Option<Seq<char>>,
    pub published: Option<Seq<char>>,
    pub detail_url: Seq<char>,
}

impl View for Alert {
    type V = AlertView;

    open spec fn view(&self) -> AlertView {
        AlertView {
            alert_code: self.alert_code@,
            headline: self.headline@,
            area: opt(self.area),
            description: self.description@,
            category: opt(self.category),
            published: opt(self.published),
            detail_url: self.detail_url@,
        }
    }
}

pub open spec fn alert_views(v: Seq<Alert>) -> Seq<AlertView> {
    v.map_values(|a: Alert| a@)
}

impl AlertView {
    pub open spec fn tree(self) -> Tree {
        Tree::Object(
            seq![("alert_code"@, Tree::Text(self.alert_code)), ("headline"@, Tree::Text(self.headline))]
                + optional("area"@, opt_tree(self.area)) + seq![
                ("description"@, Tree::Text(self.description)),
            ] + optional("category"@, opt_tree(self.category)) + optional(
                "published"@,
                opt_tree(self.published),
            ) + seq![("detail_url"@, Tree::Text(self.detail_url))],
        )
    }
}

impl Alert {
    pub fn to_json(&self) -> (r: Json)
        ensures
            r@ == self@.tree(),
    {
        let head = Json::object().with("alert_code", Json::text(self.alert_code.as_str())).with(
            "headline",
            Json::text(self.headline.as_str()),
        );
        assert(head@->Object_0 =~= seq![
            ("alert_code"@, Tree::Text(self@.alert_code)),
            ("headline"@, Tree::Text(self@.headline)),
        ]);
        let r = head.with_text("area", &self.area).with(
            "description",
            Json::text(self.description.as_str()),
        ).with_text("category", &self.category).with_text("published", &self.published).with(
            "detail_url",
            Json::text(self.detail_url.as_str()),
        );
        assert(r@->Object_0 =~= self@.tree()->Object_0);
        r
    }
}

pub open spec fn alert_trees(v: Seq<Alert>) -> Seq<Tree> {
    v.map_values(|a: Alert| a@.tree())
}

/// The warnings as the data of a response.
pub fn alerts_json(alerts: &Vec<Alert>) -> (r: Json)
    ensures
        r@ == Tree::Array(alert_trees(alerts@)),
{
    let mut items: Vec<Json> = Vec::new();
    let mut i: usize = 0;
    assert(trees(items@) =~= alert_trees(alerts@).take(0));
    while i < alerts.len()
        invariant
            i <= alerts@.len(),
            trees(items@) == alert_trees(alerts@).take(i as int),
        decreases alerts@.len() - i,
    {
        let ghost before = trees(items@);
        items.push(alerts[i].to_json());
        assert(trees(items@) =~= before.push(alert_trees(alerts@)[i as int]));
        i += 1;
        assert(trees(items@) =~= alert_trees(alerts@).take(i as int));
    }
    assert(alert_trees(alerts@).take(i as int) =~= alert_trees(alerts@));
    Json::array(items)
}

// ------------------------------------------------------------------ small readings

/// The feed language that a caller's `lang` asks for.
pub open spec fn language_of(code: Seq<char>) -> Result<Seq<char>, Failure> {
    if code == "en"@ || code == ""@ {
        Ok("en"@)
    } else if code == "id"@ {
        Ok("id"@)
    } else {
        Err(Failure::BadRequest("lang must be 'en' or 'id', got "@ + debug_form(code)))
    }
}

pub fn lang(code: &str) -> (r: ApiResult<&'static str>)
    ensures
        match language_of(code@) {
            Ok(l) => r matches Ok(s) && s@ == l,
            Err(f) => r matches Err(e) && e@ == f,
        },
{
    if same(code, "en") || same(code, "") {
        Ok("en")
    } else if same(code, "id") {
        Ok("id")
    } else {
        let mut m = "lang must be 'en' or 'id', got ".to_owned();
        m.append(debug_text(code).as_str());
        Err(ApiError::BadRequest(m))
    }
}

/// Named entities XML defines without a DTD. Numeric references come resolved.
pub open spec fn entity_char(name: Seq<char>) -> Option<char> {
    if name == "amp"@ {
        Some('&')
    } else if name == "lt"@ {
        Some('<')
    } else if name == "gt"@ {
        Some('>')
    } else if name == "quot"@ {
        Some('"')
    } else if name == "apos"@ {
        Some('\'')
    } else {
        None
    }
}

pub fn entity(name: &str) -> (r: Option<char>)
    ensures
        r == entity_char(name@),
{
    if same(name, "amp") {
        Some('&')
    } else if same(name, "lt") {
        Some('<')
    } else if same(name, "gt") {
        Some('>')
    } else if same(name, "quot") {
        Some('"')
    } else if same(name, "apos") {
        Some('\'')
    } else {
        None
    }
}

/// The tag name without its namespace prefix. CAP files namespace everything, RSS
/// namespaces some of it, and only the local part ever matters.
pub open spec fn local_name(name: Seq<char>) -> Seq<char> {
    split(name, ':').last()
}

pub fn local(name: &str) -> (r: String)
    ensures
        r@ == local_name(name@),
{
    last_piece(name, ':')
}

/// The text that an event between two tags contributes.
pub open spec fn fragment(n: Node) -> Seq<char> {
    match n {
        Node::Text(s) => s,
        Node::CData(s) => s,
        Node::Reference(Some(c), _) => seq![c],
        Node::Reference(None, name) => match entity_char(name) {
            Some(c) => seq![c],
            None => Seq::empty(),
        },
        _ => Seq::empty(),
    }
}

/// Appends what the event contributes.
pub fn accumulate(text: &mut String, event: &XmlEvent)
    ensures
        final(text)@ == old(text)@ + fragment(event@),
{
    match event {
        XmlEvent::Text(s) => {
            text.append(s.as_str());
        },
        XmlEvent::CData(s) => {
            text.append(s.as_str());
        },
        XmlEvent::Reference(Some(c), _) => {
            text.push(*c);
            assert(text@ =~= old(text)@ + seq![*c]);
        },
        XmlEvent::Reference(None, name) => {
            match entity(name.as_str()) {
                Some(c) => {
                    text.push(c);
                    assert(text@ =~= old(text)@ + seq![c]);
                },
                None => {
                    assert(text@ =~= old(text)@ + Seq::empty());
                },
            }
        },
        _ => {
            assert(text@ =~= old(text)@ + Seq::empty());
        },
    }
}

pub open spec fn without_suffix(s: Seq<char>, suffix: Seq<char>) -> Seq<char> {
    if ends_with(s, suffix) {
        s.take(s.len() - suffix.len())
    } else {
        s
    }
}

/// ".../CJI20260911005_alert.xml" -> "CJI20260911005".
/// Read off the link rather than the guid: the guid is a CAP identifier, which is a
/// different string and does not address the detail file.
pub open spec fn link_code(link: Seq<char>) -> Option<Seq<char>> {
    let stem = without_suffix(split(link, '/').last(), "_alert.xml"@);
    if stem.len() > 0 && all_alnum(stem) {
        Some(stem)
    } else {
        None
    }
}

/// Whether every character is an ASCII letter or digit.
pub fn only_alnum(s: &str) -> (r: bool)
    ensures
        r == all_alnum(s@),
{
    let v = chars_of(s);
    let mut i: usize = 0;
    while i < v.len()
        invariant
            i <= v@.len(),
            v@ == s@,
            forall|j: int| 0 <= j < i ==> crate::text::is_alnum(#[trigger] v@[j]),
        decreases v@.len() - i,
    {
        if !alnum(v[i]) {
            return false;
        }
        i += 1;
    }
    true
}

/// The text without the suffix, or all of it where it does not end so.
pub fn strip_suffix(s: &str, suffix: &str) -> (r: String)
    ensures
        r@ == without_suffix(s@, suffix@),
{
    let v = chars_of(s);
    let p = chars_of(suffix);
    match last_occurrence(&v, &p) {
        Some(i) => {
            if i == v.len() - p.len() {
                assert(v@.subrange(0, i as int) =~= v@.take(i as int));
                piece(&v, 0, i)
            } else {
                s.to_owned()
            }
        },
        None => s.to_owned(),
    }
}

pub fn code_from_link(link: &str) -> (r: Option<String>)
    ensures
        opt(r) == link_code(link@),
{
    let file = last_piece(link, '/');
    let stem = strip_suffix(file.as_str(), "_alert.xml");
    if !stem.as_str().is_empty() && only_alnum(stem.as_str()) {
        Some(stem)
    } else {
        None
    }
}

/// The last position of `pat` in `s`, for a `pat` that occurs.
pub open spec fn last_index(s: Seq<char>, pat: Seq<char>) -> int {
    choose|i: int| is_last_occurrence(s, pat, i)
}

/// What follows the last `sep`, trimmed, if anything does.
pub open spec fn tail_after(title: Seq<char>, sep: Seq<char>) -> Option<Seq<char>> {
    if contains(title, sep) {
        let tail = trim(title.skip(last_index(title, sep) + sep.len()));
        if tail.len() > 0 {
            Some(tail)
        } else {
            None
        }
    } else {
        None
    }
}

/// "Thunderstorm Tonight in Jambi" -> "Jambi"; the Indonesian feed says "di Jambi".
pub open spec fn headline_area(title: Seq<char>) -> Option<Seq<char>> {
    match tail_after(title, " in "@) {
        Some(area) => Some(area),
        None => tail_after(title, " di "@),
    }
}

pub fn text_after(title: &str, sep: &str) -> (r: Option<String>)
    ensures
        opt(r) == tail_after(title@, sep@),
{
    let v = chars_of(title);
    let p = chars_of(sep);
    let len: usize = v.len();
    match last_occurrence(&v, &p) {
        Some(i) => {
            proof {
                let j = last_index(v@, p@);
                assert(is_last_occurrence(v@, p@, j));
                assert(i == j);
                assert(v@.subrange(i + p@.len(), v@.len() as int) =~= v@.skip(i + p@.len()));
            }
            let tail = trimmed(piece(&v, i + p.len(), len).as_str());
            if tail.as_str().is_empty() {
                None
            } else {
                Some(tail)
            }
        },
        None => None,
    }
}

pub fn area_from_headline(title: &str) -> (r: Option<String>)
    ensures
        opt(r) == headline_area(title@),
{
    match text_after(title, " in ") {
        Some(area) => Some(area),
        None => text_after(title, " di "),
    }
}

// ------------------------------------------------------------------ index

/// What an RSS item said, field by field.
pub struct RawItem {
    pub title: String,
    pub link: String,
    pub description: String,
    pub category: String,
    pub pub_date: String,
}

pub ghost struct ItemView {
    pub title: Seq<char>,
    pub link: Seq<char>,
    pub description: Seq<char>,
    pub category: Seq<char>,
    pub pub_date: Seq<char>,
}

impl View for RawItem {
    type V = ItemView;

    open spec fn view(&self) -> ItemView {
        ItemView {
            title: self.title@,
            link: self.link@,
            description: self.description@,
            category: self.category@,
            pub_date: self.pub_date@,
        }
    }
}

pub open spec fn empty_item() -> ItemView {
    ItemView {
        title: Seq::empty(),
        link: Seq::empty(),
        description: Seq::empty(),
        category: Seq::empty(),
        pub_date: Seq::empty(),
    }
}

impl Default for RawItem {
    fn default() -> (r: RawItem)
        ensures
            r@ == empty_item(),
    {
        RawItem {
            title: String::new(),
            link: String::new(),
            description: String::new(),
            category: String::new(),
            pub_date: String::new(),
        }
    }
}

/// The text, unless it is empty.
pub open spec fn unless_empty(s: Seq<char>) -> Option<Seq<char>> {
    if s.len() == 0 {
        None
    } else {
        Some(s)
    }
}

pub fn some_text(s: String) -> (r: Option<String>)
    ensures
        opt(r) == unless_empty(s@),
{
    if s.as_str().is_empty() {
        None
    } else {
        Some(s)
    }
}

impl ItemView {
    /// The item with the named field set. Other names change nothing.
    pub open spec fn with(self, field: Seq<char>, value: Seq<char>) -> ItemView {
        if field == "title"@ {
            ItemView { title: value, ..self }
        } else if field == "link"@ {
            ItemView { link: value, ..self }
        } else if field == "description"@ {
            ItemView { description: value, ..self }
        } else if field == "category"@ {
            ItemView { category: value, ..self }
        } else if field == "pubDate"@ {
            ItemView { pub_date: value, ..self }
        } else {
            self
        }
    }

    /// The warning that the item announces, if its link carries a code.
    pub open spec fn alert(self, language: Seq<char>) -> Option<AlertView> {
        match link_code(self.link) {
            Some(code) => Some(
                AlertView {
                    alert_code: code,
                    headline: self.title,
                    area: headline_area(self.title),
                    description: self.description,
                    category: unless_empty(self.category),
                    published: unless_empty(self.pub_date),
                    detail_url: detail_path(code, language),
                },
            ),
            None => None,
        }
    }
}

/// The route under which a warning's detail is served.
pub open spec fn detail_path(code: Seq<char>, language: Seq<char>) -> Seq<char> {
    "/v1/nowcast/"@ + code + "?lang="@ + language
}

impl RawItem {
    pub fn set(&mut self, field: &str, value: &str)
        ensures
            final(self)@ == old(self)@.with(field@, value@),
    {
        if same(field, "title") {
            self.title = value.to_owned();
        } else if same(field, "link") {
            self.link = value.to_owned();
        } else if same(field, "description") {
            self.description = value.to_owned();
        } else if same(field, "category") {
            self.category = value.to_owned();
        } else if same(field, "pubDate") {
            self.pub_date = value.to_owned();
        }
    }

    pub fn build(self, language: &str) -> (r: Option<Alert>)
        ensures
            match self@.alert(language@) {
                Some(a) => r matches Some(x) && x@ == a,
                None => r is None,
            },
    {
        match code_from_link(self.link.as_str()) {
            Some(code) => {
                let mut detail_url = "/v1/nowcast/".to_owned();
                detail_url.append(code.as_str());
                detail_url.append("?lang=");
                detail_url.append(language);
                Some(
                    Alert {
                        area: area_from_headline(self.title.as_str()),
                        alert_code: code,
                        headline: self.title,
                        description: self.description,
                        category: some_text(self.category),
                        published: some_text(self.pub_date),
                        detail_url,
                    },
                )
            },
            None => None,
        }
    }
}

/// Where the reading of an index stands.
pub struct RssReading {
    pub alerts: Vec<Alert>,
    pub in_item: bool,
    pub field: String,
    pub text: String,
    pub item: RawItem,
}

pub ghost struct RssState {
    pub alerts: Seq<AlertView>,
    pub in_item: bool,
    /// The element of the item whose text is being read, or nothing.
    pub field: Seq<char>,
    pub text: Seq<char>,
    pub item: ItemView,
}

impl View for RssReading {
    type V = RssState;

    open spec fn view(&self) -> RssState {
        RssState {
            alerts: alert_views(self.alerts@),
            in_item: self.in_item,
            field: self.field@,
            text: self.text@,
            item: self.item@,
        }
    }
}

pub open spec fn rss_start() -> RssState {
    RssState {
        alerts: Seq::empty(),
        in_item: false,
        field: Seq::empty(),
        text: Seq::empty(),
        item: empty_item(),
    }
}

impl RssState {
    pub open spec fn opened(self, name: Seq<char>) -> RssState {
        if name == "item"@ {
            RssState { in_item: true, item: empty_item(), ..self }
        } else if self.in_item {
            RssState { field: name, text: Seq::empty(), ..self }
        } else {
            self
        }
    }

    pub open spec fn closed(self, name: Seq<char>, language: Seq<char>) -> RssState {
        if name == "item"@ {
            RssState {
                in_item: false,
                item: empty_item(),
                alerts: match self.item.alert(language) {
                    Some(a) => self.alerts.push(a),
                    None => self.alerts,
                },
                ..self
            }
        } else if self.in_item && name == self.field {
            RssState {
                item: self.item.with(self.field, trim(self.text)),
                field: Seq::empty(),
                text: Seq::empty(),
                ..self
            }
        } else {
            self
        }
    }

    pub open spec fn step(self, n: Node, language: Seq<char>) -> RssState {
        match n {
            Node::Start(name) => self.opened(local_name(name)),
            Node::End(name) => self.closed(local_name(name), language),
            _ => if self.in_item && self.field.len() > 0 {
                RssState { text: self.text + fragment(n), ..self }
            } else {
                self
            },
        }
    }
}

/// The state after these events.
pub open spec fn rss_after(nodes: Seq<Node>, from: RssState, language: Seq<char>) -> RssState
    decreases nodes.len(),
{
    if nodes.len() == 0 {
        from
    } else {
        rss_after(nodes.drop_last(), from, language).step(nodes.last(), language)
    }
}

/// The warnings that an index document lists.
pub open spec fn rss_alerts(nodes: Seq<Node>, language: Seq<char>) -> Result<
    Seq<AlertView>,
    Failure,
> {
    match nodes.last() {
        Node::Invalid(e) => Err(
            Failure::UpstreamParse("BMKG alert feed is not valid XML: "@ + e),
        ),
        _ => Ok(rss_after(nodes.drop_last(), rss_start(), language).alerts),
    }
}

impl RssReading {
    pub fn start() -> (r: RssReading)
        ensures
            r@ == rss_start(),
    {
        let r = RssReading {
            alerts: Vec::new(),
            in_item: false,
            field: String::new(),
            text: String::new(),
            item: RawItem::default(),
        };
        assert(r@.alerts =~= rss_start().alerts);
        r
    }

    /// Takes in one event.
    pub fn step(&mut self, event: &XmlEvent, language: &str)
        ensures
            final(self)@ == old(self)@.step(event@, language@),
    {
        match event {
            XmlEvent::Start(raw) => {
                let name = local(raw.as_str());
                if same(name.as_str(), "item") {
                    self.in_item = true;
                    self.item = RawItem::default();
                } else if self.in_item {
                    self.field = name;
                    self.text = String::new();
                }
            },
            XmlEvent::End(raw) => {
                let name = local(raw.as_str());
                if same(name.as_str(), "item") {
                    self.in_item = false;
                    let mut item = RawItem::default();
                    std::mem::swap(&mut item, &mut self.item);
                    match item.build(language) {
                        Some(a) => {
                            self.alerts.push(a);
                            assert(self@.alerts =~= old(self)@.alerts.push(a@));
                        },
                        None => {},
                    }
                } else if self.in_item && same(name.as_str(), self.field.as_str()) {
                    let value = trimmed(self.text.as_str());
                    self.item.set(self.field.as_str(), value.as_str());
                    self.field = String::new();
                    self.text = String::new();
                }
            },
            _ => {
                if self.in_item && !self.field.as_str().is_empty() {
                    accumulate(&mut self.text, event);
                }
            },
        }
    }
}

/// Reads an index document.
pub fn parse_rss(xml: &str, language: &str) -> (r: ApiResult<Vec<Alert>>)
    ensures
        match rss_alerts(xml_nodes(xml@), language@) {
            Ok(alerts) => r matches Ok(v) && alert_views(v@) == alerts,
            Err(f) => r matches Err(e) && e@ == f,
        },
{
    let mut reader = open(xml);
    let ghost nodes = xml_nodes(xml@);
    let ghost mut k: int = 0;
    let mut state = RssReading::start();
    assert(nodes.skip(0) =~= nodes);
    assert(rss_after(nodes.take(0), rss_start(), language@) == rss_start());
    loop
        invariant
            nodes == xml_nodes(xml@),
            is_complete(nodes),
            0 <= k < nodes.len(),
            pending(&reader) == nodes.skip(k),
            state@ == rss_after(nodes.take(k), rss_start(), language@),
        decreases nodes.len() - k,
    {
        let event = next_event(&mut reader);
        assert(outcome(event) == nodes[k]);
        assert(is_final(nodes[k]) ==> k == nodes.len() - 1);
        assert(k == nodes.len() - 1 ==> nodes[k] == nodes.last());
        match event {
            Err(e) => {
                let mut m = "BMKG alert feed is not valid XML: ".to_owned();
                m.append(e.as_str());
                return Err(ApiError::UpstreamParse(m));
            },
            Ok(XmlEvent::Eof) => {
                assert(nodes.take(k) =~= nodes.drop_last());
                return Ok(state.alerts);
            },
            Ok(event) => {
                state.step(&event, language);
                proof {
                    assert(nodes.take(k + 1).drop_last() =~= nodes.take(k));
                    assert(nodes.skip(k).skip(1) =~= nodes.skip(k + 1));
                    k = k + 1;
                }
            },
        }
    }
}

// ------------------------------------------------------------------ detail

/// One warning in full.
#[derive(Debug, PartialEq, Eq)]
pub struct AlertDetail {
    pub alert_code: String,
    pub identifier: String,
    pub sender: String,
    pub sent: String,
    pub status: String,
    pub message_type: String,
    pub language: String,
    pub category: String,
    pub event: String,
    pub urgency: String,
    pub severity: String,
    pub certainty: String,
    pub effective: String,
    pub expires: String,
    pub headline: String,
    pub description: String,
    pub infographic_url: Option<String>,
    pub areas: Vec<Area>,
}

/// One affected area of a warning.
#[derive(Debug, PartialEq, Eq)]
pub struct Area {
    pub description: String,
    /// GeoJSON order: `[longitude, latitude]`. CAP publishes `lat,lon`; the swap
    /// happens here, once, so a caller can hand this straight to a map library.
    pub polygon: Vec<[Number; 2]>,
}

pub ghost struct AreaView {
    pub description: Seq<char>,
    /// Longitude and latitude of each corner, as they were spelled.
    pub polygon: Seq<(Seq<char>, Seq<char>)>,
}

pub open spec fn corner_views(v: Seq<[Number; 2]>) -> Seq<(Seq<char>, Seq<char>)> {
    v.map_values(|p: [Number; 2]| (p@[0]@, p@[1]@))
}

impl View for Area {
    type V = AreaView;

    open spec fn view(&self) -> AreaView {
        AreaView { description: self.description@, polygon: corner_views(self.polygon@) }
    }
}

pub open spec fn area_views(v: Seq<Area>) -> Seq<AreaView> {
    v.map_values(|a: Area| a@)
}

/// The corner that one `lat,lon` pair names, longitude first, if both are numbers.
pub open spec fn corner(pair: Seq<char>) -> Option<(Seq<char>, Seq<char>)> {
    match split_once(pair, ',') {
        Some((lat, lon)) => if is_float(trim(lon)) && is_float(trim(lat)) {
            Some((trim(lon), trim(lat)))
        } else {
            None
        },
        None => None,
    }
}

/// The corners that the pairs name, in order, without the pairs that name none.
pub open spec fn corners(pairs: Seq<Seq<char>>) -> Seq<(Seq<char>, Seq<char>)>
    decreases pairs.len(),
{
    if pairs.len() == 0 {
        Seq::empty()
    } else {
        match corner(pairs.last()) {
            Some(c) => corners(pairs.drop_last()).push(c),
            None => corners(pairs.drop_last()),
        }
    }
}

pub fn parse_corner(pair: &str) -> (r: Option<[Number; 2]>)
    ensures
        match corner(pair@) {
            Some(c) => r matches Some(p) && (p@[0]@, p@[1]@) == c,
            None => r is None,
        },
{
    match split_pair(pair, ',') {
        Some((lat, lon)) => {
            match (
                Number::parse(trimmed(lon.as_str()).as_str()),
                Number::parse(trimmed(lat.as_str()).as_str()),
            ) {
                (Ok(x), Ok(y)) => Some([x, y]),
                _ => None,
            }
        },
        None => None,
    }
}

/// CAP polygons are whitespace-separated `lat,lon` pairs. GeoJSON wants `[lon,lat]`.
pub fn parse_polygon(s: &str) -> (r: Vec<[Number; 2]>)
    ensures
        corner_views(r@) == corners(words(s@)),
{
    let pairs = words_of(s);
    let mut r: Vec<[Number; 2]> = Vec::new();
    let mut i: usize = 0;
    assert(corner_views(r@) =~= corners(views(pairs@).take(0)));
    while i < pairs.len()
        invariant
            i <= pairs@.len(),
            corner_views(r@) == corners(views(pairs@).take(i as int)),
        decreases pairs@.len() - i,
    {
        let ghost before = corner_views(r@);
        assert(views(pairs@).take(i + 1).drop_last() =~= views(pairs@).take(i as int));
        match parse_corner(pairs[i].as_str()) {
            Some(p) => {
                r.push(p);
                assert(corner_views(r@) =~= before.push((p@[0]@, p@[1]@)));
            },
            None => {},
        }
        i += 1;
    }
    assert(views(pairs@).take(i as int) =~= views(pairs@));
    r
}

/// What a CAP file said outside its areas, field by field.
pub struct CapFields {
    pub identifier: String,
    pub sender: String,
    pub sent: String,
    pub status: String,
    pub msg_type: String,
    pub language: String,
    pub category: String,
    pub event: String,
    pub urgency: String,
    pub severity: String,
    pub certainty: String,
    pub effective: String,
    pub expires: String,
    pub headline: String,
    pub description: String,
    pub web: String,
}

pub ghost struct CapView {
    pub identifier: Seq<char>,
    pub sender: Seq<char>,
    pub sent: Seq<char>,
    pub status: Seq<char>,
    pub msg_type: Seq<char>,
    pub language: Seq<char>,
    pub category: Seq<char>,
    pub event: Seq<char>,
    pub urgency: Seq<char>,
    pub severity: Seq<char>,
    pub certainty: Seq<char>,
    pub effective: Seq<char>,
    pub expires: Seq<char>,
    pub headline: Seq<char>,
    pub description: Seq<char>,
    pub web: Seq<char>,
}

impl View for CapFields {
    type V = CapView;

    open spec fn view(&self) -> CapView {
        CapView {
            identifier: self.identifier@,
            sender: self.sender@,
            sent: self.sent@,
            status: self.status@,
            msg_type: self.msg_type@,
            language: self.language@,
            category: self.category@,
            event: self.event@,
            urgency: self.urgency@,
            severity: self.severity@,
            certainty: self.certainty@,
            effective: self.effective@,
            expires: self.expires@,
            headline: self.headline@,
            description: self.description@,
            web: self.web@,
        }
    }
}

pub open spec fn empty_cap() -> CapView {
    CapView {
        identifier: Seq::empty(),
        sender: Seq::empty(),
        sent: Seq::empty(),
        status: Seq::empty(),
        msg_type: Seq::empty(),
        language: Seq::empty(),
        category: Seq::empty(),
        event: Seq::empty(),
        urgency: Seq::empty(),
        severity: Seq::empty(),
        certainty: Seq::empty(),
        effective: Seq::empty(),
        expires: Seq::empty(),
        headline: Seq::empty(),
        description: Seq::empty(),
        web: Seq::empty(),
    }
}

impl Default for CapFields {
    fn default() -> (r: CapFields)
        ensures
            r@ == empty_cap(),
    {
        CapFields {
            identifier: String::new(),
            sender: String::new(),
            sent: String::new(),
            status: String::new(),
            msg_type: String::new(),
            language: String::new(),
            category: String::new(),
            event: String::new(),
            urgency: String::new(),
            severity: String::new(),
            certainty: String::new(),
            effective: String::new(),
            expires: String::new(),
            headline: String::new(),
            description: String::new(),
            web: String::new(),
        }
    }
}

/// The first value that is not empty stays.
pub open spec fn keep_first(held: Seq<char>, offered: Seq<char>) -> Seq<char> {
    if held.len() == 0 {
        offered
    } else {
        held
    }
}

pub fn fill(slot: &mut String, v: &str)
    ensures
        final(slot)@ == keep_first(old(slot)@, v@),
{
    if slot.as_str().is_empty() {
        *slot = v.to_owned();
    }
}

impl CapView {
    /// The fields after the named one was offered a value. Other names change nothing.
    pub open spec fn with(self, name: Seq<char>, v: Seq<char>) -> CapView {
        if v.len() == 0 {
            self
        } else if name == "identifier"@ {
            CapView { identifier: keep_first(self.identifier, v), ..self }
        } else if name == "sender"@ {
            CapView { sender: keep_first(self.sender, v), ..self }
        } else if name == "sent"@ {
            CapView { sent: keep_first(self.sent, v), ..self }
        } else if name == "status"@ {
            CapView { status: keep_first(self.status, v), ..self }
        } else if name == "msgType"@ {
            CapView { msg_type: keep_first(self.msg_type, v), ..self }
        } else if name == "language"@ {
            CapView { language: keep_first(self.language, v), ..self }
        } else if name == "category"@ {
            CapView { category: keep_first(self.category, v), ..self }
        } else if name == "event"@ {
            CapView { event: keep_first(self.event, v), ..self }
        } else if name == "urgency"@ {
            CapView { urgency: keep_first(self.urgency, v), ..self }
        } else if name == "severity"@ {
            CapView { severity: keep_first(self.severity, v), ..self }
        } else if name == "certainty"@ {
            CapView { certainty: keep_first(self.certainty, v), ..self }
        } else if name == "effective"@ {
            CapView { effective: keep_first(self.effective, v), ..self }
        } else if name == "expires"@ {
            CapView { expires: keep_first(self.expires, v), ..self }
        } else if name == "headline"@ {
            CapView { headline: keep_first(self.headline, v), ..self }
        } else if name == "description"@ {
            CapView { description: keep_first(self.description, v), ..self }
        } else if name == "web"@ {
            CapView { web: keep_first(self.web, v), ..self }
        } else {
            self
        }
    }
}

impl CapFields {
    pub fn set(&mut self, name: &str, v: &str)
        ensures
            final(self)@ == old(self)@.with(name@, v@),
    {
        if v.is_empty() {
            return;
        }
        if same(name, "identifier") {
            fill(&mut self.identifier, v);
        } else if same(name, "sender") {
            fill(&mut self.sender, v);
        } else if same(name, "sent") {
            fill(&mut self.sent, v);
        } else if same(name, "status") {
            fill(&mut self.status, v);
        } else if same(name, "msgType") {
            fill(&mut self.msg_type, v);
        } else if same(name, "language") {
            fill(&mut self.language, v);
        } else if same(name, "category") {
            fill(&mut self.category, v);
        } else if same(name, "event") {
            fill(&mut self.event, v);
        } else if same(name, "urgency") {
            fill(&mut self.urgency, v);
        } else if same(name, "severity") {
            fill(&mut self.severity, v);
        } else if same(name, "certainty") {
            fill(&mut self.certainty, v);
        } else if same(name, "effective") {
            fill(&mut self.effective, v);
        } else if same(name, "expires") {
            fill(&mut self.expires, v);
        } else if same(name, "headline") {
            fill(&mut self.headline, v);
        } else if same(name, "description") {
            fill(&mut self.description, v);
        } else if same(name, "web") {
            fill(&mut self.web, v);
        }
    }
}

/// Where the reading of a CAP file stands.
pub struct CapReading {
    pub fields: CapFields,
    pub areas: Vec<Area>,
    /// The area that is open, if one is.
    pub current: Option<Area>,
    pub text: String,
}

pub ghost struct CapState {
    pub fields: CapView,
    pub areas: Seq<AreaView>,
    pub current: Option<AreaView>,
    pub text: Seq<char>,
}

impl View for CapReading {
    type V = CapState;

    open spec fn view(&self) -> CapState {
        CapState {
            fields: self.fields@,
            areas: area_views(self.areas@),
            current: match self.current {
                Some(a) => Some(a@),
                None => None,
            },
            text: self.text@,
        }
    }
}

pub open spec fn cap_start() -> CapState {
    CapState { fields: empty_cap(), areas: Seq::empty(), current: None, text: Seq::empty() }
}

pub open spec fn empty_area() -> AreaView {
    AreaView { description: Seq::empty(), polygon: Seq::empty() }
}

impl CapState {
    pub open spec fn opened(self, name: Seq<char>) -> CapState {
        CapState {
            current: if name == "area"@ {
                Some(empty_area())
            } else {
                self.current
            },
            text: Seq::empty(),
            ..self
        }
    }

    pub open spec fn closed(self, name: Seq<char>) -> CapState {
        let value = trim(self.text);
        let s = CapState { text: Seq::empty(), ..self };
        match self.current {
            Some(area) => if name == "areaDesc"@ {
                CapState { current: Some(AreaView { description: value, ..area }), ..s }
            } else if name == "polygon"@ {
                CapState { current: Some(AreaView { polygon: corners(words(value)), ..area }), ..s }
            } else if name == "area"@ {
                CapState { current: None, areas: self.areas.push(area), ..s }
            } else {
                s
            },
            None => if name == "area"@ {
                s
            } else {
                CapState { fields: self.fields.with(name, value), ..s }
            },
        }
    }

    pub open spec fn step(self, n: Node) -> CapState {
        match n {
            Node::Start(name) => self.opened(local_name(name)),
            Node::End(name) => self.closed(local_name(name)),
            _ => CapState { text: self.text + fragment(n), ..self },
        }
    }
}

/// The state after these events.
pub open spec fn cap_after(nodes: Seq<Node>, from: CapState) -> CapState
    decreases nodes.len(),
{
    if nodes.len() == 0 {
        from
    } else {
        cap_after(nodes.drop_last(), from).step(nodes.last())
    }
}

pub ghost struct DetailView {
    pub alert_code: Seq<char>,
    pub fields: CapView,
    pub infographic_url: Option<Seq<char>>,
    pub areas: Seq<AreaView>,
}

impl View for AlertDetail {
    type V = DetailView;

    open spec fn view(&self) -> DetailView {
        DetailView {
            alert_code: self.alert_code@,
            fields: CapView {
                identifier: self.identifier@,
                sender: self.sender@,
                sent: self.sent@,
                status: self.status@,
                msg_type: self.message_type@,
                language: self.language@,
                category: self.category@,
                event: self.event@,
                urgency: self.urgency@,
                severity: self.severity@,
                certainty: self.certainty@,
                effective: self.effective@,
                expires: self.expires@,
                headline: self.headline@,
                description: self.description@,
                web: match self.infographic_url {
                    Some(u) => u@,
                    None => Seq::empty(),
                },
            },
            infographic_url: opt(self.infographic_url),
            areas: area_views(self.areas@),
        }
    }
}

/// The warning that a CAP file's events describe.
pub open spec fn cap_detail(nodes: Seq<Node>, code: Seq<char>) -> Result<DetailView, Failure> {
    match nodes.last() {
        Node::Invalid(e) => Err(
            Failure::UpstreamParse("CAP file "@ + code + " is not valid XML: "@ + e),
        ),
        _ => {
            let s = cap_after(nodes.drop_last(), cap_start());
            if s.fields.identifier.len() == 0 && s.fields.headline.len() == 0 {
                Err(
                    Failure::UpstreamParse(
                        "CAP file "@ + code + " carried neither an identifier nor a headline"@,
                    ),
                )
            } else {
                Ok(
                    DetailView {
                        alert_code: code,
                        fields: s.fields,
                        infographic_url: unless_empty(s.fields.web),
                        areas: s.areas,
                    },
                )
            }
        },
    }
}

impl CapReading {
    pub fn start() -> (r: CapReading)
        ensures
            r@ == cap_start(),
    {
        let r = CapReading {
            fields: CapFields::default(),
            areas: Vec::new(),
            current: None,
            text: String::new(),
        };
        assert(r@.areas =~= cap_start().areas);
        r
    }

    fn close(&mut self, name: &str)
        ensures
            final(self)@ == old(self)@.closed(name@),
    {
        let value = trimmed(self.text.as_str());
        self.text = String::new();
        let mut current: Option<Area> = None;
        std::mem::swap(&mut current, &mut self.current);
        match current {
            Some(area) => {
                if same(name, "areaDesc") {
                    self.current = Some(Area { description: value, polygon: area.polygon });
                } else if same(name, "polygon") {
                    self.current = Some(
                        Area {
                            description: area.description,
                            polygon: parse_polygon(value.as_str()),
                        },
                    );
                } else if same(name, "area") {
                    self.areas.push(area);
                    assert(self@.areas =~= old(self)@.areas.push(area@));
                } else {
                    self.current = Some(area);
                }
            },
            None => {
                if !same(name, "area") {
                    self.fields.set(name, value.as_str());
                }
            },
        }
    }

    /// Takes in one event.
    pub fn step(&mut self, event: &XmlEvent)
        ensures
            final(self)@ == old(self)@.step(event@),
    {
        match event {
            XmlEvent::Start(raw) => {
                let name = local(raw.as_str());
                if same(name.as_str(), "area") {
                    let area = Area { description: String::new(), polygon: Vec::new() };
                    assert(area@.polygon =~= empty_area().polygon);
                    self.current = Some(area);
                }
                self.text = String::new();
            },
            XmlEvent::End(raw) => {
                let name = local(raw.as_str());
                self.close(name.as_str());
            },
            _ => {
                accumulate(&mut self.text, event);
            },
        }
    }

    /// The warning that the file described.
    pub fn finish(self, code: &str) -> (r: ApiResult<AlertDetail>)
        ensures
            if self@.fields.identifier.len() == 0 && self@.fields.headline.len() == 0 {
                r matches Err(e) && e@ == Failure::UpstreamParse(
                    "CAP file "@ + code@ + " carried neither an identifier nor a headline"@,
                )
            } else {
                r matches Ok(d) && d@ == (DetailView {
                    alert_code: code@,
                    fields: self@.fields,
                    infographic_url: unless_empty(self@.fields.web),
                    areas: self@.areas,
                })
            },
    {
        let f = self.fields;
        if f.identifier.as_str().is_empty() && f.headline.as_str().is_empty() {
            let mut m = "CAP file ".to_owned();
            m.append(code);
            m.append(" carried neither an identifier nor a headline");
            return Err(ApiError::UpstreamParse(m));
        }
        let d = AlertDetail {
            alert_code: code.to_owned(),
            identifier: f.identifier,
            sender: f.sender,
            sent: f.sent,
            status: f.status,
            message_type: f.msg_type,
            language: f.language,
            category: f.category,
            event: f.event,
            urgency: f.urgency,
            severity: f.severity,
            certainty: f.certainty,
            effective: f.effective,
            expires: f.expires,
            headline: f.headline,
            description: f.description,
            infographic_url: some_text(f.web),
            areas: self.areas,
        };
        assert(d@.fields.web =~= self@.fields.web);
        Ok(d)
    }
}

/// Reads a CAP file.
pub fn parse_cap(xml: &str, code: &str) -> (r: ApiResult<AlertDetail>)
    ensures
        match cap_detail(xml_nodes(xml@), code@) {
            Ok(d) => r matches Ok(v) && v@ == d,
            Err(f) => r matches Err(e) && e@ == f,
        },
{
    let mut reader = open(xml);
    let ghost nodes = xml_nodes(xml@);
    let ghost mut k: int = 0;
    let mut state = CapReading::start();
    assert(nodes.skip(0) =~= nodes);
    assert(cap_after(nodes.take(0), cap_start()) == cap_start());
    loop
        invariant
            nodes == xml_nodes(xml@),
            is_complete(nodes),
            0 <= k < nodes.len(),
            pending(&reader) == nodes.skip(k),
            state@ == cap_after(nodes.take(k), cap_start()),
        decreases nodes.len() - k,
    {
        let event = next_event(&mut reader);
        assert(outcome(event) == nodes[k]);
        assert(is_final(nodes[k]) ==> k == nodes.len() - 1);
        assert(k == nodes.len() - 1 ==> nodes[k] == nodes.last());
        match event {
            Err(e) => {
                let mut m = "CAP file ".to_owned();
                m.append(code);
                m.append(" is not valid XML: ");
                m.append(e.as_str());
                return Err(ApiError::UpstreamParse(m));
            },
            Ok(XmlEvent::Eof) => {
                assert(nodes.take(k) =~= nodes.drop_last());
                return state.finish(code);
            },
            Ok(event) => {
                state.step(&event);
                proof {
                    assert(nodes.take(k + 1).drop_last() =~= nodes.take(k));
                    assert(nodes.skip(k).skip(1) =~= nodes.skip(k + 1));
                    k = k + 1;
                }
            },
        }
    }
}

/// Corners as a GeoJSON-ordered coordinate list.
pub open spec fn polygon_tree(polygon: Seq<(Seq<char>, Seq<char>)>) -> Tree {
    Tree::Array(
        polygon.map_values(
            |c: (Seq<char>, Seq<char>)| Tree::Array(seq![Tree::Float(c.0), Tree::Float(c.1)]),
        ),
    )
}

impl AreaView {
    pub open spec fn tree(self) -> Tree {
        Tree::Object(
            seq![
                ("description"@, Tree::Text(self.description)),
                ("polygon"@, polygon_tree(self.polygon)),
            ],
        )
    }
}

impl DetailView {
    pub open spec fn tree(self) -> Tree {
        Tree::Object(
            seq![
                ("alert_code"@, Tree::Text(self.alert_code)),
                ("identifier"@, Tree::Text(self.fields.identifier)),
                ("sender"@, Tree::Text(self.fields.sender)),
                ("sent"@, Tree::Text(self.fields.sent)),
                ("status"@, Tree::Text(self.fields.status)),
                ("message_type"@, Tree::Text(self.fields.msg_type)),
                ("language"@, Tree::Text(self.fields.language)),
                ("category"@, Tree::Text(self.fields.category)),
                ("event"@, Tree::Text(self.fields.event)),
                ("urgency"@, Tree::Text(self.fields.urgency)),
                ("severity"@, Tree::Text(self.fields.severity)),
                ("certainty"@, Tree::Text(self.fields.certainty)),
                ("effective"@, Tree::Text(self.fields.effective)),
                ("expires"@, Tree::Text(self.fields.expires)),
                ("headline"@, Tree::Text(self.fields.headline)),
                ("description"@, Tree::Text(self.fields.description)),
            ] + optional("infographic_url"@, opt_tree(self.infographic_url)) + seq![
                ("areas"@, Tree::Array(self.areas.map_values(|a: AreaView| a.tree()))),
            ],
        )
    }
}

impl Area {
    pub fn to_json(&self) -> (r: Json)
        ensures
            r@ == self@.tree(),
    {
        let mut items: Vec<Json> = Vec::new();
        let mut i: usize = 0;
        let ghost all = polygon_tree(self@.polygon)->Array_0;
        assert(trees(items@) =~= all.take(0));
        while i < self.polygon.len()
            invariant
                i <= self.polygon@.len(),
                all == polygon_tree(self@.polygon)->Array_0,
                trees(items@) == all.take(i as int),
            decreases self.polygon@.len() - i,
        {
            let ghost before = trees(items@);
            let c: &[Number; 2] = &self.polygon[i];
            let mut pair: Vec<Json> = Vec::new();
            pair.push(Json::float(&c[0]));
            pair.push(Json::float(&c[1]));
            assert(trees(pair@) =~= seq![Tree::Float(c@[0]@), Tree::Float(c@[1]@)]);
            items.push(Json::array(pair));
            assert(self@.polygon[i as int] == (c@[0]@, c@[1]@));
            assert(trees(items@) =~= before.push(all[i as int]));
            i += 1;
            assert(trees(items@) =~= all.take(i as int));
        }
        assert(all.take(i as int) =~= all);
        let r = Json::object().with("description", Json::text(self.description.as_str())).with(
            "polygon",
            Json::array(items),
        );
        assert(r@->Object_0 =~= self@.tree()->Object_0);
        r
    }
}

impl AlertDetail {
    pub fn to_json(&self) -> (r: Json)
        ensures
            r@ == self@.tree(),
    {
        let mut items: Vec<Json> = Vec::new();
        let mut i: usize = 0;
        let ghost all = self@.areas.map_values(|a: AreaView| a.tree());
        assert(trees(items@) =~= all.take(0));
        while i < self.areas.len()
            invariant
                i <= self.areas@.len(),
                all == self@.areas.map_values(|a: AreaView| a.tree()),
                trees(items@) == all.take(i as int),
            decreases self.areas@.len() - i,
        {
            let ghost before = trees(items@);
            items.push(self.areas[i].to_json());
            assert(trees(items@) =~= before.push(all[i as int]));
            i += 1;
            assert(trees(items@) =~= all.take(i as int));
        }
        assert(all.take(i as int) =~= all);
        let head = Json::object().with("alert_code", Json::text(self.alert_code.as_str())).with(
            "identifier",
            Json::text(self.identifier.as_str()),
        ).with(
            "sender",
            Json::text(self.sender.as_str()),
        ).with(
            "sent",
            Json::text(self.sent.as_str()),
        ).with(
            "status",
            Json::text(self.status.as_str()),
        ).with(
            "message_type",
            Json::text(self.message_type.as_str()),
        ).with(
            "language",
            Json::text(self.language.as_str()),
        ).with(
            "category",
            Json::text(self.category.as_str()),
        ).with(
            "event",
            Json::text(self.event.as_str()),
        ).with(
            "urgency",
            Json::text(self.urgency.as_str()),
        ).with(
            "severity",
            Json::text(self.severity.as_str()),
        ).with(
            "certainty",
            Json::text(self.certainty.as_str()),
        ).with(
            "effective",
            Json::text(self.effective.as_str()),
        ).with(
            "expires",
            Json::text(self.expires.as_str()),
        ).with(
            "headline",
            Json::text(self.headline.as_str()),
        ).with(
            "description",
            Json::text(self.description.as_str()),
        );
        let ghost f = self@.fields;
        assert(head@->Object_0 =~= seq![
            ("alert_code"@, Tree::Text(self.alert_code@)),
            ("identifier"@, Tree::Text(f.identifier)),
            ("sender"@, Tree::Text(f.sender)),
            ("sent"@, Tree::Text(f.sent)),
            ("status"@, Tree::Text(f.status)),
            ("message_type"@, Tree::Text(f.msg_type)),
            ("language"@, Tree::Text(f.language)),
            ("category"@, Tree::Text(f.category)),
            ("event"@, Tree::Text(f.event)),
            ("urgency"@, Tree::Text(f.urgency)),
            ("severity"@, Tree::Text(f.severity)),
            ("certainty"@, Tree::Text(f.certainty)),
            ("effective"@, Tree::Text(f.effective)),
            ("expires"@, Tree::Text(f.expires)),
            ("headline"@, Tree::Text(f.headline)),
            ("description"@, Tree::Text(f.description)),
        ]);
        let r = head.with_text("infographic_url", &self.infographic_url).with(
            "areas",
            Json::array(items),
        );
        assert(r@->Object_0 =~= self@.tree()->Object_0);
        r
    }
}

// ------------------------------------------------------------------ requests

pub open spec fn index_address(language: Seq<char>) -> Seq<char> {
    "https://www.bmkg.go.id/alerts/nowcast"@ + "/"@ + language
}

/// Where the index in a language is to be fetched.
pub fn index_url(language: &str) -> (r: ApiResult<String>)
    ensures
        match language_of(language@) {
            Ok(l) => r matches Ok(s) && s@ == index_address(l),
            Err(f) => r matches Err(e) && e@ == f,
        },
{
    match lang(language) {
        Ok(l) => {
            let mut url = BASE.to_owned();
            url.append("/");
            url.append(l);
            Ok(url)
        },
        Err(e) => Err(e),
    }
}

/// All active warnings, from what fetching the index came to.
pub open spec fn index_result(language: Seq<char>, text: Result<Seq<char>, Failure>) -> Result<
    Seq<AlertView>,
    Failure,
> {
    match language_of(language) {
        Ok(l) => match text {
            Ok(xml) => match rss_alerts(xml_nodes(xml), l) {
                Ok(alerts) => Ok(alerts),
                Err(f) => Err(f.naming(index_address(l))),
            },
            Err(f) => Err(f),
        },
        Err(f) => Err(f),
    }
}

pub open spec fn alerts_result(r: ApiResult<Vec<Alert>>) -> Result<Seq<AlertView>, Failure> {
    match r {
        Ok(v) => Ok(alert_views(v@)),
        Err(e) => Err(e@),
    }
}

pub fn index(language: &str, text: ApiResult<String>) -> (r: ApiResult<Vec<Alert>>)
    ensures
        alerts_result(r) == index_result(language@, text_result(text)),
{
    let l = match lang(language) {
        Ok(l) => l,
        Err(e) => {
            return Err(e);
        },
    };
    match text {
        Ok(xml) => match parse_rss(xml.as_str(), l) {
            Ok(alerts) => Ok(alerts),
            Err(e) => {
                let mut url = BASE.to_owned();
                url.append("/");
                url.append(l);
                Err(e.naming(url.as_str()))
            },
        },
        Err(e) => Err(e),
    }
}

/// Letters and digits, at most 32 of them.
pub open spec fn is_alert_code(code: Seq<char>) -> bool {
    0 < code.len() <= 32 && all_alnum(code)
}

pub open spec fn detail_address(code: Seq<char>, language: Seq<char>) -> Result<
    Seq<char>,
    Failure,
> {
    match language_of(language) {
        Ok(l) => if is_alert_code(code) {
            Ok(index_address(l) + "/"@ + code + "_alert.xml"@)
        } else {
            Err(
                Failure::BadRequest(
                    debug_form(code)
                        + " is not an alert code (letters and digits, e.g. CJI20260911005)"@,
                ),
            )
        },
        Err(f) => Err(f),
    }
}

/// Where a warning's CAP file is to be fetched.
pub fn detail_url(code: &str, language: &str) -> (r: ApiResult<String>)
    ensures
        text_result(r) == detail_address(code@, language@),
{
    let base = match lang(language) {
        Ok(l) => {
            let mut url = BASE.to_owned();
            url.append("/");
            url.append(l);
            url
        },
        Err(e) => return Err(e),
    };
    if code.is_empty() || !only_alnum(code) || code.unicode_len() > 32 {
        let mut m = debug_text(code);
        m.append(" is not an alert code (letters and digits, e.g. CJI20260911005)");
        return Err(ApiError::BadRequest(m));
    }
    let mut url = base;
    url.append("/");
    url.append(code);
    url.append("_alert.xml");
    Ok(url)
}

/// One warning in full, given what fetching its CAP file came to. A file that cannot be read
/// is reported with the URL it came from.
pub open spec fn detail_outcome(
    code: Seq<char>,
    language: Seq<char>,
    text: Result<Seq<char>, Failure>,
) -> Result<DetailView, Failure> {
    match detail_address(code, language) {
        Ok(url) => match text {
            Ok(xml) => match cap_detail(xml_nodes(xml), code) {
                Ok(d) => Ok(d),
                Err(f) => Err(f.naming(url)),
            },
            Err(f) => Err(f),
        },
        Err(f) => Err(f),
    }
}

pub open spec fn detail_result(r: ApiResult<AlertDetail>) -> Result<DetailView, Failure> {
    match r {
        Ok(d) => Ok(d@),
        Err(e) => Err(e@),
    }
}

/// One warning in full, from what fetching its CAP file came to.
pub fn detail(code: &str, language: &str, text: ApiResult<String>) -> (r: ApiResult<AlertDetail>)
    ensures
        detail_result(r) == detail_outcome(code@, language@, text_result(text)),
{
    match detail_url(code, language) {
        Ok(url) => match text {
            Ok(xml) => match parse_cap(xml.as_str(), code) {
                Ok(d) => Ok(d),
                Err(e) => Err(e.naming(url.as_str())),
            },
            Err(e) => Err(e),
        },
        Err(e) => Err(e),
    }
}

// ------------------------------------------------------------------ check

impl AlertView {
    /// The warning's wording holds the needle, both in upper case.
    pub open spec fn mentions(self, needle: Seq<char>) -> bool {
        ||| contains(uppercased(self.headline), needle)
        ||| contains(uppercased(self.description), needle)
        ||| self.area matches Some(area) && contains(uppercased(area), needle)
    }
}

/// Whether any of the texts holds the needle.
pub fn any_contains(headline: &str, description: &str, area: Option<&str>, needle: &str) -> (r:
    bool)
    ensures
        r == (contains(headline@, needle@) || contains(description@, needle@) || (area matches Some(
            a,
        ) && contains(a@, needle@))),
{
    contains_text(headline, needle) || contains_text(description, needle) || match area {
        Some(a) => contains_text(a, needle),
        None => false,
    }
}

pub fn alert_mentions(a: &Alert, needle: &str) -> (r: bool)
    ensures
        r == a@.mentions(needle@),
{
    let headline = uppercase(a.headline.as_str());
    let description = uppercase(a.description.as_str());
    match &a.area {
        Some(area) => {
            let area = uppercase(area.as_str());
            any_contains(
                headline.as_str(),
                description.as_str(),
                Some(area.as_str()),
                needle,
            )
        },
        None => any_contains(headline.as_str(), description.as_str(), None, needle),
    }
}

/// The warnings whose wording holds the needle, in their order.
pub open spec fn mentioning(alerts: Seq<AlertView>, needle: Seq<char>) -> Seq<AlertView> {
    alerts.filter(|a: AlertView| a.mentions(needle))
}

pub fn keep_mentioning(alerts: Vec<Alert>, needle: &str) -> (r: Vec<Alert>)
    ensures
        alert_views(r@) == mentioning(alert_views(alerts@), needle@),
{
    let mut r: Vec<Alert> = Vec::new();
    let ghost all = alert_views(alerts@);
    proof {
        reveal(Seq::filter);
        assert(alert_views(r@) =~= mentioning(all.take(0), needle@));
    }
    for a in it: alerts
        invariant
            it.seq() == alerts@,
            all == alert_views(alerts@),
            alert_views(r@) == mentioning(all.take(it.index()), needle@),
    {
        let ghost before = alert_views(r@);
        proof {
            reveal(Seq::filter);
            assert(all.take(it.index() + 1).drop_last() =~= all.take(it.index()));
            assert(all[it.index()] == a@);
        }
        if alert_mentions(&a, needle) {
            r.push(a);
            assert(alert_views(r@) =~= before.push(a@));
        }
    }
    assert(all.take(all.len() as int) =~= all);
    r
}

/// Which active warnings mention a place.
///
/// BMKG lists affected subdistricts inside the description text, not as structured
/// fields, so this is a text match over the live index: good enough to answer "is
/// there a warning for my town", and honest about being a text match.
pub open spec fn check_result(
    query: Seq<char>,
    language: Seq<char>,
    text: Result<Seq<char>, Failure>,
) -> Result<Seq<AlertView>, Failure> {
    if trim(query).len() < 3 {
        Err(Failure::BadRequest("location must be at least 3 characters"@))
    } else {
        match index_result(language, text) {
            Ok(alerts) => Ok(mentioning(alerts, uppercased(trim(query)))),
            Err(f) => Err(f),
        }
    }
}

/// The needle that a place name is searched as.
pub fn check_needle(query: &str) -> (r: ApiResult<String>)
    ensures
        if trim(query@).len() < 3 {
            r matches Err(e) && e@ == Failure::BadRequest(
                "location must be at least 3 characters"@,
            )
        } else {
            r matches Ok(s) && s@ == uppercased(trim(query@))
        },
{
    let place = trimmed(query);
    if place.as_str().unicode_len() < 3 {
        Err(ApiError::BadRequest("location must be at least 3 characters".to_owned()))
    } else {
        Ok(uppercase(place.as_str()))
    }
}

/// Where the index is to be fetched for a check.
pub fn check_url(query: &str, language: &str) -> (r: ApiResult<String>)
    ensures
        text_result(r) == (if trim(query@).len() < 3 {
            Err(Failure::BadRequest("location must be at least 3 characters"@))
        } else {
            match language_of(language@) {
                Ok(l) => Ok(index_address(l)),
                Err(f) => Err(f),
            }
        }),
{
    match check_needle(query) {
        Ok(_) => index_url(language),
        Err(e) => Err(e),
    }
}

/// The active warnings that mention a place, from what fetching the index came to.
pub fn check(query: &str, language: &str, text: ApiResult<String>) -> (r: ApiResult<Vec<Alert>>)
    ensures
        alerts_result(r) == check_result(query@, language@, text_result(text)),
{
    match check_needle(query) {
        Ok(needle) => match index(language, text) {
            Ok(alerts) => Ok(keep_mentioning(alerts, needle.as_str())),
            Err(e) => Err(e),
        },
        Err(e) => Err(e),
    }
}

// ------------------------------------------------------------------ laws

/// An index or a CAP file that was fetched but cannot be read is an `upstream_parse` error
/// naming its URL.
pub proof fn an_unreadable_warning_names_its_url(code: Seq<char>, language: Seq<char>, xml: Seq<char>)
    ensures
        language_of(language) matches Ok(l) ==> (index_result(language, Ok(xml)) matches Err(f)
            ==> is_unreadable_at(f, index_address(l))),
        detail_address(code, language) matches Ok(url) ==> (detail_outcome(
            code,
            language,
            Ok(xml),
        ) matches Err(f) ==> is_unreadable_at(f, url)),
{
    if let Ok(l) = language_of(language) {
        if let Err(f) = rss_alerts(xml_nodes(xml), l) {
            a_changed_payload_names_its_url(index_address(l), f.message());
        }
    }
    if let Ok(url) = detail_address(code, language) {
        if let Err(f) = cap_detail(xml_nodes(xml), code) {
            a_changed_payload_names_its_url(url, f.message());
        }
    }
}

/// The joined text of the events.
pub open spec fn fragments(nodes: Seq<Node>) -> Seq<char>
    decreases nodes.len(),
{
    if nodes.len() == 0 {
        Seq::empty()
    } else {
        fragments(nodes.drop_last()) + fragment(nodes.last())
    }
}

/// Events that open or close no tag and end no document.
pub open spec fn all_inline(nodes: Seq<Node>) -> bool {
    forall|i: int|
        0 <= i < nodes.len() ==> {
            let n = #[trigger] nodes[i];
            !(n is Start) && !(n is End) && !is_final(n)
        }
}

/// However many references cut the text of an item's element into pieces, the item gets all
/// of it, trimmed once as a whole.
pub proof fn item_text_survives_references(
    s: RssState,
    tag: Seq<char>,
    inner: Seq<Node>,
    language: Seq<char>,
)
    requires
        s.in_item,
        local_name(tag).len() > 0,
        local_name(tag) != "item"@,
        all_inline(inner),
    ensures
        rss_after(seq![Node::Start(tag)] + inner + seq![Node::End(tag)], s, language) == (RssState {
            item: s.item.with(local_name(tag), trim(fragments(inner))),
            field: Seq::empty(),
            text: Seq::empty(),
            ..s
        }),
{
    let all = seq![Node::Start(tag)] + inner + seq![Node::End(tag)];
    let opened = seq![Node::Start(tag)] + inner;
    assert(all.drop_last() =~= opened);
    assert(all.last() == Node::End(tag));
    item_text_accumulates(s, tag, inner, language);
}

proof fn item_text_accumulates(
    s: RssState,
    tag: Seq<char>,
    inner: Seq<Node>,
    language: Seq<char>,
)
    requires
        s.in_item,
        local_name(tag).len() > 0,
        local_name(tag) != "item"@,
        all_inline(inner),
    ensures
        rss_after(seq![Node::Start(tag)] + inner, s, language) == (RssState {
            field: local_name(tag),
            text: fragments(inner),
            ..s
        }),
    decreases inner.len(),
{
    let run = seq![Node::Start(tag)] + inner;
    if inner.len() == 0 {
        assert(run =~= seq![Node::Start(tag)]);
        assert(run.drop_last() =~= Seq::empty());
        assert(rss_after(run.drop_last(), s, language) == s);
    } else {
        let shorter = inner.drop_last();
        assert(run.drop_last() =~= seq![Node::Start(tag)] + shorter);
        assert(all_inline(shorter)) by {
            assert forall|i: int| 0 <= i < shorter.len() implies {
                let n = #[trigger] shorter[i];
                !(n is Start) && !(n is End) && !is_final(n)
            } by {
                assert(inner[i] == shorter[i]);
            }
        }
        item_text_accumulates(s, tag, shorter, language);
        let n = inner[inner.len() - 1];
        assert(run.last() == n);
    }
}

/// The same of a CAP file: an element outside the areas gets all of its text, trimmed once.
pub proof fn cap_text_survives_references(s: CapState, tag: Seq<char>, inner: Seq<Node>)
    requires
        s.current is None,
        local_name(tag) != "area"@,
        all_inline(inner),
    ensures
        cap_after(seq![Node::Start(tag)] + inner + seq![Node::End(tag)], s) == (CapState {
            fields: s.fields.with(local_name(tag), trim(fragments(inner))),
            text: Seq::empty(),
            ..s
        }),
{
    let all = seq![Node::Start(tag)] + inner + seq![Node::End(tag)];
    let opened = seq![Node::Start(tag)] + inner;
    assert(all.drop_last() =~= opened);
    assert(all.last() == Node::End(tag));
    cap_text_accumulates(s, tag, inner);
}

proof fn cap_text_accumulates(s: CapState, tag: Seq<char>, inner: Seq<Node>)
    requires
        local_name(tag) != "area"@,
        all_inline(inner),
    ensures
        cap_after(seq![Node::Start(tag)] + inner, s) == (CapState { text: fragments(inner), ..s }),
    decreases inner.len(),
{
    let run = seq![Node::Start(tag)] + inner;
    if inner.len() == 0 {
        assert(run =~= seq![Node::Start(tag)]);
        assert(run.drop_last() =~= Seq::empty());
        assert(cap_after(run.drop_last(), s) == s);
    } else {
        let shorter = inner.drop_last();
        assert(run.drop_last() =~= seq![Node::Start(tag)] + shorter);
        assert(all_inline(shorter)) by {
            assert forall|i: int| 0 <= i < shorter.len() implies {
                let n = #[trigger] shorter[i];
                !(n is Start) && !(n is End) && !is_final(n)
            } by {
                assert(inner[i] == shorter[i]);
            }
        }
        cap_text_accumulates(s, tag, shorter);
        let n = inner[inner.len() - 1];
        assert(run.last() == n);
    }
}

/// A code of letters and digits, the route of its detail, and the area that the headline
/// names.
pub open spec fn is_addressable(a: AlertView, language: Seq<char>) -> bool {
    &&& a.alert_code.len() > 0
    &&& all_alnum(a.alert_code)
    &&& a.detail_url == detail_path(a.alert_code, language)
    &&& a.area == headline_area(a.headline)
}

/// Every warning in an index has a code of letters and digits, and its `detail_url` is the
/// route for that code in the index's language.
pub proof fn every_alert_is_addressable(nodes: Seq<Node>, language: Seq<char>)
    ensures
        rss_alerts(nodes, language) matches Ok(alerts) ==> forall|i: int|
            0 <= i < alerts.len() ==> is_addressable(#[trigger] alerts[i], language),
{
    addressable_after(nodes.drop_last(), language);
}

proof fn addressable_after(nodes: Seq<Node>, language: Seq<char>)
    ensures
        forall|i: int|
            0 <= i < rss_after(nodes, rss_start(), language).alerts.len() ==> is_addressable(
                #[trigger] rss_after(nodes, rss_start(), language).alerts[i],
                language,
            ),
    decreases nodes.len(),
{
    if nodes.len() > 0 {
        let before = rss_after(nodes.drop_last(), rss_start(), language);
        let after = rss_after(nodes, rss_start(), language);
        addressable_after(nodes.drop_last(), language);
        assert(after == before.step(nodes.last(), language));
        assert forall|i: int| 0 <= i < after.alerts.len() implies is_addressable(
            #[trigger] after.alerts[i],
            language,
        ) by {
            if i < before.alerts.len() {
                assert(after.alerts[i] == before.alerts[i]);
            }
        }
    }
}

/// The code read off the address of a warning's detail file is the warning's code.
pub proof fn code_reads_back_from_its_address(code: Seq<char>, language: Seq<char>)
    requires
        is_alert_code(code),
        language_of(language) is Ok,
    ensures
        detail_address(code, language) matches Ok(url) && link_code(url) == Some(code),
{
    let l = language_of(language)->Ok_0;
    let dir = index_address(l);
    let suffix = "_alert.xml"@;
    let file = code + suffix;
    let url = dir + "/"@ + code + suffix;
    reveal_strlit("_alert.xml");
    reveal_strlit("/");
    assert(url =~= dir.push('/') + file);
    assert(!file.contains('/')) by {
        if file.contains('/') {
            let i = choose|i: int| 0 <= i < file.len() && file[i] == '/';
            if i < code.len() {
                assert(crate::text::is_alnum(code[i]));
            } else {
                assert(suffix[i - code.len()] == '/');
            }
        }
    }
    crate::text::last_piece_after(dir, file, '/');
    assert(file.subrange(file.len() - suffix.len(), file.len() as int) =~= suffix);
    assert(file.take(file.len() - suffix.len()) =~= code);
}

/// A headline that ends in " in " and a place names that place as its area.
pub proof fn area_is_read_off_the_headline(lead: Seq<char>, place: Seq<char>)
    requires
        is_last_occurrence(lead + " in "@ + place, " in "@, lead.len() as int),
        trim(place) == place,
        place.len() > 0,
    ensures
        headline_area(lead + " in "@ + place) == Some(place),
{
    let title = lead + " in "@ + place;
    let i = last_index(title, " in "@);
    assert(is_last_occurrence(title, " in "@, i));
    assert(i == lead.len());
    assert(title.skip(i + " in "@.len()) =~= place);
}

/// A headline without " in " that ends in " di " and a place, as the Indonesian feed words
/// it, names that place.
pub proof fn area_is_read_off_the_indonesian_headline(lead: Seq<char>, place: Seq<char>)
    requires
        !contains(lead + " di "@ + place, " in "@),
        is_last_occurrence(lead + " di "@ + place, " di "@, lead.len() as int),
        trim(place) == place,
        place.len() > 0,
    ensures
        headline_area(lead + " di "@ + place) == Some(place),
{
    let title = lead + " di "@ + place;
    let i = last_index(title, " di "@);
    assert(is_last_occurrence(title, " di "@, i));
    assert(i == lead.len());
    assert(title.skip(i + " di "@.len()) =~= place);
}

/// A CAP element that comes twice keeps what it said first.
pub proof fn first_cap_value_wins(f: CapView, name: Seq<char>, first: Seq<char>, second: Seq<char>)
    requires
        first.len() > 0,
    ensures
        f.with(name, first).with(name, second) == f.with(name, first),
{
}

/// A `lat,lon` pair of numbers becomes `[lon, lat]`.
pub proof fn pair_is_swapped_into_geojson_order(lat: Seq<char>, lon: Seq<char>)
    requires
        is_float(lat),
        is_float(lon),
    ensures
        corner(lat + seq![','] + lon) == Some((lon, lat)),
{
    crate::number::float_has_no_gaps(lat);
    crate::number::float_has_no_gaps(lon);
    let pair = lat + seq![','] + lon;
    crate::text::first_of_is_first(pair, ',');
    let i = crate::text::first_of(pair, ',');
    assert(pair[lat.len() as int] == ',');
    assert(i == lat.len()) by {
        if i < lat.len() {
            assert(pair[i] == lat[i]);
        }
    }
    assert(pair.take(i) =~= lat);
    assert(pair.skip(i + 1) =~= lon);
    crate::text::trim_of_tight(lat);
    crate::text::trim_of_tight(lon);
}

/// `lat,lon` as CAP writes it.
pub open spec fn written_pair(c: (Seq<char>, Seq<char>)) -> Seq<char> {
    c.0 + seq![','] + c.1
}

pub open spec fn written_pairs(cs: Seq<(Seq<char>, Seq<char>)>) -> Seq<Seq<char>> {
    cs.map_values(|c: (Seq<char>, Seq<char>)| written_pair(c))
}

/// A polygon written as `lat,lon` pairs with spaces between them is read corner for corner,
/// each as `[lon, lat]`.
pub proof fn polygons_read_back_in_geojson_order(cs: Seq<(Seq<char>, Seq<char>)>)
    requires
        forall|i: int| 0 <= i < cs.len() ==> is_float((#[trigger] cs[i]).0) && is_float(cs[i].1),
    ensures
        corners(words(crate::text::join(written_pairs(cs), " "@))) == cs.map_values(
            |c: (Seq<char>, Seq<char>)| (c.1, c.0),
        ),
{
    let pairs = written_pairs(cs);
    assert forall|i: int| 0 <= i < pairs.len() implies crate::text::is_word(#[trigger] pairs[i]) by {
        let (lat, lon) = cs[i];
        let pair = written_pair(cs[i]);
        assert(is_float(cs[i].0));
        crate::number::float_has_no_gaps(lat);
        crate::number::float_has_no_gaps(lon);
        assert forall|j: int| 0 <= j < pair.len() implies !crate::text::is_white(
            #[trigger] pair[j],
        ) by {
            if j < lat.len() {
                assert(pair[j] == lat[j]);
            } else if j > lat.len() {
                assert(pair[j] == lon[j - lat.len() - 1]);
            }
        }
    }
    crate::text::joined_words_read_back(pairs);
    corners_of_pairs(cs);
}

proof fn corners_of_pairs(cs: Seq<(Seq<char>, Seq<char>)>)
    requires
        forall|i: int| 0 <= i < cs.len() ==> is_float((#[trigger] cs[i]).0) && is_float(cs[i].1),
    ensures
        corners(written_pairs(cs)) == cs.map_values(|c: (Seq<char>, Seq<char>)| (c.1, c.0)),
    decreases cs.len(),
{
    let pairs = written_pairs(cs);
    let swapped = cs.map_values(|c: (Seq<char>, Seq<char>)| (c.1, c.0));
    if cs.len() > 0 {
        let rest = cs.drop_last();
        let last = cs[cs.len() - 1];
        assert forall|i: int| 0 <= i < rest.len() implies is_float((#[trigger] rest[i]).0)
            && is_float(rest[i].1) by {
            assert(rest[i] == cs[i]);
        }
        corners_of_pairs(rest);
        assert(pairs.drop_last() =~= written_pairs(rest));
        assert(pairs.last() == written_pair(last));
        pair_is_swapped_into_geojson_order(last.0, last.1);
        assert(swapped =~= rest.map_values(|c: (Seq<char>, Seq<char>)| (c.1, c.0)).push(
            (last.1, last.0),
        ));
    } else {
        assert(corners(pairs) =~= swapped);
    }
}

/// An element of an item or file: its tag and what stands between its start and its end.
pub ghost struct Element {
    pub tag: Seq<char>,
    pub inner: Seq<Node>,
}

impl Element {
    /// The events of the element.
    pub open spec fn nodes(self) -> Seq<Node> {
        seq![Node::Start(self.tag)] + self.inner + seq![Node::End(self.tag)]
    }

    pub open spec fn name(self) -> Seq<char> {
        local_name(self.tag)
    }

    pub open spec fn text(self) -> Seq<char> {
        trim(fragments(self.inner))
    }
}

pub open spec fn element_nodes(es: Seq<Element>) -> Seq<Node>
    decreases es.len(),
{
    if es.len() == 0 {
        Seq::empty()
    } else {
        element_nodes(es.drop_last()) + es.last().nodes()
    }
}

/// The item with each element's text under the element's name.
pub open spec fn item_of(es: Seq<Element>) -> ItemView
    decreases es.len(),
{
    if es.len() == 0 {
        empty_item()
    } else {
        item_of(es.drop_last()).with(es.last().name(), es.last().text())
    }
}

/// An element that can stand in an item: it has a name, and only text in it.
pub open spec fn is_item_element(e: Element) -> bool {
    e.name().len() > 0 && e.name() != "item"@ && all_inline(e.inner)
}

/// Reading one run of events and then another is reading both.
pub proof fn rss_after_two(a: Seq<Node>, b: Seq<Node>, s: RssState, language: Seq<char>)
    ensures
        rss_after(a + b, s, language) == rss_after(b, rss_after(a, s, language), language),
    decreases b.len(),
{
    if b.len() == 0 {
        assert(a + b =~= a);
    } else {
        assert((a + b).drop_last() =~= a + b.drop_last());
        assert((a + b).last() == b.last());
        rss_after_two(a, b.drop_last(), s, language);
    }
}

proof fn item_elements_are_read(es: Seq<Element>, s: RssState, language: Seq<char>)
    requires
        s.in_item,
        s.item == empty_item(),
        forall|i: int| 0 <= i < es.len() ==> is_item_element(#[trigger] es[i]),
    ensures
        ({
            let t = rss_after(element_nodes(es), s, language);
            t.in_item && t.item == item_of(es) && t.alerts == s.alerts
        }),
    decreases es.len(),
{
    if es.len() > 0 {
        let rest = es.drop_last();
        let last = es[es.len() - 1];
        assert forall|i: int| 0 <= i < rest.len() implies is_item_element(#[trigger] rest[i]) by {
            assert(rest[i] == es[i]);
        }
        item_elements_are_read(rest, s, language);
        rss_after_two(element_nodes(rest), last.nodes(), s, language);
        assert(is_item_element(last));
        item_text_survives_references(
            rss_after(element_nodes(rest), s, language),
            last.tag,
            last.inner,
            language,
        );
    }
}

/// What an item says is what its warning says: reading an item adds the warning that its
/// elements make up, if they carry a code, and nothing else.
pub proof fn an_item_is_read_back(
    item_tag: Seq<char>,
    es: Seq<Element>,
    s: RssState,
    language: Seq<char>,
)
    requires
        local_name(item_tag) == "item"@,
        forall|i: int| 0 <= i < es.len() ==> is_item_element(#[trigger] es[i]),
    ensures
        rss_after(
            seq![Node::Start(item_tag)] + element_nodes(es) + seq![Node::End(item_tag)],
            s,
            language,
        ).alerts == (match item_of(es).alert(language) {
            Some(a) => s.alerts.push(a),
            None => s.alerts,
        }),
{
    let open = seq![Node::Start(item_tag)];
    let close = seq![Node::End(item_tag)];
    let body = element_nodes(es);
    rss_after_two(open + body, close, s, language);
    rss_after_two(open, body, s, language);
    assert(open.drop_last() =~= Seq::empty());
    assert(open.last() == Node::Start(item_tag));
    assert(rss_after(open.drop_last(), s, language) == s);
    let opened = rss_after(open, s, language);
    assert(opened == s.opened("item"@));
    item_elements_are_read(es, opened, language);
    let read = rss_after(open + body, s, language);
    assert(close.drop_last() =~= Seq::empty());
    assert(rss_after(close.drop_last(), read, language) == read);
    assert(close.last() == Node::End(item_tag));
}

/// The fields with each element's text under the element's name, the first text winning.
pub open spec fn cap_of(es: Seq<Element>) -> CapView
    decreases es.len(),
{
    if es.len() == 0 {
        empty_cap()
    } else {
        cap_of(es.drop_last()).with(es.last().name(), es.last().text())
    }
}

/// Reading one run of events and then another is reading both.
pub proof fn cap_after_two(a: Seq<Node>, b: Seq<Node>, s: CapState)
    ensures
        cap_after(a + b, s) == cap_after(b, cap_after(a, s)),
    decreases b.len(),
{
    if b.len() == 0 {
        assert(a + b =~= a);
    } else {
        assert((a + b).drop_last() =~= a + b.drop_last());
        assert((a + b).last() == b.last());
        cap_after_two(a, b.drop_last(), s);
    }
}

/// What a CAP file says outside its areas is what its warning says.
pub proof fn cap_fields_are_read_back(es: Seq<Element>)
    requires
        forall|i: int|
            0 <= i < es.len() ==> (#[trigger] es[i]).name() != "area"@ && all_inline(es[i].inner),
    ensures
        cap_after(element_nodes(es), cap_start()) == (CapState {
            fields: cap_of(es),
            ..cap_start()
        }),
    decreases es.len(),
{
    if es.len() > 0 {
        let rest = es.drop_last();
        let last = es[es.len() - 1];
        assert forall|i: int| 0 <= i < rest.len() implies (#[trigger] rest[i]).name() != "area"@
            && all_inline(rest[i].inner) by {
            assert(rest[i] == es[i]);
        }
        cap_fields_are_read_back(rest);
        cap_after_two(element_nodes(rest), last.nodes(), cap_start());
        assert(last.name() != "area"@);
        cap_text_survives_references(
            cap_after(element_nodes(rest), cap_start()),
            last.tag,
            last.inner,
        );
    }
}

proof fn area_text_is_read(s: CapState, area: AreaView, e: Element)
    requires
        s.current == Some(area),
        e.name() != "area"@,
        all_inline(e.inner),
    ensures
        e.name() == "areaDesc"@ ==> cap_after(e.nodes(), s) == (CapState {
            current: Some(AreaView { description: e.text(), ..area }),
            text: Seq::empty(),
            ..s
        }),
        e.name() == "polygon"@ && e.name() != "areaDesc"@ ==> cap_after(e.nodes(), s) == (CapState {
            current: Some(AreaView { polygon: corners(words(e.text())), ..area }),
            text: Seq::empty(),
            ..s
        }),
{
    let all = e.nodes();
    let opened = seq![Node::Start(e.tag)] + e.inner;
    assert(all.drop_last() =~= opened);
    assert(all.last() == Node::End(e.tag));
    cap_text_accumulates(s, e.tag, e.inner);
}

/// An area of a CAP file is read as its description and its polygon.
pub proof fn an_area_is_read_back(area_tag: Seq<char>, desc: Element, polygon: Element, s: CapState)
    requires
        local_name(area_tag) == "area"@,
        desc.name() == "areaDesc"@,
        polygon.name() == "polygon"@,
        all_inline(desc.inner),
        all_inline(polygon.inner),
    ensures
        cap_after(
            seq![Node::Start(area_tag)] + desc.nodes() + polygon.nodes() + seq![
                Node::End(area_tag),
            ],
            s,
        ) == (CapState {
            areas: s.areas.push(
                AreaView { description: desc.text(), polygon: corners(words(polygon.text())) },
            ),
            current: None,
            text: Seq::empty(),
            ..s
        }),
{
    reveal_strlit("area");
    reveal_strlit("areaDesc");
    reveal_strlit("polygon");
    assert("area"@.len() == 4 && "areaDesc"@.len() == 8 && "polygon"@.len() == 7);
    let open = seq![Node::Start(area_tag)];
    let close = seq![Node::End(area_tag)];
    cap_after_two(open + desc.nodes() + polygon.nodes(), close, s);
    cap_after_two(open + desc.nodes(), polygon.nodes(), s);
    cap_after_two(open, desc.nodes(), s);
    assert(open.drop_last() =~= Seq::empty());
    assert(open.last() == Node::Start(area_tag));
    assert(cap_after(open.drop_last(), s) == s);
    let opened = cap_after(open, s);
    assert(opened == s.opened("area"@));
    area_text_is_read(opened, empty_area(), desc);
    let described = cap_after(open + desc.nodes(), s);
    area_text_is_read(described, AreaView { description: desc.text(), ..empty_area() }, polygon);
    let drawn = cap_after(open + desc.nodes() + polygon.nodes(), s);
    assert(close.drop_last() =~= Seq::empty());
    assert(close.last() == Node::End(area_tag));
    assert(cap_after(close.drop_last(), drawn) == drawn);
}

/// A check lists exactly the warnings of the index that mention the place.
pub proof fn check_lists_exactly_the_mentions(alerts: Seq<AlertView>, needle: Seq<char>)
    ensures
        forall|a: AlertView| #[trigger]
            mentioning(alerts, needle).contains(a) <==> alerts.contains(a) && a.mentions(needle),
    decreases alerts.len(),
{
    reveal(Seq::filter);
    if alerts.len() > 0 {
        let rest = alerts.drop_last();
        let last = alerts.last();
        check_lists_exactly_the_mentions(rest, needle);
        let all = mentioning(alerts, needle);
        let kept = mentioning(rest, needle);
        assert(all == if last.mentions(needle) {
            kept.push(last)
        } else {
            kept
        });
        assert forall|a: AlertView| #[trigger] all.contains(a) <==> (alerts.contains(a)
            && a.mentions(needle)) by {
            assert(kept.contains(a) <==> (rest.contains(a) && a.mentions(needle)));
            assert(alerts =~= rest.push(last));
            push_contains(rest, last, a);
            push_contains(kept, last, a);
        }
    }
}

proof fn push_contains(s: Seq<AlertView>, last: AlertView, a: AlertView)
    ensures
        s.push(last).contains(a) <==> s.contains(a) || a == last,
{
    let t = s.push(last);
    if s.contains(a) {
        let i = choose|i: int| 0 <= i < s.len() && s[i] == a;
        assert(t[i] == a);
    }
    if a == last {
        assert(t[s.len() as int] == a);
    }
    if t.contains(a) {
        let i = choose|i: int| 0 <= i < t.len() && t[i] == a;
        assert(i < s.len() ==> s[i] == a);
    }
}

} // verus!
