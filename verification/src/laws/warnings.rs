//! Warnings: each element of an index or a CAP file is told under its own name.

use vstd::prelude::*;
use crate::api::Failure;
use crate::nowcast::{
    alert_views, alerts_result, all_inline, an_item_is_read_back, cap_after, cap_after_two,
    cap_detail, cap_fields_are_read_back, cap_of, cap_start, cap_text_survives_references,
    check_lists_exactly_the_mentions, check_result, corners, detail_address, detail_outcome,
    detail_result, element_nodes, entity_char, fragment, fragments, headline_area, index_address,
    index_result, is_item_element, item_of, language_of, link_code, local_name, mentioning,
    polygons_read_back_in_geojson_order, rss_after, rss_after_two, rss_alerts, rss_start,
    written_pairs, Alert, AlertDetail, AlertView, Area, CapState, CapView, DetailView, Element,
    RssState,
};
use crate::number::is_float;
use crate::text::{all_alnum, contains, is_alnum, join, last_piece_after, trim, uppercased, words};
use crate::xml::{xml_nodes, Node};

verus! {

// ------------------------------------------------------------------ CAP files

/// The names of the elements that a warning is read from.
proof fn cap_names()
    ensures
        "identifier"@.len() == 10,
        "sender"@.len() == 6,
        "sent"@.len() == 4,
        "status"@.len() == 6,
        "msgType"@.len() == 7,
        "language"@.len() == 8,
        "category"@.len() == 8,
        "event"@.len() == 5,
        "urgency"@.len() == 7,
        "severity"@.len() == 8,
        "certainty"@.len() == 9,
        "effective"@.len() == 9,
        "expires"@.len() == 7,
        "headline"@.len() == 8,
        "description"@.len() == 11,
        "web"@.len() == 3,
        "sender"@[1] == 'e',
        "status"@[1] == 't',
        "msgType"@[0] == 'm',
        "urgency"@[0] == 'u',
        "expires"@[0] == 'e',
        "language"@[0] == 'l',
        "category"@[0] == 'c',
        "severity"@[0] == 's',
        "headline"@[0] == 'h',
        "certainty"@[0] == 'c',
        "effective"@[0] == 'e',
{
    reveal_strlit("identifier");
    reveal_strlit("sender");
    reveal_strlit("sent");
    reveal_strlit("status");
    reveal_strlit("msgType");
    reveal_strlit("language");
    reveal_strlit("category");
    reveal_strlit("event");
    reveal_strlit("urgency");
    reveal_strlit("severity");
    reveal_strlit("certainty");
    reveal_strlit("effective");
    reveal_strlit("expires");
    reveal_strlit("headline");
    reveal_strlit("description");
    reveal_strlit("web");
}

/// The first text that an element of this name has, or none where all of them are empty.
pub open spec fn first_text(es: Seq<Element>, name: Seq<char>) -> Seq<char>
    decreases es.len(),
{
    if es.len() == 0 {
        Seq::empty()
    } else if first_text(es.drop_last(), name).len() > 0 {
        first_text(es.drop_last(), name)
    } else if es.last().name() == name {
        es.last().text()
    } else {
        Seq::empty()
    }
}

/// What was held stays, and only where nothing was held a new value is taken.
pub open spec fn held_or(held: Seq<char>, v: Seq<char>) -> Seq<char> {
    if held.len() > 0 {
        held
    } else {
        v
    }
}

/// An element lands in the field of its own name, unless that field has a value already, and
/// leaves all other fields as they were.
pub proof fn an_element_fills_its_own_field(f: CapView, v: Seq<char>)
    requires
        v.len() > 0,
    ensures
        f.with("identifier"@, v) == (CapView { identifier: held_or(f.identifier, v), ..f }),
        f.with("sender"@, v) == (CapView { sender: held_or(f.sender, v), ..f }),
        f.with("sent"@, v) == (CapView { sent: held_or(f.sent, v), ..f }),
        f.with("status"@, v) == (CapView { status: held_or(f.status, v), ..f }),
        f.with("msgType"@, v) == (CapView { msg_type: held_or(f.msg_type, v), ..f }),
        f.with("language"@, v) == (CapView { language: held_or(f.language, v), ..f }),
        f.with("category"@, v) == (CapView { category: held_or(f.category, v), ..f }),
        f.with("event"@, v) == (CapView { event: held_or(f.event, v), ..f }),
        f.with("urgency"@, v) == (CapView { urgency: held_or(f.urgency, v), ..f }),
        f.with("severity"@, v) == (CapView { severity: held_or(f.severity, v), ..f }),
        f.with("certainty"@, v) == (CapView { certainty: held_or(f.certainty, v), ..f }),
        f.with("effective"@, v) == (CapView { effective: held_or(f.effective, v), ..f }),
        f.with("expires"@, v) == (CapView { expires: held_or(f.expires, v), ..f }),
        f.with("headline"@, v) == (CapView { headline: held_or(f.headline, v), ..f }),
        f.with("description"@, v) == (CapView { description: held_or(f.description, v), ..f }),
        f.with("web"@, v) == (CapView { web: held_or(f.web, v), ..f }),
{
    cap_names();
}

/// An element without text, or of any other name, changes nothing.
pub proof fn other_elements_change_nothing(f: CapView, name: Seq<char>, v: Seq<char>)
    requires
        v.len() == 0 || !(
            name == "identifier"@
            || name == "sender"@
            || name == "sent"@
            || name == "status"@
            || name == "msgType"@
            || name == "language"@
            || name == "category"@
            || name == "event"@
            || name == "urgency"@
            || name == "severity"@
            || name == "certainty"@
            || name == "effective"@
            || name == "expires"@
            || name == "headline"@
            || name == "description"@
            || name == "web"@
        ),
    ensures
        f.with(name, v) == f,
{
}

proof fn fields_are_first_texts(es: Seq<Element>)
    ensures
        cap_of(es).identifier == first_text(es, "identifier"@),
        cap_of(es).sender == first_text(es, "sender"@),
        cap_of(es).sent == first_text(es, "sent"@),
        cap_of(es).status == first_text(es, "status"@),
        cap_of(es).msg_type == first_text(es, "msgType"@),
        cap_of(es).language == first_text(es, "language"@),
        cap_of(es).category == first_text(es, "category"@),
        cap_of(es).event == first_text(es, "event"@),
        cap_of(es).urgency == first_text(es, "urgency"@),
        cap_of(es).severity == first_text(es, "severity"@),
        cap_of(es).certainty == first_text(es, "certainty"@),
        cap_of(es).effective == first_text(es, "effective"@),
        cap_of(es).expires == first_text(es, "expires"@),
        cap_of(es).headline == first_text(es, "headline"@),
        cap_of(es).description == first_text(es, "description"@),
        cap_of(es).web == first_text(es, "web"@),
    decreases es.len(),
{
    if es.len() > 0 {
        cap_names();
        fields_are_first_texts(es.drop_last());
    }
}

/// A warning in full tells what its CAP file says: each field is the first text that the file
/// has, outside its areas, in an element of that name.
pub proof fn a_detail_tells_what_the_file_says(es: Seq<Element>, code: Seq<char>, d: AlertDetail)
    requires
        forall|i: int|
            0 <= i < es.len() ==> (#[trigger] es[i]).name() != "area"@ && all_inline(es[i].inner),
        detail_result(Ok(d)) == cap_detail(element_nodes(es).push(Node::Eof), code),
    ensures
        d.alert_code@ == code,
        d.identifier@ == first_text(es, "identifier"@),
        d.sender@ == first_text(es, "sender"@),
        d.sent@ == first_text(es, "sent"@),
        d.status@ == first_text(es, "status"@),
        d.message_type@ == first_text(es, "msgType"@),
        d.language@ == first_text(es, "language"@),
        d.category@ == first_text(es, "category"@),
        d.event@ == first_text(es, "event"@),
        d.urgency@ == first_text(es, "urgency"@),
        d.severity@ == first_text(es, "severity"@),
        d.certainty@ == first_text(es, "certainty"@),
        d.effective@ == first_text(es, "effective"@),
        d.expires@ == first_text(es, "expires"@),
        d.headline@ == first_text(es, "headline"@),
        d.description@ == first_text(es, "description"@),
        match d.infographic_url {
            Some(url) => url@ == first_text(es, "web"@) && url@.len() > 0,
            None => first_text(es, "web"@).len() == 0,
        },
        d.areas@.len() == 0,
{
    let nodes = element_nodes(es).push(Node::Eof);
    assert(nodes.drop_last() =~= element_nodes(es));
    assert(nodes.last() == Node::Eof);
    cap_fields_are_read_back(es);
    fields_are_first_texts(es);
    assert(cap_detail(nodes, code) == Ok::<DetailView, Failure>(d@));
    assert(d@.areas.len() == d.areas@.len());
}

/// The fields after each element in turn was offered to the field of its name.
pub open spec fn filled(f: CapView, es: Seq<Element>) -> CapView
    decreases es.len(),
{
    if es.len() == 0 {
        f
    } else {
        filled(f, es.drop_last()).with(es.last().name(), es.last().text())
    }
}

proof fn elements_fill_fields(es: Seq<Element>, s: CapState)
    requires
        s.current is None,
        forall|i: int|
            0 <= i < es.len() ==> (#[trigger] es[i]).name() != "area"@ && all_inline(es[i].inner),
    ensures
        ({
            let t = cap_after(element_nodes(es), s);
            &&& t.fields == filled(s.fields, es)
            &&& t.areas == s.areas
            &&& t.current is None
            &&& es.len() > 0 || s.text.len() == 0 ==> t.text.len() == 0
        }),
    decreases es.len(),
{
    if es.len() > 0 {
        let rest = es.drop_last();
        let last = es[es.len() - 1];
        assert forall|i: int| 0 <= i < rest.len() implies (#[trigger] rest[i]).name() != "area"@
            && all_inline(rest[i].inner) by {
            assert(rest[i] == es[i]);
        }
        elements_fill_fields(rest, s);
        cap_after_two(element_nodes(rest), last.nodes(), s);
        assert(last.name() != "area"@);
        cap_text_survives_references(
            cap_after(element_nodes(rest), s),
            last.tag,
            last.inner,
        );
    }
}

proof fn inline_nodes_add_text(gap: Seq<Node>, s: CapState)
    requires
        all_inline(gap),
    ensures
        cap_after(gap, s) == (CapState { text: s.text + fragments(gap), ..s }),
    decreases gap.len(),
{
    if gap.len() == 0 {
        assert(s.text + fragments(gap) =~= s.text);
    } else {
        let rest = gap.drop_last();
        assert(all_inline(rest)) by {
            assert forall|i: int| 0 <= i < rest.len() implies {
                let n = #[trigger] rest[i];
                !(n is Start) && !(n is End) && !crate::xml::is_final(n)
            } by {
                assert(gap[i] == rest[i]);
            }
        }
        inline_nodes_add_text(rest, s);
        let n = gap[gap.len() - 1];
        assert(gap.last() == n);
        assert(s.text + fragments(rest) + fragment(n) =~= s.text + fragments(gap));
    }
}

/// An element that only holds other elements, as `alert` and `info` do, adds nothing of its
/// own: what it holds is read as if it stood outside, and the white space in it is not text.
pub proof fn a_container_adds_nothing(tag: Seq<char>, es: Seq<Element>, gap: Seq<Node>, s: CapState)
    requires
        s.current is None,
        local_name(tag) != "area"@,
        all_inline(gap),
        trim(fragments(gap)).len() == 0,
        forall|i: int|
            0 <= i < es.len() ==> (#[trigger] es[i]).name() != "area"@ && all_inline(es[i].inner),
    ensures
        ({
            let t = cap_after(
                seq![Node::Start(tag)] + element_nodes(es) + gap + seq![Node::End(tag)],
                s,
            );
            &&& t.fields == filled(s.fields, es)
            &&& t.areas == s.areas
            &&& t.current is None
        }),
{
    let open = seq![Node::Start(tag)];
    let close = seq![Node::End(tag)];
    let body = element_nodes(es);
    cap_after_two(open + body + gap, close, s);
    cap_after_two(open + body, gap, s);
    cap_after_two(open, body, s);
    assert(open.drop_last() =~= Seq::empty());
    assert(open.last() == Node::Start(tag));
    assert(cap_after(open.drop_last(), s) == s);
    let opened = cap_after(open, s);
    assert(opened == s.opened(local_name(tag)));
    elements_fill_fields(es, opened);
    let read = cap_after(open + body, s);
    inline_nodes_add_text(gap, read);
    let spaced = cap_after(open + body + gap, s);
    assert(spaced.text =~= fragments(gap));
    assert(close.drop_last() =~= Seq::empty());
    assert(close.last() == Node::End(tag));
    assert(cap_after(close.drop_last(), spaced) == spaced);
}

/// A CAP file is a warning exactly when it has an identifier or a headline.
pub proof fn a_file_is_a_warning_when_it_says_so(es: Seq<Element>, code: Seq<char>)
    requires
        forall|i: int|
            0 <= i < es.len() ==> (#[trigger] es[i]).name() != "area"@ && all_inline(es[i].inner),
    ensures
        cap_detail(element_nodes(es).push(Node::Eof), code) is Ok <==> first_text(
            es,
            "identifier"@,
        ).len() > 0 || first_text(es, "headline"@).len() > 0,
        cap_detail(element_nodes(es).push(Node::Eof), code) matches Err(f) ==> f is UpstreamParse,
{
    let nodes = element_nodes(es).push(Node::Eof);
    assert(nodes.drop_last() =~= element_nodes(es));
    assert(nodes.last() == Node::Eof);
    cap_fields_are_read_back(es);
    fields_are_first_texts(es);
}

/// The areas of a warning in full are the areas of its file, in their order, each with its
/// description and its corners.
pub proof fn areas_are_told_in_their_order(nodes: Seq<Node>, code: Seq<char>, d: AlertDetail)
    requires
        detail_result(Ok(d)) == cap_detail(nodes, code),
    ensures
        ({
            let areas = cap_after(nodes.drop_last(), cap_start()).areas;
            d.areas@.len() == areas.len() && forall|i: int|
                0 <= i < areas.len() ==> (#[trigger] d.areas@[i]).description@ == areas[i].description
                    && d.areas@[i].polygon@.len() == areas[i].polygon.len()
        }),
{
    assert(cap_detail(nodes, code) == Ok::<DetailView, Failure>(d@));
    assert(d@.areas.len() == d.areas@.len());
    assert forall|i: int| 0 <= i < d.areas@.len() implies (#[trigger] d.areas@[i]).description@
        == d@.areas[i].description && d.areas@[i].polygon@.len() == d@.areas[i].polygon.len() by {
        assert(d@.areas[i] == d.areas@[i]@);
    }
}

/// A polygon that a file writes as `lat,lon` pairs has, corner for corner, the longitude first
/// and the latitude second.
pub proof fn corners_are_longitude_then_latitude(a: Area, pairs: Seq<(Seq<char>, Seq<char>)>)
    requires
        forall|i: int|
            0 <= i < pairs.len() ==> is_float((#[trigger] pairs[i]).0) && is_float(pairs[i].1),
        a@.polygon == corners(words(join(written_pairs(pairs), " "@))),
    ensures
        a.polygon@.len() == pairs.len(),
        forall|i: int|
            0 <= i < pairs.len() ==> (#[trigger] a.polygon@[i])@[0]@ == pairs[i].1
                && a.polygon@[i]@[1]@ == pairs[i].0,
{
    polygons_read_back_in_geojson_order(pairs);
    assert(a@.polygon.len() == a.polygon@.len());
    assert forall|i: int| 0 <= i < pairs.len() implies (#[trigger] a.polygon@[i])@[0]@ == pairs[i].1
        && a.polygon@[i]@[1]@ == pairs[i].0 by {
        assert(a@.polygon[i] == (a.polygon@[i]@[0]@, a.polygon@[i]@[1]@));
        assert(a@.polygon[i] == (pairs[i].1, pairs[i].0));
    }
}

// ------------------------------------------------------------------ the index

/// The names of the elements that an item is read from.
proof fn item_names()
    ensures
        "title"@.len() == 5,
        "link"@.len() == 4,
        "description"@.len() == 11,
        "category"@.len() == 8,
        "pubDate"@.len() == 7,
{
    reveal_strlit("title");
    reveal_strlit("link");
    reveal_strlit("description");
    reveal_strlit("category");
    reveal_strlit("pubDate");
}

/// The text of the last element of this name.
pub open spec fn last_text(es: Seq<Element>, name: Seq<char>) -> Seq<char>
    decreases es.len(),
{
    if es.len() == 0 {
        Seq::empty()
    } else if es.last().name() == name {
        es.last().text()
    } else {
        last_text(es.drop_last(), name)
    }
}

proof fn item_fields_are_last_texts(es: Seq<Element>)
    ensures
        item_of(es).title == last_text(es, "title"@),
        item_of(es).link == last_text(es, "link"@),
        item_of(es).description == last_text(es, "description"@),
        item_of(es).category == last_text(es, "category"@),
        item_of(es).pub_date == last_text(es, "pubDate"@),
    decreases es.len(),
{
    if es.len() > 0 {
        item_names();
        item_fields_are_last_texts(es.drop_last());
    }
}

/// There is this text, or none where it is empty.
pub open spec fn is_text_or_none(s: Option<String>, text: Seq<char>) -> bool {
    match s {
        Some(x) => x@ == text && text.len() > 0,
        None => text.len() == 0,
    }
}

/// A warning of the index tells what its item says: the title as its headline, the
/// description, the category and the date, the code off the link, the area that the title
/// names, and the route to its detail in the language of the index.
pub proof fn a_warning_tells_what_its_item_says(es: Seq<Element>, language: Seq<char>, a: Alert)
    requires
        item_of(es).alert(language) == Some(a@),
    ensures
        a.headline@ == last_text(es, "title"@),
        a.description@ == last_text(es, "description"@),
        is_text_or_none(a.category, last_text(es, "category"@)),
        is_text_or_none(a.published, last_text(es, "pubDate"@)),
        link_code(last_text(es, "link"@)) == Some(a.alert_code@),
        a.detail_url@ == "/v1/nowcast/"@ + a.alert_code@ + "?lang="@ + language,
        match a.area {
            Some(area) => headline_area(last_text(es, "title"@)) == Some(area@),
            None => headline_area(last_text(es, "title"@)) is None,
        },
{
    item_fields_are_last_texts(es);
}

/// An item is a warning exactly when its link carries a code.
pub proof fn an_item_is_a_warning_when_its_link_has_a_code(es: Seq<Element>, language: Seq<char>)
    ensures
        item_of(es).alert(language) is Some <==> link_code(last_text(es, "link"@)) is Some,
{
    item_fields_are_last_texts(es);
}

/// The events of items that stand one after another.
pub open spec fn item_list_nodes(tag: Seq<char>, items: Seq<Seq<Element>>) -> Seq<Node>
    decreases items.len(),
{
    if items.len() == 0 {
        Seq::empty()
    } else {
        item_list_nodes(tag, items.drop_last()) + (seq![Node::Start(tag)] + element_nodes(
            items.last(),
        ) + seq![Node::End(tag)])
    }
}

proof fn items_are_listed(
    tag: Seq<char>,
    items: Seq<Seq<Element>>,
    s: RssState,
    language: Seq<char>,
) -> (at: Seq<int>)
    requires
        local_name(tag) == "item"@,
        s.alerts.len() == 0,
        forall|k: int, i: int|
            0 <= k < items.len() && 0 <= i < items[k].len() ==> is_item_element(
                #[trigger] items[k][i],
            ),
    ensures
        ({
            let v = rss_after(item_list_nodes(tag, items), s, language).alerts;
            &&& v.len() == at.len()
            &&& forall|k: int|
                0 <= k < at.len() ==> 0 <= #[trigger] at[k] < items.len() && item_of(
                    items[at[k]],
                ).alert(language) == Some(v[k])
        }),
        forall|j: int, k: int| 0 <= j < k < at.len() ==> #[trigger] at[j] < #[trigger] at[k],
        forall|i: int|
            0 <= i < items.len() && item_of(#[trigger] items[i]).alert(language) is Some
                ==> at.contains(i),
    decreases items.len(),
{
    if items.len() == 0 {
        Seq::empty()
    } else {
        let rest = items.drop_last();
        let last = items[items.len() - 1];
        assert forall|k: int, i: int|
            0 <= k < rest.len() && 0 <= i < rest[k].len() implies is_item_element(
            #[trigger] rest[k][i],
        ) by {
            assert(rest[k] == items[k]);
            assert(is_item_element(items[k][i]));
        }
        let before = items_are_listed(tag, rest, s, language);
        let a = item_list_nodes(tag, rest);
        let b = seq![Node::Start(tag)] + element_nodes(last) + seq![Node::End(tag)];
        rss_after_two(a, b, s, language);
        assert forall|i: int| 0 <= i < last.len() implies is_item_element(#[trigger] last[i]) by {
            assert(is_item_element(items[items.len() - 1][i]));
        }
        let mid = rss_after(a, s, language);
        an_item_is_read_back(tag, last, mid, language);
        let v = rss_after(item_list_nodes(tag, items), s, language).alerts;
        let listed = item_of(last).alert(language) is Some;
        let at = if listed {
            before.push(items.len() - 1)
        } else {
            before
        };
        assert forall|k: int| 0 <= k < at.len() implies 0 <= #[trigger] at[k] < items.len()
            && item_of(items[at[k]]).alert(language) == Some(v[k]) by {
            if k < before.len() {
                assert(at[k] == before[k]);
                assert(rest[before[k]] == items[before[k]]);
                assert(v[k] == mid.alerts[k]);
            }
        }
        assert forall|j: int, k: int| 0 <= j < k < at.len() implies #[trigger] at[j]
            < #[trigger] at[k] by {
            assert(at[j] == before[j]);
            if k < before.len() {
                assert(at[k] == before[k]);
            }
        }
        assert forall|i: int|
            0 <= i < items.len() && item_of(#[trigger] items[i]).alert(language) is Some implies at.contains(
            i,
        ) by {
            if i < rest.len() {
                assert(rest[i] == items[i]);
                let k = choose|k: int| 0 <= k < before.len() && before[k] == i;
                assert(at[k] == i);
            } else {
                assert(at[before.len() as int] == i);
            }
        }
        at
    }
}

/// An index lists the warning of each of its items, in their order, and passes over the items
/// that announce none. `at` gives the item of each warning.
pub proof fn an_index_lists_the_warning_of_each_item(
    tag: Seq<char>,
    items: Seq<Seq<Element>>,
    language: Seq<char>,
) -> (at: Seq<int>)
    requires
        local_name(tag) == "item"@,
        forall|k: int, i: int|
            0 <= k < items.len() && 0 <= i < items[k].len() ==> is_item_element(
                #[trigger] items[k][i],
            ),
    ensures
        rss_alerts(item_list_nodes(tag, items).push(Node::Eof), language) matches Ok(v) && v.len()
            == at.len() && forall|k: int|
            0 <= k < at.len() ==> 0 <= #[trigger] at[k] < items.len() && item_of(
                items[at[k]],
            ).alert(language) == Some(v[k]),
        forall|j: int, k: int| 0 <= j < k < at.len() ==> #[trigger] at[j] < #[trigger] at[k],
        forall|i: int|
            0 <= i < items.len() && item_of(#[trigger] items[i]).alert(language) is Some
                ==> at.contains(i),
{
    let nodes = item_list_nodes(tag, items).push(Node::Eof);
    assert(nodes.drop_last() =~= item_list_nodes(tag, items));
    assert(nodes.last() == Node::Eof);
    items_are_listed(tag, items, rss_start(), language)
}

/// What stands outside the items of an index announces nothing.
pub proof fn nothing_outside_items_is_a_warning(
    nodes: Seq<Node>,
    s: RssState,
    language: Seq<char>,
)
    requires
        !s.in_item,
        forall|i: int|
            0 <= i < nodes.len() ==> match #[trigger] nodes[i] {
                Node::Start(name) => local_name(name) != "item"@,
                Node::End(name) => local_name(name) != "item"@,
                _ => true,
            },
    ensures
        rss_after(nodes, s, language) == s,
    decreases nodes.len(),
{
    if nodes.len() > 0 {
        let rest = nodes.drop_last();
        assert forall|i: int| 0 <= i < rest.len() implies match #[trigger] rest[i] {
            Node::Start(name) => local_name(name) != "item"@,
            Node::End(name) => local_name(name) != "item"@,
            _ => true,
        } by {
            assert(rest[i] == nodes[i]);
        }
        nothing_outside_items_is_a_warning(rest, s, language);
        assert(nodes.last() == nodes[nodes.len() - 1]);
    }
}

/// A document that is fetched is read as it is, in the language asked for: the index as its
/// warnings, a CAP file as the warning with the code asked for. One that is not XML is an
/// `upstream_parse` error.
pub proof fn what_is_fetched_is_what_is_read(code: Seq<char>, language: Seq<char>, xml: Seq<char>)
    ensures
        language_of(language) matches Ok(l) ==> match rss_alerts(xml_nodes(xml), l) {
            Ok(alerts) => index_result(language, Ok(xml)) == Ok::<Seq<AlertView>, Failure>(alerts),
            Err(_) => index_result(language, Ok(xml)) matches Err(f) && f is UpstreamParse,
        },
        detail_address(code, language) is Ok ==> match cap_detail(xml_nodes(xml), code) {
            Ok(d) => detail_outcome(code, language, Ok(xml)) == Ok::<DetailView, Failure>(d),
            Err(_) => detail_outcome(code, language, Ok(xml)) matches Err(f) && f is UpstreamParse,
        },
        xml_nodes(xml).last() is Invalid ==> rss_alerts(xml_nodes(xml), language) is Err
            && cap_detail(xml_nodes(xml), code) is Err,
{
}

/// The code of a link is the name of its file without `_alert.xml`, in whatever directory.
pub proof fn a_code_is_read_off_the_file_name(dir: Seq<char>, code: Seq<char>)
    requires
        code.len() > 0,
        all_alnum(code),
    ensures
        link_code(dir + "/"@ + code + "_alert.xml"@) == Some(code),
{
    let suffix = "_alert.xml"@;
    let file = code + suffix;
    let url = dir + "/"@ + code + suffix;
    reveal_strlit("_alert.xml");
    reveal_strlit("/");
    assert(url =~= dir.push('/') + file);
    assert(!file.contains('/')) by {
        if file.contains('/') {
            let i = choose|i: int| 0 <= i < file.len() && file[i] == '/';
            if i < code.len() {
                assert(is_alnum(code[i]));
            } else {
                assert(suffix[i - code.len()] == '/');
            }
        }
    }
    last_piece_after(dir, file, '/');
    assert(file.subrange(file.len() - suffix.len(), file.len() as int) =~= suffix);
    assert(file.take(file.len() - suffix.len()) =~= code);
}

/// Text, CDATA and references each contribute what they stand for; the five named references
/// of XML are known and no other.
pub proof fn references_stand_for_their_characters(s: Seq<char>, c: char, name: Seq<char>)
    ensures
        fragment(Node::Text(s)) == s,
        fragment(Node::CData(s)) == s,
        fragment(Node::Reference(Some(c), name)) == seq![c],
        name == "amp"@ ==> fragment(Node::Reference(None, name)) == seq!['&'],
        name == "lt"@ ==> fragment(Node::Reference(None, name)) == seq!['<'],
        name == "gt"@ ==> fragment(Node::Reference(None, name)) == seq!['>'],
        name == "quot"@ ==> fragment(Node::Reference(None, name)) == seq!['"'],
        name == "apos"@ ==> fragment(Node::Reference(None, name)) == seq!['\''],
        entity_char(name) is Some <==> name == "amp"@ || name == "lt"@ || name == "gt"@ || name
            == "quot"@ || name == "apos"@,
        entity_char(name) is None ==> fragment(Node::Reference(None, name)).len() == 0,
        fragment(Node::Other).len() == 0,
{
    reveal_strlit("amp");
    reveal_strlit("lt");
    reveal_strlit("gt");
    reveal_strlit("quot");
    reveal_strlit("apos");
    assert("amp"@.len() == 3
        && "lt"@.len() == 2
        && "gt"@.len() == 2
        && "quot"@.len() == 4
        && "apos"@.len() == 4
        && "lt"@[0] == 'l'
        && "gt"@[0] == 'g'
        && "quot"@[0] == 'q'
        && "apos"@[0] == 'a');
}

// ------------------------------------------------------------------ requests

/// The two feed languages are known by their codes, English also by none; any other is a bad
/// request.
pub proof fn there_are_two_languages(code: Seq<char>)
    ensures
        code == "en"@ ==> language_of(code) == Ok::<Seq<char>, Failure>("en"@),
        code.len() == 0 ==> language_of(code) == Ok::<Seq<char>, Failure>("en"@),
        code == "id"@ ==> language_of(code) == Ok::<Seq<char>, Failure>("id"@),
        code != "en"@ && code != "id"@ && code.len() > 0 ==> (language_of(code) matches Err(f) && f
            is BadRequest),
{
    reveal_strlit("en");
    reveal_strlit("id");
    reveal_strlit("");
    assert("en"@.len() == 2 && "en"@[0] == 'e' && "id"@.len() == 2 && "id"@[0] == 'i');
    if code.len() == 0 {
        assert(code =~= ""@);
    }
}

/// The index of a language, and the file of a warning in it, are read under that language.
pub proof fn each_language_has_its_own_files(code: Seq<char>, language: Seq<char>)
    ensures
        index_address("en"@) == "https://www.bmkg.go.id/alerts/nowcast/en"@,
        index_address("id"@) == "https://www.bmkg.go.id/alerts/nowcast/id"@,
        detail_address(code, language) is Ok <==> language_of(language) is Ok && 0 < code.len() <= 32
            && all_alnum(code),
        language_of(language) == Ok::<Seq<char>, Failure>("en"@) ==> (detail_address(
            code,
            language,
        ) matches Ok(url) ==> url == "https://www.bmkg.go.id/alerts/nowcast/en/"@ + code
            + "_alert.xml"@),
        language_of(language) == Ok::<Seq<char>, Failure>("id"@) ==> (detail_address(
            code,
            language,
        ) matches Ok(url) ==> url == "https://www.bmkg.go.id/alerts/nowcast/id/"@ + code
            + "_alert.xml"@),
        detail_address(code, language) matches Err(f) ==> f is BadRequest,
{
    reveal_strlit("en");
    reveal_strlit("id");
    reveal_strlit("/");
    reveal_strlit("https://www.bmkg.go.id/alerts/nowcast");
    reveal_strlit("https://www.bmkg.go.id/alerts/nowcast/en");
    reveal_strlit("https://www.bmkg.go.id/alerts/nowcast/id");
    reveal_strlit("https://www.bmkg.go.id/alerts/nowcast/en/");
    reveal_strlit("https://www.bmkg.go.id/alerts/nowcast/id/");
    assert(index_address("en"@) =~= "https://www.bmkg.go.id/alerts/nowcast/en"@);
    assert(index_address("id"@) =~= "https://www.bmkg.go.id/alerts/nowcast/id"@);
    assert(index_address("en"@) + "/"@ =~= "https://www.bmkg.go.id/alerts/nowcast/en/"@);
    assert(index_address("id"@) + "/"@ =~= "https://www.bmkg.go.id/alerts/nowcast/id/"@);
}

// ------------------------------------------------------------------ warnings for a place

/// The warning names the place: its headline, its description or its area holds it, upper and
/// lower case aside.
pub open spec fn names_place(a: AlertView, place: Seq<char>) -> bool {
    ||| contains(uppercased(a.headline), uppercased(place))
    ||| contains(uppercased(a.description), uppercased(place))
    ||| a.area matches Some(area) && contains(uppercased(area), uppercased(place))
}

proof fn mentions_keep_their_order(alerts: Seq<AlertView>, needle: Seq<char>) -> (at: Seq<int>)
    ensures
        at.len() == mentioning(alerts, needle).len(),
        forall|k: int|
            0 <= k < at.len() ==> 0 <= #[trigger] at[k] < alerts.len() && mentioning(
                alerts,
                needle,
            )[k] == alerts[at[k]],
        forall|j: int, k: int| 0 <= j < k < at.len() ==> #[trigger] at[j] < #[trigger] at[k],
    decreases alerts.len(),
{
    reveal(Seq::filter);
    if alerts.len() == 0 {
        Seq::empty()
    } else {
        let rest = alerts.drop_last();
        let last = alerts.last();
        let before = mentions_keep_their_order(rest, needle);
        let kept = mentioning(rest, needle);
        assert(mentioning(alerts, needle) == if last.mentions(needle) {
            kept.push(last)
        } else {
            kept
        });
        let at = if last.mentions(needle) {
            before.push(alerts.len() - 1)
        } else {
            before
        };
        assert forall|k: int| 0 <= k < at.len() implies 0 <= #[trigger] at[k] < alerts.len()
            && mentioning(alerts, needle)[k] == alerts[at[k]] by {
            if k < before.len() {
                assert(at[k] == before[k]);
                assert(rest[before[k]] == alerts[before[k]]);
            }
        }
        assert forall|j: int, k: int| 0 <= j < k < at.len() implies #[trigger] at[j]
            < #[trigger] at[k] by {
            assert(at[j] == before[j]);
            if k < before.len() {
                assert(at[k] == before[k]);
            }
        }
        at
    }
}

/// A check for a place lists exactly the warnings of the index that name it, in the order of
/// the index; a name of fewer than three characters is a bad request, and what the index
/// cannot answer, a check cannot.
pub proof fn a_check_lists_the_warnings_that_name_the_place(
    query: Seq<char>,
    language: Seq<char>,
    text: Result<Seq<char>, Failure>,
) -> (at: Seq<int>)
    ensures
        trim(query).len() < 3 ==> (check_result(query, language, text) matches Err(f) && f
            is BadRequest),
        trim(query).len() >= 3 ==> match index_result(language, text) {
            Err(f) => check_result(query, language, text) == Err::<Seq<AlertView>, Failure>(f),
            Ok(all) => check_result(query, language, text) matches Ok(v) && at.len() == v.len() && (
            forall|a: AlertView| #[trigger]
                v.contains(a) <==> all.contains(a) && names_place(a, trim(query))) && (forall|k: int|
                0 <= k < v.len() ==> 0 <= #[trigger] at[k] < all.len() && v[k] == all[at[k]]) && (
            forall|j: int, k: int| 0 <= j < k < v.len() ==> #[trigger] at[j] < #[trigger] at[k]),
        },
{
    match index_result(language, text) {
        Ok(all) => {
            let needle = uppercased(trim(query));
            check_lists_exactly_the_mentions(all, needle);
            let v = mentioning(all, needle);
            assert forall|a: AlertView| #[trigger] v.contains(a) <==> (all.contains(a)
                && names_place(a, trim(query))) by {}
            mentions_keep_their_order(all, needle)
        },
        Err(_) => Seq::empty(),
    }
}

/// The warnings that are answered with are told as they were read: headline, description,
/// area, category, date, code and route.
pub proof fn warnings_are_told_as_they_were_read(v: Vec<Alert>, read: Seq<AlertView>)
    requires
        alerts_result(Ok(v)) == Ok::<Seq<AlertView>, Failure>(read),
    ensures
        v@.len() == read.len(),
        forall|i: int|
            0 <= i < read.len() ==> {
                let a = #[trigger] v@[i];
                &&& a.alert_code@ == read[i].alert_code
                &&& a.headline@ == read[i].headline
                &&& a.description@ == read[i].description
                &&& a.detail_url@ == read[i].detail_url
                &&& is_same_text(a.area, read[i].area)
                &&& is_same_text(a.category, read[i].category)
                &&& is_same_text(a.published, read[i].published)
            },
{
    assert(alert_views(v@).len() == v@.len());
    assert forall|i: int| 0 <= i < read.len() implies read[i] == (#[trigger] v@[i])@ by {
        assert(alert_views(v@)[i] == v@[i]@);
    }
}

/// Both are the same text, or there is neither.
pub open spec fn is_same_text(a: Option<String>, b: Option<Seq<char>>) -> bool {
    match (a, b) {
        (Some(x), Some(y)) => x@ == y,
        (None, None) => true,
        _ => false,
    }
}

} // verus!
