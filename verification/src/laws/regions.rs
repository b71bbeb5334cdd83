//! Regions: what is asked of the database, and what is told of what it finds.

use vstd::prelude::*;
use crate::api::Failure;
use crate::text::{
    base_letter, decimal, digit_char, is_alnum, is_digit, is_digit_run, is_lower, is_mark, join,
    non_empty, non_empty_push, split, split_then_join, to_upper,
};
use crate::wilayah::{
    all_ancestors, ancestor, ancestor_codes, ancestors_are_what_stands_before_a_dot,
    children_result, children_statement, get_result, get_statement, hit_limit, is_code_char,
    is_name_word, is_region_code, join_of_two, known_names, level_filter, name_of, name_pieces,
    name_words, names_statement, normal_form, of_level, placeholder_list, provinces_statement,
    queried_rows, region_views, rows_result, search_fault, search_result, search_statement,
    words_read_back, Arg, Queried, Query, Region, RegionView,
};

verus! {

// ------------------------------------------------------------------ searching

/// The one condition that asks for regions of a level.
pub open spec fn level_condition(level: u8) -> Seq<char> {
    if level == 1 {
        "AND w.level = 1 "@
    } else if level == 2 {
        "AND w.level = 2 "@
    } else if level == 3 {
        "AND w.level = 3 "@
    } else {
        "AND w.level = 4 "@
    }
}

/// A search for a level asks for regions of that level: its statement is that of a search
/// across all levels with the one condition on the level put in.
pub proof fn a_search_asks_for_the_level_given(name: Seq<char>, limit: u32, level: u8)
    requires
        1 <= level <= 4,
    ensures
        search_statement(name, limit, None).sql
            == "SELECT w.kode AS code, w.nama AS name, w.level AS level, w.parent AS parent FROM wilayah_token t JOIN wilayah w ON w.kode = t.kode WHERE t.token >= ?1 AND t.token < ?2 "@
            + "GROUP BY w.kode ORDER BY (w.nama_norm = ?1) DESC, MIN(length(t.token)) ASC, w.level ASC, w.nama ASC LIMIT ?3"@,
        search_statement(name, limit, Some(level)).sql
            == "SELECT w.kode AS code, w.nama AS name, w.level AS level, w.parent AS parent FROM wilayah_token t JOIN wilayah w ON w.kode = t.kode WHERE t.token >= ?1 AND t.token < ?2 "@
            + level_condition(level)
            + "GROUP BY w.kode ORDER BY (w.nama_norm = ?1) DESC, MIN(length(t.token)) ASC, w.level ASC, w.nama ASC LIMIT ?3"@,
{
    reveal_strlit("AND w.level = ");
    reveal_strlit(" ");
    reveal_strlit("AND w.level = 1 ");
    reveal_strlit("AND w.level = 2 ");
    reveal_strlit("AND w.level = 3 ");
    reveal_strlit("AND w.level = 4 ");
    assert(decimal(level as nat) =~= seq![digit_char(level as nat)]);
    assert(level_filter(Some(level)) =~= level_condition(level));
    let head = "SELECT w.kode AS code, w.nama AS name, w.level AS level, w.parent AS parent FROM wilayah_token t JOIN wilayah w ON w.kode = t.kode WHERE t.token >= ?1 AND t.token < ?2 "@;
    assert(head + level_filter(None) =~= head);
}

/// Searches for different levels are different statements.
pub proof fn different_levels_are_different_searches(name: Seq<char>, limit: u32, a: u8, b: u8)
    requires
        1 <= a <= 4,
        1 <= b <= 4,
        a != b,
    ensures
        search_statement(name, limit, Some(a)).sql != search_statement(name, limit, Some(b)).sql,
        search_statement(name, limit, Some(a)).sql != search_statement(name, limit, None).sql,
{
    reveal_strlit("AND w.level = ");
    reveal_strlit(" ");
    assert(decimal(a as nat) =~= seq![digit_char(a as nat)]);
    assert(decimal(b as nat) =~= seq![digit_char(b as nat)]);
    let head = "SELECT w.kode AS code, w.nama AS name, w.level AS level, w.parent AS parent FROM wilayah_token t JOIN wilayah w ON w.kode = t.kode WHERE t.token >= ?1 AND t.token < ?2 "@;
    let n = head.len() as int;
    let x = search_statement(name, limit, Some(a)).sql;
    let y = search_statement(name, limit, Some(b)).sql;
    let z = search_statement(name, limit, None).sql;
    assert(x[n + 14] == digit_char(a as nat));
    assert(y[n + 14] == digit_char(b as nat));
    assert(x.len() == z.len() + 16);
}

/// What stands behind a placeholder that is bound to a text.
pub open spec fn binds_text(a: Arg, s: Seq<char>) -> bool {
    a matches Arg::Text(t) && t@ == s
}

/// A search is bound to the words it looks for, to where words that start so end, and to the
/// number of hits asked for, which is at least one and at most a hundred.
pub proof fn a_search_is_bound_to_what_was_asked(
    q: Query,
    name: Seq<char>,
    limit: u32,
    level: Option<u8>,
)
    requires
        q@ == search_statement(name, limit, level),
    ensures
        q.sql@ == search_statement(name, limit, level).sql,
        q.args@.len() == 3,
        binds_text(q.args@[0], name),
        binds_text(q.args@[1], name.push('\u{FFFF}')),
        q.args@[2] matches Arg::Whole(n) && (if 1 <= limit <= 100 {
            n == limit
        } else if limit == 0 {
            n == 1
        } else {
            n == 100
        }),
{
    let v = crate::wilayah::arg_views(q.args@);
    assert(v.len() == q.args@.len());
    assert(v[0] == q.args@[0]@ && v[1] == q.args@[1]@ && v[2] == q.args@[2]@);
    assert(v[2] == crate::wilayah::ArgView::Whole(hit_limit(limit)));
}

/// A search is refused exactly when fewer than two characters are left of its text, or the
/// level is none of the four; the text is looked at first.
pub proof fn a_search_is_refused_for_its_text_or_its_level(q: Seq<char>, level: Option<u8>)
    ensures
        normal_form(q).len() < 2 ==> search_fault(q, level) == Some(
            Failure::BadRequest("q must be at least 2 characters"@),
        ),
        normal_form(q).len() >= 2 ==> match level {
            Some(l) => if l < 1 || l > 4 {
                search_fault(q, level) == Some(
                    Failure::BadRequest("level must be 1..4, got "@ + decimal(l as nat)),
                )
            } else {
                search_fault(q, level) is None
            },
            None => search_fault(q, level) is None,
        },
{
}

// ------------------------------------------------------------------ the other questions

/// Each question is asked with its own statement, and a code is bound to it as it was given:
/// the provinces are the regions of level one, children those with the code as their parent,
/// one region the one with that code.
pub proof fn each_question_has_its_statement(code: Seq<char>, p: Query, c: Query, g: Query)
    requires
        p@ == provinces_statement(),
        c@ == children_statement(code),
        g@ == get_statement(code),
    ensures
        p.sql@
            == "SELECT kode AS code, nama AS name, level, parent FROM wilayah WHERE level = 1 ORDER BY nama"@,
        p.args@.len() == 0,
        c.sql@
            == "SELECT kode AS code, nama AS name, level, parent FROM wilayah WHERE parent = ?1 ORDER BY nama"@,
        c.args@.len() == 1 && binds_text(c.args@[0], code),
        g.sql@ == "SELECT kode AS code, nama AS name, level, parent FROM wilayah WHERE kode = ?1"@,
        g.args@.len() == 1 && binds_text(g.args@[0], code),
{
    reveal_strlit("SELECT kode AS code, nama AS name, level, parent FROM wilayah WHERE ");
    reveal_strlit("level = 1 ORDER BY nama");
    reveal_strlit("parent = ?1 ORDER BY nama");
    reveal_strlit("kode = ?1");
    reveal_strlit("SELECT kode AS code, nama AS name, level, parent FROM wilayah WHERE level = 1 ORDER BY nama");
    reveal_strlit("SELECT kode AS code, nama AS name, level, parent FROM wilayah WHERE parent = ?1 ORDER BY nama");
    reveal_strlit("SELECT kode AS code, nama AS name, level, parent FROM wilayah WHERE kode = ?1");
    assert(p.sql@
        =~= "SELECT kode AS code, nama AS name, level, parent FROM wilayah WHERE level = 1 ORDER BY nama"@);
    assert(c.sql@
        =~= "SELECT kode AS code, nama AS name, level, parent FROM wilayah WHERE parent = ?1 ORDER BY nama"@);
    assert(g.sql@ =~= "SELECT kode AS code, nama AS name, level, parent FROM wilayah WHERE kode = ?1"@);
    assert(crate::wilayah::arg_views(p.args@).len() == p.args@.len());
    assert(crate::wilayah::arg_views(c.args@).len() == c.args@.len());
    assert(crate::wilayah::arg_views(g.args@).len() == g.args@.len());
    assert(crate::wilayah::arg_views(c.args@)[0] == c.args@[0]@);
    assert(crate::wilayah::arg_views(g.args@)[0] == g.args@[0]@);
}

/// The names of ancestors are asked for by their codes: as many placeholders as codes, numbered
/// from one, and the code bound to each in its order.
pub proof fn names_are_asked_for_by_code(q: Query, codes: Seq<Seq<char>>, i: int)
    requires
        q@ == names_statement(codes),
        0 <= i < codes.len(),
    ensures
        q.args@.len() == codes.len(),
        binds_text(q.args@[i], codes[i]),
        q.sql@ == "SELECT kode AS code, nama AS name, level, parent FROM wilayah WHERE kode IN ("@
            + join(
            Seq::new(codes.len(), |k: int| "?"@ + decimal((k + 1) as nat)),
            ","@,
        ) + ")"@,
{
    reveal_strlit("SELECT kode AS code, nama AS name, level, parent FROM wilayah WHERE ");
    reveal_strlit("kode IN (");
    reveal_strlit("SELECT kode AS code, nama AS name, level, parent FROM wilayah WHERE kode IN (");
    assert(crate::wilayah::selection() + "kode IN ("@
        =~= "SELECT kode AS code, nama AS name, level, parent FROM wilayah WHERE kode IN ("@);
    assert(placeholder_list(codes.len()) =~= Seq::new(
        codes.len(),
        |k: int| "?"@ + decimal((k + 1) as nat),
    ));
    assert(crate::wilayah::arg_views(q.args@).len() == q.args@.len());
    assert(crate::wilayah::arg_views(q.args@)[i] == q.args@[i]@);
}

/// Both are the same text, or there is neither.
pub open spec fn is_same_text(a: Option<String>, b: Option<Seq<char>>) -> bool {
    match (a, b) {
        (Some(x), Some(y)) => x@ == y,
        (None, None) => true,
        _ => false,
    }
}

/// The rows of a query are told as they were found; a query that fails is an internal error.
pub proof fn rows_are_told_as_they_were_found(rows: Vec<Region>, e: String, told: Seq<RegionView>)
    requires
        queried_rows(Queried::Rows(rows)) == Ok::<Seq<RegionView>, Failure>(told),
    ensures
        told.len() == rows@.len(),
        forall|i: int|
            0 <= i < told.len() ==> {
                let r = #[trigger] rows@[i];
                &&& told[i].code == r.code@
                &&& told[i].name == r.name@
                &&& told[i].level == r.level
                &&& is_same_text(r.parent, told[i].parent)
                &&& is_same_text(r.path, told[i].path)
            },
        rows_result(Ok(rows)) == Ok::<Seq<RegionView>, Failure>(told),
        queried_rows(Queried::Bind(e)) matches Err(f) && f is Internal && f.message()
            == "binding query args: "@ + e@,
        queried_rows(Queried::Run(e)) matches Err(f) && f is Internal && f.message()
            == "D1 query failed: "@ + e@,
        queried_rows(Queried::Decode(e)) matches Err(f) && f is Internal && f.message()
            == "decoding D1 rows: "@ + e@,
{
    assert(told == region_views(rows@));
    assert forall|i: int| 0 <= i < told.len() implies told[i] == (#[trigger] rows@[i])@ by {}
}

proof fn level_keeps_its_rows(rows: Seq<RegionView>, level: nat) -> (at: Seq<int>)
    ensures
        at.len() == of_level(rows, level).len(),
        forall|k: int|
            0 <= k < at.len() ==> 0 <= #[trigger] at[k] < rows.len() && of_level(rows, level)[k]
                == rows[at[k]] && rows[at[k]].level == level,
        forall|j: int, k: int| 0 <= j < k < at.len() ==> #[trigger] at[j] < #[trigger] at[k],
        forall|i: int| 0 <= i < rows.len() && (#[trigger] rows[i]).level == level ==> at.contains(i),
    decreases rows.len(),
{
    reveal(Seq::filter);
    if rows.len() == 0 {
        Seq::empty()
    } else {
        let rest = rows.drop_last();
        let last = rows.last();
        let before = level_keeps_its_rows(rest, level);
        let kept = of_level(rest, level);
        assert(of_level(rows, level) == if last.level == level {
            kept.push(last)
        } else {
            kept
        });
        let at = if last.level == level {
            before.push(rows.len() - 1)
        } else {
            before
        };
        assert forall|k: int| 0 <= k < at.len() implies 0 <= #[trigger] at[k] < rows.len()
            && of_level(rows, level)[k] == rows[at[k]] && rows[at[k]].level == level by {
            if k < before.len() {
                assert(at[k] == before[k]);
                assert(rest[before[k]] == rows[before[k]]);
            }
        }
        assert forall|j: int, k: int| 0 <= j < k < at.len() implies #[trigger] at[j]
            < #[trigger] at[k] by {
            assert(at[j] == before[j]);
            if k < before.len() {
                assert(at[k] == before[k]);
            }
        }
        assert forall|i: int| 0 <= i < rows.len() && (#[trigger] rows[i]).level == level implies at.contains(
            i,
        ) by {
            if i < rest.len() {
                assert(rest[i] == rows[i]);
                let k = choose|k: int| 0 <= k < before.len() && before[k] == i;
                assert(at[k] == i);
            } else {
                assert(at[before.len() as int] == i);
            }
        }
        at
    }
}

/// The children of a code are all the rows of the level asked for, in their order, and no
/// other; where there are none, or the code is no code, that is what is told.
pub proof fn children_are_the_rows_of_the_level(
    parent_code: Seq<char>,
    level: nat,
    rows: Seq<RegionView>,
) -> (at: Seq<int>)
    ensures
        !is_region_code(parent_code) ==> (children_result(parent_code, level, Ok(rows)) matches Err(f)
            && f is BadRequest),
        is_region_code(parent_code) && at.len() == 0 ==> (children_result(
            parent_code,
            level,
            Ok(rows),
        ) matches Err(f) && f is NotFound),
        is_region_code(parent_code) && at.len() > 0 ==> (children_result(
            parent_code,
            level,
            Ok(rows),
        ) matches Ok(v) && v.len() == at.len() && forall|k: int|
            0 <= k < v.len() ==> #[trigger] v[k] == rows[at[k]]),
        forall|k: int|
            0 <= k < at.len() ==> 0 <= #[trigger] at[k] < rows.len() && rows[at[k]].level == level,
        forall|j: int, k: int| 0 <= j < k < at.len() ==> #[trigger] at[j] < #[trigger] at[k],
        forall|i: int| 0 <= i < rows.len() && (#[trigger] rows[i]).level == level ==> at.contains(i),
{
    let at = level_keeps_its_rows(rows, level);
    let kept = of_level(rows, level);
    assert forall|k: int| 0 <= k < kept.len() implies #[trigger] kept[k] == rows[at[k]] by {
        assert(0 <= at[k]);
    }
    at
}

/// One region is the first row found for its code; without a row it is not found, and a code
/// that is none is a bad request.
pub proof fn a_region_is_the_row_of_its_code(code: Seq<char>, rows: Seq<RegionView>)
    ensures
        !is_region_code(code) ==> (get_result(code, Ok(rows)) matches Err(f) && f is BadRequest),
        is_region_code(code) && rows.len() == 0 ==> get_result(code, Ok(rows)) == Err::<
            RegionView,
            Failure,
        >(Failure::NotFound("no region with code "@ + code)),
        is_region_code(code) && rows.len() > 0 ==> get_result(code, Ok(rows)) == Ok::<
            RegionView,
            Failure,
        >(rows[0]),
{
}

// ------------------------------------------------------------------ codes

proof fn split_of_two(a: Seq<char>, b: Seq<char>, sep: char)
    requires
        !b.contains(sep),
    ensures
        split(a.push(sep) + b, sep) == split(a, sep).push(b),
    decreases b.len(),
{
    let s = a.push(sep) + b;
    split_then_join(a, sep);
    if b.len() == 0 {
        assert(s =~= a.push(sep));
        assert(s.drop_last() =~= a);
        assert(b =~= Seq::empty());
    } else {
        let c = b.drop_last();
        assert(s.drop_last() =~= a.push(sep) + c);
        assert(b.contains(b[b.len() - 1]));
        assert(!c.contains(sep)) by {
            if c.contains(sep) {
                let i = choose|i: int| 0 <= i < c.len() && c[i] == sep;
                assert(b[i] == sep);
            }
        }
        split_of_two(a, c, sep);
        assert(c.push(b[b.len() - 1]) =~= b);
        assert(split(s, sep) =~= split(a, sep).push(b));
    }
}

proof fn split_of_one(b: Seq<char>, sep: char)
    requires
        !b.contains(sep),
    ensures
        split(b, sep) == seq![b],
    decreases b.len(),
{
    if b.len() == 0 {
        assert(b =~= Seq::empty());
    } else {
        let c = b.drop_last();
        assert(b.contains(b[b.len() - 1]));
        assert(!c.contains(sep)) by {
            if c.contains(sep) {
                let i = choose|i: int| 0 <= i < c.len() && c[i] == sep;
                assert(b[i] == sep);
            }
        }
        split_of_one(c, sep);
        assert(c.push(b[b.len() - 1]) =~= b);
        assert(split(b, sep) =~= seq![b]);
    }
}

/// Parts that are joined with a separator that none of them holds are what splitting at it
/// gives back.
pub proof fn joined_parts_split_back(parts: Seq<Seq<char>>, sep: char)
    requires
        parts.len() > 0,
        forall|i: int| 0 <= i < parts.len() ==> !(#[trigger] parts[i]).contains(sep),
    ensures
        split(join(parts, seq![sep]), sep) == parts,
    decreases parts.len(),
{
    let last = parts[parts.len() - 1];
    if parts.len() == 1 {
        split_of_one(last, sep);
        assert(parts =~= seq![last]);
    } else {
        let rest = parts.drop_last();
        assert forall|i: int| 0 <= i < rest.len() implies !(#[trigger] rest[i]).contains(sep) by {
            assert(rest[i] == parts[i]);
        }
        joined_parts_split_back(rest, sep);
        let a = join(rest, seq![sep]);
        assert(a + seq![sep] + last =~= a.push(sep) + last);
        split_of_two(a, last, sep);
        assert(parts =~= rest.push(last));
    }
}

/// A region code is one to four runs of digits with dots between them, of 2, 5, 8 or 13
/// characters in all: whatever is written so is one, and each is written so.
pub proof fn a_code_is_runs_of_digits(parts: Seq<Seq<char>>, code: Seq<char>)
    requires
        1 <= parts.len() <= 4,
        forall|i: int| 0 <= i < parts.len() ==> is_digit_run(#[trigger] parts[i]),
    ensures
        ({
            let n = join(parts, "."@).len();
            is_region_code(join(parts, "."@)) <==> n == 2 || n == 5 || n == 8 || n == 13
        }),
        split(join(parts, "."@), '.') == parts,
        is_region_code(code) ==> {
            let s = split(code, '.');
            &&& 1 <= s.len() <= 4
            &&& code == join(s, "."@)
            &&& forall|i: int| 0 <= i < s.len() ==> is_digit_run(#[trigger] s[i])
            &&& code.len() == 2 || code.len() == 5 || code.len() == 8 || code.len() == 13
        },
{
    reveal_strlit(".");
    assert("."@ =~= seq!['.']);
    assert forall|i: int| 0 <= i < parts.len() implies !(#[trigger] parts[i]).contains('.') by {
        if parts[i].contains('.') {
            let k = choose|k: int| 0 <= k < parts[i].len() && parts[i][k] == '.';
            assert(is_digit(parts[i][k]));
        }
    }
    joined_parts_split_back(parts, '.');
    digits_and_dots(parts);
    if is_region_code(code) {
        split_then_join(code, '.');
        let s = split(code, '.');
        assert forall|i: int| 0 <= i < s.len() implies is_digit_run(#[trigger] s[i]) by {
            pieces_hold_code_chars(code);
            assert(!s[i].contains('.'));
            assert forall|k: int| 0 <= k < s[i].len() implies is_digit(#[trigger] s[i][k]) by {
                assert(is_code_char(s[i][k]));
                assert(s[i].contains(s[i][k]));
            }
        }
    }
}

proof fn digits_and_dots(parts: Seq<Seq<char>>)
    requires
        forall|i: int| 0 <= i < parts.len() ==> is_digit_run(#[trigger] parts[i]),
    ensures
        forall|k: int|
            0 <= k < join(parts, seq!['.']).len() ==> is_code_char(
                #[trigger] join(parts, seq!['.'])[k],
            ),
    decreases parts.len(),
{
    let s = join(parts, seq!['.']);
    if parts.len() == 1 {
        assert(is_digit_run(parts[0]));
    } else if parts.len() > 1 {
        let rest = parts.drop_last();
        let last = parts[parts.len() - 1];
        assert forall|i: int| 0 <= i < rest.len() implies is_digit_run(#[trigger] rest[i]) by {
            assert(rest[i] == parts[i]);
        }
        digits_and_dots(rest);
        let a = join(rest, seq!['.']);
        assert forall|k: int| 0 <= k < s.len() implies is_code_char(#[trigger] s[k]) by {
            assert(is_digit_run(last));
            if k < a.len() {
                assert(s[k] == a[k]);
            } else if k > a.len() {
                assert(s[k] == last[k - a.len() - 1]);
                assert(is_digit(last[k - a.len() - 1]));
            }
        }
    }
}

proof fn pieces_hold_code_chars(code: Seq<char>)
    requires
        forall|i: int| 0 <= i < code.len() ==> is_code_char(#[trigger] code[i]),
    ensures
        forall|i: int, k: int|
            0 <= i < split(code, '.').len() && 0 <= k < split(code, '.')[i].len() ==> is_code_char(
                #[trigger] split(code, '.')[i][k],
            ),
    decreases code.len(),
{
    if code.len() > 0 {
        let rest = code.drop_last();
        assert forall|i: int| 0 <= i < rest.len() implies is_code_char(#[trigger] rest[i]) by {
            assert(rest[i] == code[i]);
        }
        pieces_hold_code_chars(rest);
        split_then_join(rest, '.');
        let before = split(rest, '.');
        let after = split(code, '.');
        assert(is_code_char(code[code.len() - 1]));
        assert forall|i: int, k: int| 0 <= i < after.len() && 0 <= k < after[i].len() implies is_code_char(
            #[trigger] after[i][k],
        ) by {
            if i < before.len() && k < before[i].len() {
                assert(after[i][k] == before[i][k]);
            }
        }
    }
}

// ------------------------------------------------------------------ ancestors and paths

proof fn split_before_a_separator(s: Seq<char>, i: int, sep: char)
    requires
        0 <= i < s.len(),
        s[i] == sep,
    ensures
        split(s.take(i), sep).len() < split(s, sep).len(),
        split(s, sep).take(split(s.take(i), sep).len() as int) == split(s.take(i), sep),
    decreases s.len(),
{
    let t = s.drop_last();
    let before = split(t, sep);
    let head = split(s.take(i), sep);
    let k = head.len() as int;
    split_then_join(t, sep);
    if i == s.len() - 1 {
        assert(s.take(i) =~= t);
        assert(split(s, sep).take(k) =~= before);
    } else {
        assert(t.take(i) =~= s.take(i));
        split_before_a_separator(t, i, sep);
        assert(split(s, sep).take(k) =~= before.take(k));
    }
}

/// What stands before any of its dots is an ancestor of a code.
pub proof fn every_dot_ends_an_ancestor(code: Seq<char>, i: int)
    requires
        0 <= i < code.len(),
        code[i] == '.',
    ensures
        ancestor_codes(code).contains(code.take(i)),
{
    reveal_strlit(".");
    assert("."@ =~= seq!['.']);
    split_before_a_separator(code, i, '.');
    split_then_join(code.take(i), '.');
    let k = split(code.take(i), '.').len() as int;
    assert(ancestor(code, k - 1) == code.take(i));
    assert(ancestor_codes(code)[k - 1] == code.take(i));
}

/// Ancestors come from the province down: each is the beginning of the code, up to one of its
/// dots, and longer than the one before it.
pub proof fn ancestors_come_outermost_first(code: Seq<char>, m: int, n: int)
    requires
        0 <= m < n < ancestor_codes(code).len(),
    ensures
        ({
            let a = ancestor_codes(code)[m].len() as int;
            let b = ancestor_codes(code)[n].len() as int;
            &&& 0 <= a < b < code.len()
            &&& ancestor_codes(code)[m] == code.take(a) && code[a] == '.'
            &&& ancestor_codes(code)[n] == code.take(b) && code[b] == '.'
        }),
{
    reveal_strlit(".");
    ancestors_are_what_stands_before_a_dot(code, m);
    ancestors_are_what_stands_before_a_dot(code, n);
    let x = ancestor_codes(code)[m];
    let y = ancestor_codes(code)[n];
    assert(x =~= code.take(x.len() as int));
    assert(y =~= code.take(y.len() as int));
    split_then_join(code, '.');
    assert(ancestor_codes(code).len() == split(code, '.').len() - 1);
    let parts = split(code, '.').take(n + 1);
    assert(parts.len() == n + 1);
    assert(parts =~= parts.take(m + 1) + parts.skip(m + 1));
    assert(parts.take(m + 1) =~= split(code, '.').take(m + 1));
    join_of_two(parts.take(m + 1), parts.skip(m + 1), "."@);
}

/// The name of a code is that of the first region found for it, and there is none where none
/// was found.
pub proof fn a_name_is_that_of_its_code(found: Seq<RegionView>, code: Seq<char>, i: int)
    requires
        0 <= i <= found.len(),
        forall|j: int| 0 <= j < i ==> (#[trigger] found[j]).code != code,
        i < found.len() ==> found[i].code == code,
    ensures
        i < found.len() ==> name_of(found, code) == Some(found[i].name),
        i == found.len() ==> name_of(found, code) is None,
    decreases i,
{
    if i > 0 {
        let rest = found.skip(1);
        assert(found[0].code != code);
        assert forall|j: int| 0 <= j < i - 1 implies (#[trigger] rest[j]).code != code by {
            assert(rest[j] == found[j + 1]);
        }
        a_name_is_that_of_its_code(rest, code, i - 1);
    }
}

/// The names of codes are found one by one, in the order of the codes, and a code without a
/// name is passed over.
pub proof fn names_are_found_one_by_one(found: Seq<RegionView>, codes: Seq<Seq<char>>, code: Seq<char>)
    ensures
        known_names(found, codes.push(code)) == (match name_of(found, code) {
            Some(name) => known_names(found, codes).push(name),
            None => known_names(found, codes),
        }),
        known_names(found, Seq::empty()).len() == 0,
{
    assert(codes.push(code).drop_last() =~= codes);
}

/// A hit is the row that was found with its path: the names that were found for its ancestors,
/// from the province down, and its own name, with " › " between them.
pub proof fn a_hit_is_its_row_with_its_path(
    q: Seq<char>,
    level: Option<u8>,
    rows: Seq<RegionView>,
    found: Result<Seq<RegionView>, Failure>,
    i: int,
)
    requires
        search_fault(q, level) is None,
        0 <= i < rows.len(),
    ensures
        match search_result(q, level, Ok(rows), found) {
            Ok(hits) => {
                let names = if all_ancestors(rows).len() == 0 {
                    Seq::empty()
                } else {
                    known_names(found->Ok_0, ancestor_codes(rows[i].code))
                };
                &&& all_ancestors(rows).len() > 0 ==> found is Ok
                &&& hits.len() == rows.len()
                &&& hits[i].code == rows[i].code
                &&& hits[i].name == rows[i].name
                &&& hits[i].level == rows[i].level
                &&& hits[i].parent == rows[i].parent
                &&& hits[i].path == Some(join(names.push(rows[i].name), " › "@))
            },
            Err(f) => all_ancestors(rows).len() > 0 && found == Err::<Seq<RegionView>, Failure>(f),
        },
{
    if all_ancestors(rows).len() == 0 {
        no_ancestors_of_any(rows, i);
        assert(ancestor_codes(rows[i].code) =~= Seq::empty());
        let none = Seq::<RegionView>::empty();
        assert(known_names(none, ancestor_codes(rows[i].code)) =~= Seq::empty());
    }
}

proof fn no_ancestors_of_any(rows: Seq<RegionView>, i: int)
    requires
        all_ancestors(rows).len() == 0,
        0 <= i < rows.len(),
    ensures
        ancestor_codes(rows[i].code).len() == 0,
    decreases rows.len(),
{
    if i < rows.len() - 1 {
        no_ancestors_of_any(rows.drop_last(), i);
    }
}

/// Every ancestor of every row is asked for.
pub proof fn every_ancestor_is_asked_for(rows: Seq<RegionView>, i: int, n: int)
    requires
        0 <= i < rows.len(),
        0 <= n < ancestor_codes(rows[i].code).len(),
    ensures
        all_ancestors(rows).contains(ancestor_codes(rows[i].code)[n]),
    decreases rows.len(),
{
    let rest = rows.drop_last();
    let all = all_ancestors(rows);
    let before = all_ancestors(rest);
    let code = ancestor_codes(rows[i].code)[n];
    if i < rows.len() - 1 {
        every_ancestor_is_asked_for(rest, i, n);
        let k = choose|k: int| 0 <= k < before.len() && before[k] == code;
        assert(all[k] == code);
    } else {
        assert(all[before.len() + n] == code);
    }
}

// ------------------------------------------------------------------ names

/// Capital letters are what small letters become, and everything else stays.
pub proof fn small_letters_become_capitals(c: char)
    ensures
        is_lower(c) ==> to_upper(c) as int == c as int - 32,
        !is_lower(c) ==> to_upper(c) == c,
{
}

/// Words of capital letters and digits with a space between them are in normal form.
pub proof fn plain_names_stay_as_they_are(ws: Seq<Seq<char>>)
    requires
        forall|i: int| 0 <= i < ws.len() ==> is_name_word(#[trigger] ws[i]),
    ensures
        normal_form(join(ws, " "@)) == join(ws, " "@),
{
    words_read_back(ws);
}

proof fn pieces_of_letters(s: Seq<char>)
    requires
        forall|i: int| 0 <= i < s.len() ==> is_alnum(base_letter(#[trigger] s[i])) && !is_mark(s[i]),
    ensures
        name_pieces(s) == seq![s.map_values(|c: char| to_upper(base_letter(c)))],
    decreases s.len(),
{
    let m = s.map_values(|c: char| to_upper(base_letter(c)));
    if s.len() == 0 {
        assert(m =~= Seq::empty());
    } else {
        let t = s.drop_last();
        assert forall|i: int| 0 <= i < t.len() implies is_alnum(base_letter(#[trigger] t[i]))
            && !is_mark(t[i]) by {
            assert(t[i] == s[i]);
        }
        pieces_of_letters(t);
        assert(s.last() == s[s.len() - 1]);
        let n = t.map_values(|c: char| to_upper(base_letter(c)));
        assert(m =~= n.push(to_upper(base_letter(s.last()))));
        assert(name_pieces(s) =~= seq![m]);
    }
}

/// A word is normalised letter by letter: each to its base letter, in upper case.
pub proof fn a_word_is_normalised_letter_by_letter(s: Seq<char>)
    requires
        s.len() > 0,
        forall|i: int| 0 <= i < s.len() ==> is_alnum(base_letter(#[trigger] s[i])) && !is_mark(s[i]),
    ensures
        normal_form(s).len() == s.len(),
        forall|i: int|
            0 <= i < s.len() ==> #[trigger] normal_form(s)[i] == to_upper(base_letter(s[i])),
{
    reveal(Seq::filter);
    pieces_of_letters(s);
    let m = s.map_values(|c: char| to_upper(base_letter(c)));
    let e = Seq::<Seq<char>>::empty();
    assert(non_empty(e) =~= e);
    non_empty_push(e, m);
    assert(e.push(m) =~= seq![m]);
    assert(name_words(s) =~= seq![m]);
}

proof fn pieces_of_two(a: Seq<char>, c: char, b: Seq<char>)
    requires
        !is_alnum(base_letter(c)),
        !is_mark(c),
    ensures
        name_pieces(a.push(c) + b) == name_pieces(a) + name_pieces(b),
        name_pieces(b).len() >= 1,
    decreases b.len(),
{
    let s = a.push(c) + b;
    if b.len() == 0 {
        assert(s =~= a.push(c));
        assert(s.drop_last() =~= a);
        assert(name_pieces(s) =~= name_pieces(a) + name_pieces(b));
    } else {
        pieces_of_two(a, c, b.drop_last());
        assert(s.drop_last() =~= a.push(c) + b.drop_last());
        assert(s.last() == b.last());
        assert(name_pieces(s) =~= name_pieces(a) + name_pieces(b));
    }
}

/// What is left of two lists without their empty parts is what is left of each.
pub proof fn non_empty_of_two(a: Seq<Seq<char>>, b: Seq<Seq<char>>)
    ensures
        non_empty(a + b) == non_empty(a) + non_empty(b),
    decreases b.len(),
{
    reveal(Seq::filter);
    if b.len() == 0 {
        assert(a + b =~= a);
        assert(non_empty(b) =~= Seq::empty());
        assert(non_empty(a) + non_empty(b) =~= non_empty(a));
    } else {
        let rest = b.drop_last();
        let last = b.last();
        non_empty_of_two(a, rest);
        assert(a + b =~= (a + rest).push(last));
        assert(b =~= rest.push(last));
        non_empty_push(a + rest, last);
        non_empty_push(rest, last);
        assert(non_empty(a + b) =~= non_empty(a) + non_empty(b));
    }
}

/// A character that is neither letter nor digit nor mark parts words: the words of the whole
/// are those before it and then those after it.
pub proof fn anything_else_parts_words(a: Seq<char>, c: char, b: Seq<char>)
    requires
        !is_alnum(base_letter(c)),
        !is_mark(c),
    ensures
        name_words(a.push(c) + b) == name_words(a) + name_words(b),
{
    pieces_of_two(a, c, b);
    non_empty_of_two(name_pieces(a), name_pieces(b));
}

} // verus!
