//! Indonesian administrative regions, kept in a database.
//!
//! Codes are Kemendagri codes: two digits each for province, kabupaten/kota and kecamatan,
//! four for desa/kelurahan, with dots between them. Every query here is an index hit: a
//! `LIKE '%x%'` scan would read every region on every search, hence the token table.

use vstd::prelude::*;
use crate::api::{ApiError, ApiResult, Failure};
use crate::json::{opt_tree, optional, trees, Json, Tree};
use crate::text::{
    alnum, base_letter, base_letters_are_plain, chars_of, debug_form, debug_text, decimal,
    decimal_text, digit, is_alnum, is_digit, is_mark, join, join_text, mark, non_empty,
    non_empty_push, opt, same, split, split_text, split_then_join, to_upper, unaccented, upper,
    views,
};

verus! {

pub const TTL: u32 = 86_400;

#[derive(Debug, PartialEq, Eq)]
pub struct Region {
    pub code: String,
    pub name: String,
    /// 1 province · 2 kabupaten/kota · 3 kecamatan · 4 desa/kelurahan
    pub level: u8,
    pub parent: Option<String>,
    /// "DKI Jakarta › Kota Adm. Jakarta Selatan › Pasar Minggu › Pejaten Barat".
    /// Only filled by search, where a bare village name is ambiguous.
    pub path: Option<String>,
}

pub ghost struct RegionView {
    pub code: Seq<char>,
    pub name: Seq<char>,
    pub level: nat,
    pub parent: Option<Seq<char>>,
    pub path: Option<Seq<char>>,
}

impl View for Region {
    type V = RegionView;

    open spec fn view(&self) -> RegionView {
        RegionView {
            code: self.code@,
            name: self.name@,
            level: self.level as nat,
            parent: opt(self.parent),
            path: opt(self.path),
        }
    }
}

pub open spec fn region_views(v: Seq<Region>) -> Seq<RegionView> {
    v.map_values(|r: Region| r@)
}

impl RegionView {
    pub open spec fn tree(self) -> Tree {
        Tree::Object(
            seq![
                ("code"@, Tree::Text(self.code)),
                ("name"@, Tree::Text(self.name)),
                ("level"@, Tree::Unsigned(self.level)),
            ] + optional("parent"@, opt_tree(self.parent)) + optional(
                "path"@,
                opt_tree(self.path),
            ),
        )
    }
}

impl Region {
    pub fn to_json(&self) -> (r: Json)
        ensures
            r@ == self@.tree(),
    {
        let head = Json::object().with("code", Json::text(self.code.as_str())).with(
            "name",
            Json::text(self.name.as_str()),
        ).with("level", Json::unsigned(self.level as u64));
        assert(head@->Object_0 =~= seq![
            ("code"@, Tree::Text(self@.code)),
            ("name"@, Tree::Text(self@.name)),
            ("level"@, Tree::Unsigned(self@.level)),
        ]);
        let r = head.with_text("parent", &self.parent).with_text("path", &self.path);
        assert(r@->Object_0 =~= self@.tree()->Object_0);
        r
    }
}

pub open spec fn region_trees(v: Seq<Region>) -> Seq<Tree> {
    v.map_values(|r: Region| r@.tree())
}

/// The regions as the data of a response.
pub fn regions_json(regions: &Vec<Region>) -> (r: Json)
    ensures
        r@ == Tree::Array(region_trees(regions@)),
{
    let mut items: Vec<Json> = Vec::new();
    let mut i: usize = 0;
    assert(trees(items@) =~= region_trees(regions@).take(0));
    while i < regions.len()
        invariant
            i <= regions@.len(),
            trees(items@) == region_trees(regions@).take(i as int),
        decreases regions@.len() - i,
    {
        let ghost before = trees(items@);
        items.push(regions[i].to_json());
        assert(trees(items@) =~= before.push(region_trees(regions@)[i as int]));
        i += 1;
        assert(trees(items@) =~= region_trees(regions@).take(i as int));
    }
    assert(region_trees(regions@).take(i as int) =~= region_trees(regions@));
    Json::array(items)
}

// ------------------------------------------------------------------ names

/// The runs of letters and digits of `s`, without accents and in upper case, with an empty
/// piece for every other character between them.
pub open spec fn name_pieces(s: Seq<char>) -> Seq<Seq<char>>
    decreases s.len(),
{
    if s.len() == 0 {
        seq![Seq::empty()]
    } else {
        let before = name_pieces(s.drop_last());
        let letter = base_letter(s.last());
        if is_mark(s.last()) {
            before
        } else if is_alnum(letter) {
            before.update(before.len() - 1, before.last().push(to_upper(letter)))
        } else {
            before.push(Seq::empty())
        }
    }
}

/// The words of a name: its runs of letters and digits, without accents and in upper case.
pub open spec fn name_words(s: Seq<char>) -> Seq<Seq<char>> {
    non_empty(name_pieces(s))
}

/// A name as the token table holds it: its words with one space between them.
pub open spec fn normal_form(s: Seq<char>) -> Seq<char> {
    join(name_words(s), " "@)
}

fn name_words_of(s: &str) -> (r: Vec<String>)
    ensures
        views(r@) == name_words(s@),
{
    let v = chars_of(s);
    let mut r: Vec<String> = Vec::new();
    let mut cur = String::new();
    let mut i: usize = 0;
    let ghost mut done: Seq<Seq<char>> = Seq::empty();
    proof {
        reveal(Seq::filter);
        assert(views(r@) =~= non_empty(done));
        assert(done.push(cur@) =~= name_pieces(v@.take(0)));
    }
    while i < v.len()
        invariant
            i <= v@.len(),
            done.push(cur@) == name_pieces(v@.take(i as int)),
            views(r@) == non_empty(done),
        decreases v@.len() - i,
    {
        let ghost before = done.push(cur@);
        assert(v@.take(i + 1).drop_last() =~= v@.take(i as int));
        let letter = unaccented(v[i]);
        if mark(v[i]) {
            assert(name_pieces(v@.take(i + 1)) == before);
        } else if alnum(letter) {
            cur.push(upper(letter));
            assert(done.push(cur@) =~= before.update(
                before.len() - 1,
                before.last().push(to_upper(letter)),
            ));
        } else {
            proof {
                non_empty_push(done, cur@);
                done = before;
            }
            let ghost words_before = views(r@);
            if cur.as_str().is_empty() {
                cur = String::new();
            } else {
                r.push(cur);
                assert(views(r@) =~= words_before.push(cur@));
                cur = String::new();
            }
        }
        i += 1;
    }
    assert(v@.take(i as int) =~= v@);
    proof {
        non_empty_push(done, cur@);
    }
    let ghost words_before = views(r@);
    if !cur.as_str().is_empty() {
        r.push(cur);
        assert(views(r@) =~= words_before.push(cur@));
    }
    r
}

/// Uppercase, strip accents and punctuation. The token table is built the same way: were the
/// two to disagree, search would silently find nothing.
///
/// A letter with an accent keeps its base letter, and an accent that stands as a mark of its
/// own is dropped. A run of anything else becomes one space between words.
pub fn normalise(s: &str) -> (r: String)
    ensures
        r@ == normal_form(s@),
{
    join_text(&name_words_of(s), " ")
}

// ------------------------------------------------------------------ codes

pub open spec fn is_code_char(c: char) -> bool {
    is_digit(c) || c == '.'
}

/// A Kemendagri code is 2, 5, 8 or 13 characters of digits and dots: at most four segments
/// of digits with dots between them.
pub open spec fn is_region_code(s: Seq<char>) -> bool {
    &&& s.len() == 2 || s.len() == 5 || s.len() == 8 || s.len() == 13
    &&& forall|i: int| 0 <= i < s.len() ==> is_code_char(#[trigger] s[i])
    &&& split(s, '.').len() <= 4
    &&& forall|i: int| 0 <= i < split(s, '.').len() ==> (#[trigger] split(s, '.')[i]).len() > 0
}

pub open spec fn not_a_code(code: Seq<char>) -> Failure {
    Failure::BadRequest(
        debug_form(code)
            + " is not a Kemendagri region code (e.g. 31, 31.74, 31.74.04, 31.74.04.1006)"@,
    )
}

fn region_code(code: &str) -> (r: bool)
    ensures
        r == is_region_code(code@),
{
    let v = chars_of(code);
    if v.len() != 2 && v.len() != 5 && v.len() != 8 && v.len() != 13 {
        return false;
    }
    let mut i: usize = 0;
    while i < v.len()
        invariant
            i <= v@.len(),
            v@ == code@,
            forall|j: int| 0 <= j < i ==> is_code_char(#[trigger] v@[j]),
        decreases v@.len() - i,
    {
        if !(digit(v[i]) || v[i] == '.') {
            return false;
        }
        i += 1;
    }
    let parts = split_text(code, '.');
    if parts.len() > 4 {
        return false;
    }
    let mut k: usize = 0;
    while k < parts.len()
        invariant
            k <= parts@.len(),
            views(parts@) == split(code@, '.'),
            forall|j: int| 0 <= j < k ==> (#[trigger] split(code@, '.')[j]).len() > 0,
        decreases parts@.len() - k,
    {
        assert(views(parts@)[k as int] == parts@[k as int]@);
        if parts[k].as_str().is_empty() {
            return false;
        }
        k += 1;
    }
    true
}

/// Checking the shape here means that a malformed code never becomes an upstream request.
pub fn validate_code(code: &str) -> (r: ApiResult<()>)
    ensures
        r is Ok <==> is_region_code(code@),
        r matches Err(e) ==> e@ == not_a_code(code@),
{
    if region_code(code) {
        Ok(())
    } else {
        let mut m = debug_text(code);
        m.append(" is not a Kemendagri region code (e.g. 31, 31.74, 31.74.04, 31.74.04.1006)");
        Err(ApiError::BadRequest(m))
    }
}

/// The ancestor `n` levels below the province: the first `n + 1` segments.
pub open spec fn ancestor(code: Seq<char>, n: int) -> Seq<char> {
    join(split(code, '.').take(n + 1), "."@)
}

/// Every ancestor code, outermost first. "31.74.04.1006" -> ["31", "31.74", "31.74.04"].
pub open spec fn ancestor_codes(code: Seq<char>) -> Seq<Seq<char>> {
    Seq::new((split(code, '.').len() - 1) as nat, |n: int| ancestor(code, n))
}

pub fn ancestors(code: &str) -> (r: Vec<String>)
    ensures
        views(r@) == ancestor_codes(code@),
{
    let segs = split_text(code, '.');
    let mut r: Vec<String> = Vec::new();
    let mut prefix: Vec<String> = Vec::new();
    let mut n: usize = 0;
    let count: usize = segs.len() - 1;
    assert(views(r@) =~= ancestor_codes(code@).take(0));
    assert(views(prefix@) =~= split(code@, '.').take(0));
    while n < count
        invariant
            n <= count,
            count + 1 == segs@.len(),
            views(segs@) == split(code@, '.'),
            views(prefix@) == split(code@, '.').take(n as int),
            views(r@) == ancestor_codes(code@).take(n as int),
        decreases count - n,
    {
        let ghost before = views(prefix@);
        let ghost found = views(r@);
        prefix.push(segs[n].clone());
        assert(views(segs@)[n as int] == segs@[n as int]@);
        assert(views(prefix@) =~= before.push(segs@[n as int]@));
        assert(views(prefix@) =~= split(code@, '.').take(n + 1));
        r.push(join_text(&prefix, "."));
        assert(views(r@) =~= found.push(ancestor_codes(code@)[n as int]));
        n += 1;
        assert(views(r@) =~= ancestor_codes(code@).take(n as int));
    }
    assert(ancestor_codes(code@).take(n as int) =~= ancestor_codes(code@));
    r
}

// ------------------------------------------------------------------ queries

/// A value bound to a placeholder of a query.
#[derive(Debug, PartialEq, Eq)]
pub enum Arg {
    Text(String),
    Whole(u32),
}

pub ghost enum ArgView {
    Text(Seq<char>),
    Whole(nat),
}

impl View for Arg {
    type V = ArgView;

    open spec fn view(&self) -> ArgView {
        match self {
            Arg::Text(s) => ArgView::Text(s@),
            Arg::Whole(n) => ArgView::Whole(*n as nat),
        }
    }
}

/// A statement and what its placeholders stand for, in order.
#[derive(Debug, PartialEq, Eq)]
pub struct Query {
    pub sql: String,
    pub args: Vec<Arg>,
}

pub ghost struct QueryView {
    pub sql: Seq<char>,
    pub args: Seq<ArgView>,
}

pub open spec fn arg_views(v: Seq<Arg>) -> Seq<ArgView> {
    v.map_values(|a: Arg| a@)
}

impl View for Query {
    type V = QueryView;

    open spec fn view(&self) -> QueryView {
        QueryView { sql: self.sql@, args: arg_views(self.args@) }
    }
}

/// What became of a query.
pub enum Queried {
    /// The arguments could not be bound.
    Bind(String),
    /// The statement could not be run.
    Run(String),
    /// The rows are not regions.
    Decode(String),
    Rows(Vec<Region>),
}

pub open spec fn queried_rows(q: Queried) -> Result<Seq<RegionView>, Failure> {
    match q {
        Queried::Bind(e) => Err(Failure::Internal("binding query args: "@ + e@)),
        Queried::Run(e) => Err(Failure::Internal("D1 query failed: "@ + e@)),
        Queried::Decode(e) => Err(Failure::Internal("decoding D1 rows: "@ + e@)),
        Queried::Rows(rows) => Ok(region_views(rows@)),
    }
}

pub open spec fn rows_result(r: ApiResult<Vec<Region>>) -> Result<Seq<RegionView>, Failure> {
    match r {
        Ok(v) => Ok(region_views(v@)),
        Err(e) => Err(e@),
    }
}

fn internal(what: &str, e: String) -> (r: ApiError)
    ensures
        r@ == Failure::Internal(what@ + e@),
{
    let mut m = what.to_owned();
    m.append(e.as_str());
    ApiError::Internal(m)
}

/// The rows of a query, or the error that its failure amounts to.
pub fn query(queried: Queried) -> (r: ApiResult<Vec<Region>>)
    ensures
        rows_result(r) == queried_rows(queried),
{
    match queried {
        Queried::Bind(e) => Err(internal("binding query args: ", e)),
        Queried::Run(e) => Err(internal("D1 query failed: ", e)),
        Queried::Decode(e) => Err(internal("decoding D1 rows: ", e)),
        Queried::Rows(rows) => Ok(rows),
    }
}

/// The database binding, or the error that its absence amounts to.
pub fn db<T>(binding: Result<T, String>) -> (r: ApiResult<T>)
    ensures
        match binding {
            Ok(d) => r == Ok::<T, ApiError>(d),
            Err(e) => r matches Err(f) && f@ == Failure::Internal(
                "D1 binding 'DB' unavailable: "@ + e@,
            ),
        },
{
    match binding {
        Ok(d) => Ok(d),
        Err(e) => Err(internal("D1 binding 'DB' unavailable: ", e)),
    }
}

/// What every plain selection of regions starts with.
pub open spec fn selection() -> Seq<char> {
    "SELECT kode AS code, nama AS name, level, parent FROM wilayah WHERE "@
}

fn select(condition: &str) -> (r: String)
    ensures
        r@ == selection() + condition@,
{
    let mut sql = "SELECT kode AS code, nama AS name, level, parent FROM wilayah WHERE ".to_owned();
    sql.append(condition);
    sql
}

fn one_text(s: &str) -> (r: Vec<Arg>)
    ensures
        arg_views(r@) == seq![ArgView::Text(s@)],
{
    let mut args: Vec<Arg> = Vec::new();
    args.push(Arg::Text(s.to_owned()));
    assert(arg_views(args@) =~= seq![ArgView::Text(s@)]);
    args
}

pub open spec fn provinces_statement() -> QueryView {
    QueryView { sql: selection() + "level = 1 ORDER BY nama"@, args: Seq::empty() }
}

pub fn provinces_query() -> (r: Query)
    ensures
        r@ == provinces_statement(),
{
    let r = Query { sql: select("level = 1 ORDER BY nama"), args: Vec::new() };
    assert(r@.args =~= Seq::empty());
    r
}

/// The provinces, from what the query for them came to.
pub fn provinces(rows: ApiResult<Vec<Region>>) -> (r: ApiResult<Vec<Region>>)
    ensures
        r == rows,
{
    rows
}

pub open spec fn children_statement(parent_code: Seq<char>) -> QueryView {
    QueryView {
        sql: selection() + "parent = ?1 ORDER BY nama"@,
        args: seq![ArgView::Text(parent_code)],
    }
}

pub fn children_query(parent_code: &str) -> (r: ApiResult<Query>)
    ensures
        if is_region_code(parent_code@) {
            r matches Ok(q) && q@ == children_statement(parent_code@)
        } else {
            r matches Err(e) && e@ == not_a_code(parent_code@)
        },
{
    match validate_code(parent_code) {
        Ok(_) => Ok(Query { sql: select("parent = ?1 ORDER BY nama"), args: one_text(parent_code) }),
        Err(e) => Err(e),
    }
}

/// The regions of this level, in their order.
pub open spec fn of_level(rows: Seq<RegionView>, level: nat) -> Seq<RegionView> {
    rows.filter(|r: RegionView| r.level == level)
}

pub open spec fn children_result(
    parent_code: Seq<char>,
    expect_level: nat,
    rows: Result<Seq<RegionView>, Failure>,
) -> Result<Seq<RegionView>, Failure> {
    if is_region_code(parent_code) {
        match rows {
            Ok(found) => if of_level(found, expect_level).len() == 0 {
                Err(
                    Failure::NotFound(
                        "no level-"@ + decimal(expect_level) + " regions under "@ + parent_code,
                    ),
                )
            } else {
                Ok(of_level(found, expect_level))
            },
            Err(f) => Err(f),
        }
    } else {
        Err(not_a_code(parent_code))
    }
}

fn keep_level(rows: Vec<Region>, level: u8) -> (r: Vec<Region>)
    ensures
        region_views(r@) == of_level(region_views(rows@), level as nat),
{
    let mut r: Vec<Region> = Vec::new();
    let ghost all = region_views(rows@);
    proof {
        reveal(Seq::filter);
        assert(region_views(r@) =~= of_level(all.take(0), level as nat));
    }
    for row in it: rows
        invariant
            it.seq() == rows@,
            all == region_views(rows@),
            region_views(r@) == of_level(all.take(it.index()), level as nat),
    {
        let ghost before = region_views(r@);
        proof {
            reveal(Seq::filter);
            assert(all.take(it.index() + 1).drop_last() =~= all.take(it.index()));
            assert(all[it.index()] == row@);
        }
        if row.level == level {
            r.push(row);
            assert(region_views(r@) =~= before.push(row@));
        }
    }
    assert(all.take(all.len() as int) =~= all);
    r
}

/// Direct children of `parent_code` at the level the caller expects. Serves districts,
/// subdistricts and villages: they differ only in which level the caller passes in, so one
/// query covers all three.
pub fn children(parent_code: &str, expect_level: u8, rows: ApiResult<Vec<Region>>) -> (r: ApiResult<
    Vec<Region>,
>)
    ensures
        rows_result(r) == children_result(parent_code@, expect_level as nat, rows_result(rows)),
        r matches Ok(v) ==> v@.len() > 0 && forall|i: int|
            0 <= i < v@.len() ==> (#[trigger] v@[i]).level == expect_level,
{
    match validate_code(parent_code) {
        Ok(_) => match rows {
            Ok(found) => {
                let ghost all = region_views(found@);
                let kept = keep_level(found, expect_level);
                assert(region_views(kept@).len() == kept@.len());
                if kept.len() == 0 {
                    let mut m = "no level-".to_owned();
                    m.append(decimal_text(expect_level as u64).as_str());
                    m.append(" regions under ");
                    m.append(parent_code);
                    Err(ApiError::NotFound(m))
                } else {
                    proof {
                        assert forall|i: int| 0 <= i < kept@.len() implies (
                        #[trigger] kept@[i]).level == expect_level by {
                            kept_level_is_the_level(all, expect_level as nat, i);
                            assert(region_views(kept@)[i] == kept@[i]@);
                        }
                    }
                    Ok(kept)
                }
            },
            Err(e) => Err(e),
        },
        Err(e) => Err(e),
    }
}

proof fn kept_level_is_the_level(rows: Seq<RegionView>, level: nat, i: int)
    requires
        0 <= i < of_level(rows, level).len(),
    ensures
        of_level(rows, level)[i].level == level,
        exists|k: int| 0 <= k < rows.len() && #[trigger] rows[k] == of_level(rows, level)[i],
    decreases rows.len(),
{
    reveal(Seq::filter);
    assert(rows.len() > 0);
    let rest = rows.drop_last();
    let last = rows[rows.len() - 1];
    assert(of_level(rows, level) == if last.level == level {
        of_level(rest, level).push(last)
    } else {
        of_level(rest, level)
    });
    if i < of_level(rest, level).len() {
        kept_level_is_the_level(rest, level, i);
        let k = choose|k: int| 0 <= k < rest.len() && #[trigger] rest[k] == of_level(rest, level)[i];
        assert(rows[k] == rest[k]);
    }
}

pub open spec fn get_statement(code: Seq<char>) -> QueryView {
    QueryView { sql: selection() + "kode = ?1"@, args: seq![ArgView::Text(code)] }
}

pub fn get_query(code: &str) -> (r: ApiResult<Query>)
    ensures
        if is_region_code(code@) {
            r matches Ok(q) && q@ == get_statement(code@)
        } else {
            r matches Err(e) && e@ == not_a_code(code@)
        },
{
    match validate_code(code) {
        Ok(_) => Ok(Query { sql: select("kode = ?1"), args: one_text(code) }),
        Err(e) => Err(e),
    }
}

pub open spec fn get_result(code: Seq<char>, rows: Result<Seq<RegionView>, Failure>) -> Result<
    RegionView,
    Failure,
> {
    if is_region_code(code) {
        match rows {
            Ok(found) => if found.len() == 0 {
                Err(Failure::NotFound("no region with code "@ + code))
            } else {
                Ok(found[0])
            },
            Err(f) => Err(f),
        }
    } else {
        Err(not_a_code(code))
    }
}

pub open spec fn region_result(r: ApiResult<Region>) -> Result<RegionView, Failure> {
    match r {
        Ok(x) => Ok(x@),
        Err(e) => Err(e@),
    }
}

/// One region, from what the query for it came to.
pub fn get(code: &str, rows: ApiResult<Vec<Region>>) -> (r: ApiResult<Region>)
    ensures
        region_result(r) == get_result(code@, rows_result(rows)),
{
    match validate_code(code) {
        Ok(_) => match rows {
            Ok(found) => {
                if found.len() == 0 {
                    let mut m = "no region with code ".to_owned();
                    m.append(code);
                    Err(ApiError::NotFound(m))
                } else {
                    let mut found = found;
                    let first = found.swap_remove(0);
                    Ok(first)
                }
            },
            Err(e) => Err(e),
        },
        Err(e) => Err(e),
    }
}

// ------------------------------------------------------------------ search

/// The word range that a search reads: from the name itself up to what no name reaches.
pub open spec fn upper_bound(name: Seq<char>) -> Seq<char> {
    name.push('\u{FFFF}')
}

pub open spec fn level_filter(level: Option<u8>) -> Seq<char> {
    match level {
        Some(l) => "AND w.level = "@ + decimal(l as nat) + " "@,
        None => Seq::empty(),
    }
}

/// At least one hit, at most a hundred.
pub open spec fn hit_limit(limit: u32) -> nat {
    if limit < 1 {
        1
    } else if limit > 100 {
        100
    } else {
        limit as nat
    }
}

pub open spec fn search_statement(name: Seq<char>, limit: u32, level: Option<u8>) -> QueryView {
    QueryView {
        sql: "SELECT w.kode AS code, w.nama AS name, w.level AS level, w.parent AS parent FROM wilayah_token t JOIN wilayah w ON w.kode = t.kode WHERE t.token >= ?1 AND t.token < ?2 "@
            + level_filter(level)
            + "GROUP BY w.kode ORDER BY (w.nama_norm = ?1) DESC, MIN(length(t.token)) ASC, w.level ASC, w.nama ASC LIMIT ?3"@,
        args: seq![
            ArgView::Text(name),
            ArgView::Text(upper_bound(name)),
            ArgView::Whole(hit_limit(limit)),
        ],
    }
}

/// What is wrong with a search, if anything is.
pub open spec fn search_fault(q: Seq<char>, level: Option<u8>) -> Option<Failure> {
    if normal_form(q).len() < 2 {
        Some(Failure::BadRequest("q must be at least 2 characters"@))
    } else {
        match level {
            Some(l) => if 1 <= l <= 4 {
                None
            } else {
                Some(Failure::BadRequest("level must be 1..4, got "@ + decimal(l as nat)))
            },
            None => None,
        }
    }
}

/// Word-prefix search across every level, best match first.
///
/// Matching is per word, so "pejaten barat" finds "Pejaten Barat" and "barat" alone
/// finds it too. The range bound is deliberate: SQLite only uses an index for `LIKE` under
/// conditions D1 does not guarantee, but a range comparison always does.
pub fn search_query(q: &str, limit: u32, level: Option<u8>) -> (r: ApiResult<Query>)
    ensures
        match search_fault(q@, level) {
            Some(f) => r matches Err(e) && e@ == f,
            None => r matches Ok(x) && x@ == search_statement(normal_form(q@), limit, level),
        },
{
    let name = normalise(q);
    if name.as_str().unicode_len() < 2 {
        return Err(ApiError::BadRequest("q must be at least 2 characters".to_owned()));
    }
    let limit: u32 = if limit < 1 {
        1
    } else if limit > 100 {
        100
    } else {
        limit
    };
    let filter = match level {
        Some(l) => {
            if l < 1 || l > 4 {
                let mut m = "level must be 1..4, got ".to_owned();
                m.append(decimal_text(l as u64).as_str());
                return Err(ApiError::BadRequest(m));
            }
            let mut f = "AND w.level = ".to_owned();
            f.append(decimal_text(l as u64).as_str());
            f.append(" ");
            f
        },
        None => String::new(),
    };
    let mut sql = "SELECT w.kode AS code, w.nama AS name, w.level AS level, w.parent AS parent FROM wilayah_token t JOIN wilayah w ON w.kode = t.kode WHERE t.token >= ?1 AND t.token < ?2 ".to_owned();
    sql.append(filter.as_str());
    sql.append(
        "GROUP BY w.kode ORDER BY (w.nama_norm = ?1) DESC, MIN(length(t.token)) ASC, w.level ASC, w.nama ASC LIMIT ?3",
    );
    let mut hi = name.clone();
    hi.push('\u{FFFF}');
    let mut args: Vec<Arg> = Vec::new();
    args.push(Arg::Text(name));
    args.push(Arg::Text(hi));
    args.push(Arg::Whole(limit));
    let r = Query { sql, args };
    assert(filter@ =~= level_filter(level));
    assert(r@.args =~= search_statement(normal_form(q@), limit, level).args);
    Ok(r)
}

/// The texts without those that stand earlier in the list.
pub open spec fn distinct_texts(s: Seq<Seq<char>>) -> Seq<Seq<char>>
    decreases s.len(),
{
    if s.len() == 0 {
        s
    } else {
        let before = distinct_texts(s.drop_last());
        if before.contains(s.last()) {
            before
        } else {
            before.push(s.last())
        }
    }
}

/// The ancestors of each row in turn.
pub open spec fn all_ancestors(rows: Seq<RegionView>) -> Seq<Seq<char>>
    decreases rows.len(),
{
    if rows.len() == 0 {
        Seq::empty()
    } else {
        all_ancestors(rows.drop_last()) + ancestor_codes(rows.last().code)
    }
}

fn listed(codes: &Vec<String>, code: &str) -> (r: bool)
    ensures
        r == views(codes@).contains(code@),
{
    let mut i: usize = 0;
    while i < codes.len()
        invariant
            i <= codes@.len(),
            forall|j: int| 0 <= j < i ==> #[trigger] views(codes@)[j] != code@,
        decreases codes@.len() - i,
    {
        assert(views(codes@)[i as int] == codes@[i as int]@);
        if same(codes[i].as_str(), code) {
            return true;
        }
        i += 1;
    }
    false
}

/// The codes whose names the paths of these rows need, each once.
pub fn wanted_ancestors(rows: &Vec<Region>) -> (r: Vec<String>)
    ensures
        views(r@) == distinct_texts(all_ancestors(region_views(rows@))),
{
    let mut wanted: Vec<String> = Vec::new();
    let ghost all = region_views(rows@);
    let mut i: usize = 0;
    assert(all.take(0) =~= Seq::empty());
    assert(views(wanted@) =~= distinct_texts(all_ancestors(all.take(0))));
    while i < rows.len()
        invariant
            i <= rows@.len(),
            all == region_views(rows@),
            views(wanted@) == distinct_texts(all_ancestors(all.take(i as int))),
        decreases rows@.len() - i,
    {
        let more = ancestors(rows[i].code.as_str());
        let ghost base = all_ancestors(all.take(i as int));
        let ghost extra = ancestor_codes(rows@[i as int].code@);
        let mut k: usize = 0;
        assert(base + extra.take(0) =~= base);
        while k < more.len()
            invariant
                k <= more@.len(),
                views(more@) == extra,
                views(wanted@) == distinct_texts(base + extra.take(k as int)),
            decreases more@.len() - k,
        {
            let ghost before = views(wanted@);
            let ghost longer = base + extra.take(k + 1);
            assert(longer.drop_last() =~= base + extra.take(k as int));
            assert(longer.last() == extra[k as int]);
            assert(views(more@)[k as int] == more@[k as int]@);
            if !listed(&wanted, more[k].as_str()) {
                wanted.push(more[k].clone());
                assert(views(wanted@) =~= before.push(extra[k as int]));
            }
            k += 1;
        }
        proof {
            assert(extra.take(k as int) =~= extra);
            assert(all.take(i + 1).drop_last() =~= all.take(i as int));
            assert(all[i as int] == rows@[i as int]@);
        }
        i += 1;
    }
    assert(all.take(i as int) =~= all);
    wanted
}

/// `?1`, `?2` and so on, up to `n`.
pub open spec fn placeholder_list(n: nat) -> Seq<Seq<char>> {
    Seq::new(n, |i: int| "?"@ + decimal((i + 1) as nat))
}

pub open spec fn names_statement(codes: Seq<Seq<char>>) -> QueryView {
    QueryView {
        sql: selection() + "kode IN ("@ + join(placeholder_list(codes.len()), ","@) + ")"@,
        args: codes.map_values(|c: Seq<char>| ArgView::Text(c)),
    }
}

/// The query for the names of the wanted codes, if any are wanted.
pub fn names_query(wanted: &Vec<String>) -> (r: Option<Query>)
    ensures
        r is None <==> wanted@.len() == 0,
        r matches Some(q) ==> q@ == names_statement(views(wanted@)),
{
    let count: usize = wanted.len();
    if count == 0 {
        return None;
    }
    let mut places: Vec<String> = Vec::new();
    let mut args: Vec<Arg> = Vec::new();
    let ghost all_places = placeholder_list(count as nat);
    let ghost all_args = names_statement(views(wanted@)).args;
    let mut i: usize = 0;
    assert(views(places@) =~= all_places.take(0));
    assert(arg_views(args@) =~= all_args.take(0));
    while i < count
        invariant
            i <= count == wanted@.len(),
            all_places == placeholder_list(count as nat),
            all_args == names_statement(views(wanted@)).args,
            views(places@) == all_places.take(i as int),
            arg_views(args@) == all_args.take(i as int),
        decreases count - i,
    {
        let ghost places_before = views(places@);
        let ghost args_before = arg_views(args@);
        let mut p = "?".to_owned();
        p.append(decimal_text(i as u64 + 1).as_str());
        places.push(p);
        args.push(Arg::Text(wanted[i].clone()));
        assert(views(places@) =~= places_before.push(all_places[i as int]));
        assert(arg_views(args@) =~= args_before.push(all_args[i as int]));
        i += 1;
        assert(views(places@) =~= all_places.take(i as int));
        assert(arg_views(args@) =~= all_args.take(i as int));
    }
    assert(all_places.take(count as int) =~= all_places);
    assert(all_args.take(count as int) =~= all_args);
    let mut condition = "kode IN (".to_owned();
    condition.append(join_text(&places, ",").as_str());
    condition.append(")");
    let r = Query { sql: select(condition.as_str()), args };
    assert(r@.sql =~= names_statement(views(wanted@)).sql);
    Some(r)
}

/// The name of the first region with this code.
pub open spec fn name_of(found: Seq<RegionView>, code: Seq<char>) -> Option<Seq<char>>
    decreases found.len(),
{
    if found.len() == 0 {
        None
    } else if found[0].code == code {
        Some(found[0].name)
    } else {
        name_of(found.skip(1), code)
    }
}

/// The names that are known for these codes, in the order of the codes.
pub open spec fn known_names(found: Seq<RegionView>, codes: Seq<Seq<char>>) -> Seq<Seq<char>>
    decreases codes.len(),
{
    if codes.len() == 0 {
        Seq::empty()
    } else {
        let before = known_names(found, codes.drop_last());
        match name_of(found, codes.last()) {
            Some(name) => before.push(name),
            None => before,
        }
    }
}

impl RegionView {
    /// The names from the province down to the region itself.
    pub open spec fn full_path(self, found: Seq<RegionView>) -> Seq<char> {
        join(known_names(found, ancestor_codes(self.code)).push(self.name), " › "@)
    }

    pub open spec fn with_path(self, found: Seq<RegionView>) -> RegionView {
        RegionView { path: Some(self.full_path(found)), ..self }
    }
}

pub open spec fn with_paths(rows: Seq<RegionView>, found: Seq<RegionView>) -> Seq<RegionView> {
    rows.map_values(|r: RegionView| r.with_path(found))
}

fn find_name(found: &Vec<Region>, code: &str) -> (r: Option<String>)
    ensures
        opt(r) == name_of(region_views(found@), code@),
{
    let mut i: usize = 0;
    let ghost all = region_views(found@);
    assert(all.skip(0) =~= all);
    while i < found.len()
        invariant
            i <= found@.len(),
            all == region_views(found@),
            name_of(all, code@) == name_of(all.skip(i as int), code@),
        decreases found@.len() - i,
    {
        let ghost rest = all.skip(i as int);
        assert(rest[0] == found@[i as int]@);
        if same(found[i].code.as_str(), code) {
            return Some(found[i].name.clone());
        }
        assert(rest.skip(1) =~= all.skip(i + 1));
        i += 1;
    }
    None
}

fn path_for(row: &Region, found: &Vec<Region>) -> (r: String)
    ensures
        r@ == row@.full_path(region_views(found@)),
{
    let codes = ancestors(row.code.as_str());
    let ghost all = ancestor_codes(row.code@);
    let ghost known = region_views(found@);
    let mut parts: Vec<String> = Vec::new();
    let mut i: usize = 0;
    assert(all.take(0) =~= Seq::empty());
    assert(views(parts@) =~= known_names(known, all.take(0)));
    while i < codes.len()
        invariant
            i <= codes@.len(),
            views(codes@) == all,
            known == region_views(found@),
            views(parts@) == known_names(known, all.take(i as int)),
        decreases codes@.len() - i,
    {
        let ghost before = views(parts@);
        assert(all.take(i + 1).drop_last() =~= all.take(i as int));
        assert(all[i as int] == codes@[i as int]@);
        match find_name(found, codes[i].as_str()) {
            Some(name) => {
                parts.push(name);
                assert(views(parts@) =~= before.push(name@));
            },
            None => {},
        }
        i += 1;
    }
    assert(all.take(i as int) =~= all);
    let ghost before = views(parts@);
    parts.push(row.name.clone());
    assert(views(parts@) =~= before.push(row.name@));
    join_text(&parts, " › ")
}

/// Fills in the path of every row from the names that were found for its ancestors.
pub fn attach_paths(rows: Vec<Region>, found: &Vec<Region>) -> (r: Vec<Region>)
    ensures
        region_views(r@) == with_paths(region_views(rows@), region_views(found@)),
{
    let ghost all = with_paths(region_views(rows@), region_views(found@));
    let mut r: Vec<Region> = Vec::new();
    assert(region_views(r@) =~= all.take(0));
    for row in it: rows
        invariant
            it.seq() == rows@,
            all == with_paths(region_views(rows@), region_views(found@)),
            region_views(r@) == all.take(it.index()),
    {
        let ghost before = region_views(r@);
        let ghost n = it.index();
        let path = path_for(&row, found);
        let mut filled = row;
        filled.path = Some(path);
        assert(filled@ == all[n]);
        r.push(filled);
        assert(region_views(r@) =~= before.push(all[n]));
        assert(region_views(r@) =~= all.take(n + 1));
    }
    assert(all.take(all.len() as int) =~= all);
    r
}

pub open spec fn search_result(
    q: Seq<char>,
    level: Option<u8>,
    rows: Result<Seq<RegionView>, Failure>,
    found: Result<Seq<RegionView>, Failure>,
) -> Result<Seq<RegionView>, Failure> {
    match search_fault(q, level) {
        Some(f) => Err(f),
        None => match rows {
            Err(f) => Err(f),
            Ok(rows) => if all_ancestors(rows).len() == 0 {
                Ok(with_paths(rows, Seq::empty()))
            } else {
                match found {
                    Err(f) => Err(f),
                    Ok(found) => Ok(with_paths(rows, found)),
                }
            },
        },
    }
}

proof fn distinct_texts_empty(s: Seq<Seq<char>>)
    ensures
        distinct_texts(s).len() == 0 <==> s.len() == 0,
    decreases s.len(),
{
    if s.len() > 0 {
        distinct_texts_empty(s.drop_last());
    }
}

/// The hits, each with its full path: from what the search came to, and what looking up the
/// names of their ancestors came to where any have ancestors.
pub fn search(
    q: &str,
    limit: u32,
    level: Option<u8>,
    rows: ApiResult<Vec<Region>>,
    found: ApiResult<Vec<Region>>,
) -> (r: ApiResult<Vec<Region>>)
    ensures
        rows_result(r) == search_result(q@, level, rows_result(rows), rows_result(found)),
{
    match search_query(q, limit, level) {
        Err(e) => Err(e),
        Ok(_) => match rows {
            Err(e) => Err(e),
            Ok(rows) => {
                let wanted = wanted_ancestors(&rows);
                proof {
                    distinct_texts_empty(all_ancestors(region_views(rows@)));
                }
                if wanted.len() == 0 {
                    let none: Vec<Region> = Vec::new();
                    assert(region_views(none@) =~= Seq::empty());
                    Ok(attach_paths(rows, &none))
                } else {
                    match found {
                        Err(e) => Err(e),
                        Ok(found) => Ok(attach_paths(rows, &found)),
                    }
                }
            },
        },
    }
}

// ------------------------------------------------------------------ laws

/// What a caller wrote is only ever bound to a placeholder: the statement itself is the same
/// whatever it says.
pub proof fn callers_text_never_enters_a_statement(a: Seq<char>, b: Seq<char>, limit: u32, level: Option<u8>)
    ensures
        children_statement(a).sql == children_statement(b).sql,
        get_statement(a).sql == get_statement(b).sql,
        search_statement(a, limit, level).sql == search_statement(b, limit, level).sql,
{
}

/// Children are never of another level than was asked for, and never none: what is listed is
/// found among the rows, has the level, and is a child of the code wherever the rows are.
pub proof fn children_have_the_level_asked_for(
    parent_code: Seq<char>,
    expect_level: nat,
    rows: Seq<RegionView>,
)
    ensures
        children_result(parent_code, expect_level, Ok(rows)) matches Ok(v) ==> {
            &&& v.len() > 0
            &&& forall|i: int|
                0 <= i < v.len() ==> (#[trigger] v[i]).level == expect_level && rows.contains(v[i])
            &&& (forall|k: int|
                0 <= k < rows.len() ==> (#[trigger] rows[k]).parent == Some(parent_code)) ==> (
            forall|i: int| 0 <= i < v.len() ==> (#[trigger] v[i]).parent == Some(parent_code))
        },
{
    let kept = of_level(rows, expect_level);
    assert forall|i: int| 0 <= i < kept.len() implies (#[trigger] kept[i]).level == expect_level
        && rows.contains(kept[i]) by {
        kept_level_is_the_level(rows, expect_level, i);
    }
    if forall|k: int| 0 <= k < rows.len() ==> (#[trigger] rows[k]).parent == Some(parent_code) {
        assert forall|i: int| 0 <= i < kept.len() implies (#[trigger] kept[i]).parent == Some(
            parent_code,
        ) by {
            kept_level_is_the_level(rows, expect_level, i);
        }
    }
}

/// `a` stands before `b` where texts are ordered by their characters' code points.
pub open spec fn sorts_before(a: Seq<char>, b: Seq<char>) -> bool
    decreases a.len(),
{
    if b.len() == 0 {
        false
    } else if a.len() == 0 {
        true
    } else if a[0] != b[0] {
        a[0] < b[0]
    } else {
        sorts_before(a.skip(1), b.skip(1))
    }
}

pub open spec fn starts_with(s: Seq<char>, prefix: Seq<char>) -> bool {
    prefix.len() <= s.len() && s.take(prefix.len() as int) == prefix
}

/// The range `>= name AND < name + U+FFFF` that a search reads holds exactly the tokens that
/// start with the name.
pub proof fn the_range_is_the_prefix_match(name: Seq<char>, token: Seq<char>)
    requires
        forall|i: int| 0 <= i < token.len() ==> #[trigger] token[i] < '\u{FFFF}',
    ensures
        !sorts_before(token, name) && sorts_before(token, upper_bound(name)) <==> starts_with(
            token,
            name,
        ),
    decreases name.len(),
{
    let hi = upper_bound(name);
    if name.len() == 0 {
        assert(token.take(0) =~= name);
        assert(hi[0] == '\u{FFFF}');
    } else if token.len() > 0 {
        assert(hi[0] == name[0]);
        if token[0] == name[0] {
            let n = name.skip(1);
            let t = token.skip(1);
            assert(hi.skip(1) =~= upper_bound(n));
            assert forall|i: int| 0 <= i < t.len() implies #[trigger] t[i] < '\u{FFFF}' by {
                assert(t[i] == token[i + 1]);
            }
            the_range_is_the_prefix_match(n, t);
            if starts_with(t, n) {
                assert(token.take(name.len() as int) =~= seq![name[0]] + t.take(n.len() as int));
                assert(name =~= seq![name[0]] + n);
            }
            if starts_with(token, name) {
                assert(t.take(n.len() as int) =~= token.take(name.len() as int).skip(1));
            }
        } else {
            if starts_with(token, name) {
                assert(token.take(name.len() as int)[0] == name[0]);
            }
        }
    }
}

/// A word as names are broken into: upper-case letters and digits, at least one.
pub open spec fn is_name_word(w: Seq<char>) -> bool {
    w.len() > 0 && forall|i: int|
        0 <= i < w.len() ==> is_alnum(#[trigger] w[i]) && to_upper(w[i]) == w[i]
}

/// What normalising leaves is the name's words in upper case, parted by single spaces, and
/// nothing else; normalising it again changes nothing.
pub proof fn normalising_twice_is_normalising_once(s: Seq<char>)
    ensures
        forall|i: int| 0 <= i < name_words(s).len() ==> is_name_word(#[trigger] name_words(s)[i]),
        name_words(normal_form(s)) == name_words(s),
        normal_form(normal_form(s)) == normal_form(s),
{
    words_are_words(s);
    words_read_back(name_words(s));
}

proof fn pieces_hold_name_chars(s: Seq<char>)
    ensures
        name_pieces(s).len() >= 1,
        forall|k: int, i: int|
            0 <= k < name_pieces(s).len() && 0 <= i < name_pieces(s)[k].len() ==> is_alnum(
                #[trigger] name_pieces(s)[k][i],
            ) && to_upper(name_pieces(s)[k][i]) == name_pieces(s)[k][i],
    decreases s.len(),
{
    if s.len() > 0 {
        pieces_hold_name_chars(s.drop_last());
        let before = name_pieces(s.drop_last());
        let after = name_pieces(s);
        assert forall|k: int, i: int| 0 <= k < after.len() && 0 <= i < after[k].len() implies is_alnum(
            #[trigger] after[k][i],
        ) && to_upper(after[k][i]) == after[k][i] by {
            if k < before.len() - 1 {
                assert(after[k] == before[k]);
                assert(is_alnum(before[k][i]));
            } else if k == before.len() - 1 {
                if i < before[k].len() {
                    assert(after[k][i] == before[k][i]);
                    assert(is_alnum(before[k][i]));
                }
            }
        }
    }
}

proof fn kept_is_a_piece(parts: Seq<Seq<char>>, i: int)
    requires
        0 <= i < non_empty(parts).len(),
    ensures
        non_empty(parts)[i].len() > 0,
        exists|k: int| 0 <= k < parts.len() && #[trigger] parts[k] == non_empty(parts)[i],
    decreases parts.len(),
{
    reveal(Seq::filter);
    let rest = parts.drop_last();
    let last = parts.last();
    assert(parts.len() > 0);
    assert(parts =~= rest.push(last));
    non_empty_push(rest, last);
    if i < non_empty(rest).len() {
        kept_is_a_piece(rest, i);
        let k = choose|k: int| 0 <= k < rest.len() && #[trigger] rest[k] == non_empty(rest)[i];
        assert(parts[k] == rest[k]);
    } else {
        assert(parts[parts.len() - 1] == last);
    }
}

proof fn words_are_words(s: Seq<char>)
    ensures
        forall|i: int| 0 <= i < name_words(s).len() ==> is_name_word(#[trigger] name_words(s)[i]),
{
    let pieces = name_pieces(s);
    pieces_hold_name_chars(s);
    assert forall|i: int| 0 <= i < name_words(s).len() implies is_name_word(
        #[trigger] name_words(s)[i],
    ) by {
        let w = name_words(s)[i];
        kept_is_a_piece(pieces, i);
        let k = choose|k: int| 0 <= k < pieces.len() && #[trigger] pieces[k] == w;
        assert forall|j: int| 0 <= j < w.len() implies is_alnum(#[trigger] w[j]) && to_upper(w[j])
            == w[j] by {
            assert(is_alnum(pieces[k][j]));
        }
    }
}

/// A word after a space is the last piece.
proof fn piece_after_space(a: Seq<char>, w: Seq<char>)
    requires
        forall|i: int| 0 <= i < w.len() ==> is_alnum(#[trigger] w[i]) && to_upper(w[i]) == w[i],
    ensures
        name_pieces(a.push(' ') + w) == name_pieces(a).push(w),
    decreases w.len(),
{
    let s = a.push(' ') + w;
    if w.len() == 0 {
        assert(s =~= a.push(' '));
        assert(s.drop_last() =~= a);
        assert(w =~= Seq::empty());
        base_letters_are_plain(' ');
    } else {
        let v = w.drop_last();
        assert(s.drop_last() =~= a.push(' ') + v);
        assert forall|i: int| 0 <= i < v.len() implies is_alnum(#[trigger] v[i]) && to_upper(v[i])
            == v[i] by {
            assert(v[i] == w[i]);
        }
        piece_after_space(a, v);
        assert(s.last() == w[w.len() - 1]);
        base_letters_are_plain(s.last());
        assert(v.push(w[w.len() - 1]) =~= w);
        assert(name_pieces(s) =~= name_pieces(a).push(w));
    }
}

proof fn pieces_of_word(w: Seq<char>)
    requires
        forall|i: int| 0 <= i < w.len() ==> is_alnum(#[trigger] w[i]) && to_upper(w[i]) == w[i],
    ensures
        name_pieces(w) == seq![w],
    decreases w.len(),
{
    if w.len() > 0 {
        let v = w.drop_last();
        assert forall|i: int| 0 <= i < v.len() implies is_alnum(#[trigger] v[i]) && to_upper(v[i])
            == v[i] by {
            assert(v[i] == w[i]);
        }
        pieces_of_word(v);
        assert(w.last() == w[w.len() - 1]);
        base_letters_are_plain(w.last());
        assert(v.push(w.last()) =~= w);
        assert(name_pieces(w) =~= seq![w]);
    } else {
        assert(w =~= Seq::empty());
    }
}

/// Words with a space between them are the words that a name is broken into.
pub proof fn words_read_back(ws: Seq<Seq<char>>)
    requires
        forall|i: int| 0 <= i < ws.len() ==> is_name_word(#[trigger] ws[i]),
    ensures
        name_words(join(ws, " "@)) == ws,
    decreases ws.len(),
{
    reveal_strlit(" ");
    reveal(Seq::filter);
    let e = Seq::<Seq<char>>::empty();
    assert(non_empty(e) =~= e);
    if ws.len() == 0 {
        non_empty_push(e, Seq::empty());
        assert(e.push(Seq::empty()) =~= seq![Seq::<char>::empty()]);
        assert(ws =~= e);
    } else {
        let last = ws[ws.len() - 1];
        assert(is_name_word(last));
        if ws.len() == 1 {
            pieces_of_word(last);
            non_empty_push(e, last);
            assert(e.push(last) =~= seq![last]);
            assert(ws =~= seq![last]);
        } else {
            let rest = ws.drop_last();
            assert forall|i: int| 0 <= i < rest.len() implies is_name_word(#[trigger] rest[i]) by {
                assert(rest[i] == ws[i]);
            }
            words_read_back(rest);
            let a = join(rest, " "@);
            assert(join(ws, " "@) =~= a.push(' ') + last);
            piece_after_space(a, last);
            non_empty_push(name_pieces(a), last);
            assert(ws =~= rest.push(last));
        }
    }
}

/// Upper and lower case make no difference to a search.
pub proof fn case_makes_no_difference(s: Seq<char>)
    ensures
        normal_form(crate::number::uppercase_letters(s)) == normal_form(s),
{
    pieces_ignore_case(s);
}

proof fn pieces_ignore_case(s: Seq<char>)
    ensures
        name_pieces(crate::number::uppercase_letters(s)) == name_pieces(s),
    decreases s.len(),
{
    let u = crate::number::uppercase_letters(s);
    if s.len() > 0 {
        pieces_ignore_case(s.drop_last());
        assert(u.drop_last() =~= crate::number::uppercase_letters(s.drop_last()));
        assert(u.last() == to_upper(s.last()));
        base_letters_are_plain(s.last());
        base_letters_are_plain(u.last());
    } else {
        assert(u =~= s);
    }
}

/// A text without its accents: each letter as its base letter, and no marks.
pub open spec fn without_accents(s: Seq<char>) -> Seq<char>
    decreases s.len(),
{
    if s.len() == 0 {
        s
    } else if is_mark(s.last()) {
        without_accents(s.drop_last())
    } else {
        without_accents(s.drop_last()).push(base_letter(s.last()))
    }
}

/// Accents make no difference to a search, however they are written.
pub proof fn accents_make_no_difference(s: Seq<char>)
    ensures
        normal_form(without_accents(s)) == normal_form(s),
{
    pieces_ignore_accents(s);
}

proof fn pieces_ignore_accents(s: Seq<char>)
    ensures
        name_pieces(without_accents(s)) == name_pieces(s),
    decreases s.len(),
{
    if s.len() > 0 {
        let t = without_accents(s.drop_last());
        pieces_ignore_accents(s.drop_last());
        base_letters_are_plain(s.last());
        if !is_mark(s.last()) {
            assert(t.push(base_letter(s.last())).drop_last() =~= t);
        }
    }
}

/// Joining two lists of parts is joining each, with the separator between.
pub proof fn join_of_two(a: Seq<Seq<char>>, b: Seq<Seq<char>>, sep: Seq<char>)
    requires
        a.len() > 0,
        b.len() > 0,
    ensures
        join(a + b, sep) == join(a, sep) + sep + join(b, sep),
    decreases b.len(),
{
    let all = a + b;
    if b.len() == 1 {
        assert(all.drop_last() =~= a);
    } else {
        assert(all.drop_last() =~= a + b.drop_last());
        join_of_two(a, b.drop_last(), sep);
        assert(join(all, sep) =~= join(a, sep) + sep + join(b, sep));
    }
}

/// An ancestor's code is what stands before one of the dots of the code: the ancestor with
/// `n + 1` segments, a dot, and the segments that are left make up the code.
pub proof fn ancestors_are_what_stands_before_a_dot(code: Seq<char>, n: int)
    requires
        0 <= n < ancestor_codes(code).len(),
    ensures
        code == ancestor_codes(code)[n] + "."@ + join(split(code, '.').skip(n + 1), "."@),
{
    reveal_strlit(".");
    let parts = split(code, '.');
    split_then_join(code, '.');
    assert("."@ =~= seq!['.']);
    assert(parts =~= parts.take(n + 1) + parts.skip(n + 1));
    join_of_two(parts.take(n + 1), parts.skip(n + 1), "."@);
}

/// Each ancestor of each hit is asked for, and none twice.
pub proof fn each_ancestor_is_asked_for_once(codes: Seq<Seq<char>>)
    ensures
        forall|c: Seq<char>| #[trigger]
            distinct_texts(codes).contains(c) <==> codes.contains(c),
        distinct_texts(codes).no_duplicates(),
    decreases codes.len(),
{
    if codes.len() > 0 {
        let rest = codes.drop_last();
        let last = codes.last();
        let before = distinct_texts(rest);
        let after = distinct_texts(codes);
        each_ancestor_is_asked_for_once(rest);
        assert(codes =~= rest.push(last));
        assert forall|c: Seq<char>| #[trigger] after.contains(c) <==> codes.contains(c) by {
            assert(before.contains(c) <==> rest.contains(c));
            text_pushed(rest, last, c);
            text_pushed(before, last, c);
        }
        if !before.contains(last) {
            assert forall|i: int, j: int| 0 <= i < j < after.len() implies after[i] != after[j] by {
                assert(after[i] == before[i]);
                if j < before.len() {
                    assert(after[j] == before[j]);
                } else {
                    assert(before.contains(before[i]));
                }
            }
        }
    }
}

proof fn text_pushed(s: Seq<Seq<char>>, last: Seq<char>, c: Seq<char>)
    ensures
        s.push(last).contains(c) <==> s.contains(c) || c == last,
{
    let t = s.push(last);
    if s.contains(c) {
        let i = choose|i: int| 0 <= i < s.len() && s[i] == c;
        assert(t[i] == c);
    }
    if c == last {
        assert(t[s.len() as int] == c);
    }
    if t.contains(c) {
        let i = choose|i: int| 0 <= i < t.len() && t[i] == c;
        assert(i < s.len() ==> s[i] == c);
    }
}

/// The path of a region whose ancestors are all known is their names, from the province
/// down, and then its own.
pub proof fn a_full_path_names_every_ancestor(
    row: RegionView,
    found: Seq<RegionView>,
    names: Seq<Seq<char>>,
)
    requires
        names.len() == ancestor_codes(row.code).len(),
        forall|n: int|
            0 <= n < names.len() ==> name_of(found, #[trigger] ancestor_codes(row.code)[n]) == Some(
                names[n],
            ),
    ensures
        row.full_path(found) == join(names.push(row.name), " › "@),
{
    all_known(found, ancestor_codes(row.code), names);
}

proof fn all_known(found: Seq<RegionView>, codes: Seq<Seq<char>>, names: Seq<Seq<char>>)
    requires
        names.len() == codes.len(),
        forall|n: int|
            0 <= n < names.len() ==> name_of(found, #[trigger] codes[n]) == Some(names[n]),
    ensures
        known_names(found, codes) == names,
    decreases codes.len(),
{
    if codes.len() > 0 {
        let c = codes.drop_last();
        let m = names.drop_last();
        assert forall|n: int| 0 <= n < m.len() implies name_of(found, #[trigger] c[n]) == Some(
            m[n],
        ) by {
            assert(c[n] == codes[n]);
        }
        all_known(found, c, m);
        let k = codes.len() - 1;
        assert(codes[k] == codes.last());
        assert(names =~= m.push(names[k]));
    } else {
        assert(names =~= Seq::empty());
    }
}

/// Every hit of a search comes with its full path, and is otherwise the row that was found.
pub proof fn every_hit_has_its_full_path(
    q: Seq<char>,
    level: Option<u8>,
    rows: Seq<RegionView>,
    found: Result<Seq<RegionView>, Failure>,
)
    ensures
        search_result(q, level, Ok(rows), found) matches Ok(hits) ==> hits.len() == rows.len()
            && forall|i: int|
            0 <= i < hits.len() ==> (#[trigger] hits[i]).path is Some && (RegionView {
                path: rows[i].path,
                ..hits[i]
            }) == rows[i],
{
}

} // verus!
