//! JSON values: what responses are made of and what tool calls carry.

use vstd::prelude::*;
use crate::number::{opt_number, Number};
use crate::text::{opt, same};

verus! {

/// A JSON value. Numbers keep the three forms in which a document can carry them.
#[derive(Debug, PartialEq, Eq)]
pub enum Json {
    Null,
    Bool(bool),
    Unsigned(u64),
    Signed(i64),
    Float(Number),
    Text(String),
    Array(Vec<Json>),
    Object(Vec<Member>),
}

#[derive(Debug, PartialEq, Eq)]
pub struct Member {
    pub name: String,
    pub value: Json,
}

/// What a [`Json`] says, free of how it is stored.
pub ghost enum Tree {
    Null,
    Bool(bool),
    Unsigned(nat),
    Signed(int),
    Float(Seq<char>),
    Text(Seq<char>),
    Array(Seq<Tree>),
    Object(Seq<(Seq<char>, Tree)>),
}

pub open spec fn trees(v: Seq<Json>) -> Seq<Tree> {
    v.map_values(|j: Json| j@)
}

pub open spec fn members(v: Seq<Member>) -> Seq<(Seq<char>, Tree)> {
    v.map_values(|m: Member| (m.name@, m.value@))
}

impl Json {
    pub closed spec fn tree(self) -> Tree
        decreases self,
    {
        match self {
            Json::Null => Tree::Null,
            Json::Bool(b) => Tree::Bool(b),
            Json::Unsigned(n) => Tree::Unsigned(n as nat),
            Json::Signed(n) => Tree::Signed(n as int),
            Json::Float(n) => Tree::Float(n@),
            Json::Text(s) => Tree::Text(s@),
            Json::Array(v) => Tree::Array(
                Seq::new(
                    v@.len(),
                    |i: int|
                        if 0 <= i < v@.len() {
                            v@[i].tree()
                        } else {
                            Tree::Null
                        },
                ),
            ),
            Json::Object(v) => Tree::Object(
                Seq::new(
                    v@.len(),
                    |i: int|
                        if 0 <= i < v@.len() {
                            (v@[i].name@, v@[i].value.tree())
                        } else {
                            (Seq::empty(), Tree::Null)
                        },
                ),
            ),
        }
    }
}

impl View for Json {
    type V = Tree;

    open spec fn view(&self) -> Tree {
        self.tree()
    }
}

/// What the tree of each form of value is.
pub proof fn tree_of(j: Json)
    ensures
        match j {
            Json::Null => j@ == Tree::Null,
            Json::Bool(b) => j@ == Tree::Bool(b),
            Json::Unsigned(n) => j@ == Tree::Unsigned(n as nat),
            Json::Signed(n) => j@ == Tree::Signed(n as int),
            Json::Float(n) => j@ == Tree::Float(n@),
            Json::Text(s) => j@ == Tree::Text(s@),
            Json::Array(v) => j@ == Tree::Array(trees(v@)),
            Json::Object(v) => j@ == Tree::Object(members(v@)),
        },
{
    match j {
        Json::Array(v) => {
            assert(j.tree()->Array_0 =~= trees(v@));
        },
        Json::Object(v) => {
            assert(j.tree()->Object_0 =~= members(v@));
        },
        _ => {},
    }
}

impl Tree {
    /// The value of the first member with this name.
    pub open spec fn member(self, name: Seq<char>) -> Option<Tree> {
        match self {
            Tree::Object(ms) => first_named(ms, name),
            _ => None,
        }
    }

    pub open spec fn member_text(self, name: Seq<char>) -> Option<Seq<char>> {
        match self.member(name) {
            Some(Tree::Text(s)) => Some(s),
            _ => None,
        }
    }

    pub open spec fn member_unsigned(self, name: Seq<char>) -> Option<nat> {
        match self.member(name) {
            Some(Tree::Unsigned(n)) => Some(n),
            _ => None,
        }
    }

    /// The text of a number of any form.
    pub open spec fn number_text(self) -> Option<Seq<char>> {
        match self {
            Tree::Unsigned(n) => Some(crate::text::decimal(n)),
            Tree::Signed(n) => Some(
                if n < 0 {
                    seq!['-'] + crate::text::decimal((-n) as nat)
                } else {
                    crate::text::decimal(n as nat)
                },
            ),
            Tree::Float(s) => Some(s),
            _ => None,
        }
    }

    pub open spec fn member_number(self, name: Seq<char>) -> Option<Seq<char>> {
        match self.member(name) {
            Some(t) => t.number_text(),
            None => None,
        }
    }
}

pub open spec fn first_named(ms: Seq<(Seq<char>, Tree)>, name: Seq<char>) -> Option<Tree>
    decreases ms.len(),
{
    if ms.len() == 0 {
        None
    } else if ms[0].0 == name {
        Some(ms[0].1)
    } else {
        first_named(ms.skip(1), name)
    }
}

impl Json {
    pub fn text(s: &str) -> (r: Json)
        ensures
            r@ == Tree::Text(s@),
    {
        let r = Json::Text(s.to_owned());
        proof {
            tree_of(r);
        }
        r
    }

    pub fn bool(b: bool) -> (r: Json)
        ensures
            r@ == Tree::Bool(b),
    {
        let r = Json::Bool(b);
        proof {
            tree_of(r);
        }
        r
    }

    pub fn unsigned(n: u64) -> (r: Json)
        ensures
            r@ == Tree::Unsigned(n as nat),
    {
        let r = Json::Unsigned(n);
        proof {
            tree_of(r);
        }
        r
    }

    pub fn signed(n: i64) -> (r: Json)
        ensures
            r@ == Tree::Signed(n as int),
    {
        let r = Json::Signed(n);
        proof {
            tree_of(r);
        }
        r
    }

    pub fn float(n: &Number) -> (r: Json)
        ensures
            r@ == Tree::Float(n@),
    {
        let r = Json::Float(n.clone());
        proof {
            tree_of(r);
        }
        r
    }

    pub fn array(items: Vec<Json>) -> (r: Json)
        ensures
            r@ == Tree::Array(trees(items@)),
    {
        let r = Json::Array(items);
        proof {
            tree_of(r);
        }
        r
    }

    /// The object without members.
    pub fn object() -> (r: Json)
        ensures
            r@ == Tree::Object(Seq::empty()),
    {
        let r = Json::Object(Vec::new());
        proof {
            tree_of(r);
            assert(members(Seq::empty()) =~= Seq::empty());
        }
        r
    }

    /// The object with one more member at its end.
    pub fn with(self, name: &str, value: Json) -> (r: Json)
        requires
            self@ is Object,
        ensures
            r@ == Tree::Object(self@->Object_0.push((name@, value@))),
    {
        proof {
            tree_of(self);
        }
        match self {
            Json::Object(ms) => {
                let ghost before = members(ms@);
                let mut ms = ms;
                ms.push(Member { name: name.to_owned(), value });
                assert(members(ms@) =~= before.push((name@, value@)));
                let r = Json::Object(ms);
                proof {
                    tree_of(r);
                }
                r
            },
            other => other,
        }
    }

    /// The object with a text member at its end, or unchanged where there is no text.
    pub fn with_text(self, name: &str, value: &Option<String>) -> (r: Json)
        requires
            self@ is Object,
        ensures
            r@ == Tree::Object(self@->Object_0 + optional(name@, opt_tree(opt(*value)))),
    {
        proof {
            reveal(optional);
        }
        match value {
            Some(s) => {
                let r = self.with(name, Json::text(s.as_str()));
                assert(r@->Object_0 =~= self@->Object_0 + seq![(name@, Tree::Text(s@))]);
                r
            },
            None => {
                assert(self@->Object_0 + Seq::empty() =~= self@->Object_0);
                self
            },
        }
    }

    /// The object with a number member at its end, or unchanged where there is no number.
    pub fn with_float(self, name: &str, value: &Option<Number>) -> (r: Json)
        requires
            self@ is Object,
        ensures
            r@ == Tree::Object(self@->Object_0 + optional(name@, opt_float(opt_number(*value)))),
    {
        proof {
            reveal(optional);
        }
        match value {
            Some(n) => {
                let r = self.with(name, Json::float(n));
                assert(r@->Object_0 =~= self@->Object_0 + seq![(name@, Tree::Float(n@))]);
                r
            },
            None => {
                assert(self@->Object_0 + Seq::empty() =~= self@->Object_0);
                self
            },
        }
    }

    /// The object with a whole-number member at its end, or unchanged where there is none.
    pub fn with_signed(self, name: &str, value: &Option<i64>) -> (r: Json)
        requires
            self@ is Object,
        ensures
            r@ == Tree::Object(self@->Object_0 + optional(name@, opt_signed(*value))),
    {
        proof {
            reveal(optional);
        }
        match value {
            Some(n) => {
                let r = self.with(name, Json::signed(*n));
                assert(r@->Object_0 =~= self@->Object_0 + seq![(name@, Tree::Signed(*n as int))]);
                r
            },
            None => {
                assert(self@->Object_0 + Seq::empty() =~= self@->Object_0);
                self
            },
        }
    }

    /// The same value once more.
    pub fn copy(&self) -> (r: Json)
        ensures
            r@ == self@,
        decreases *self,
    {
        let r = match self {
            Json::Null => Json::Null,
            Json::Bool(b) => Json::Bool(*b),
            Json::Unsigned(n) => Json::Unsigned(*n),
            Json::Signed(n) => Json::Signed(*n),
            Json::Float(n) => Json::Float(n.clone()),
            Json::Text(s) => Json::Text(s.clone()),
            Json::Array(v) => {
                let mut items: Vec<Json> = Vec::new();
                let mut i: usize = 0;
                assert(trees(items@) =~= trees(v@).take(0));
                while i < v.len()
                    invariant
                        i <= v@.len(),
                        *self == Json::Array(*v),
                        trees(items@) == trees(v@).take(i as int),
                    decreases v@.len() - i,
                {
                    let ghost before = trees(items@);
                    proof {
                        assert(decreases_to!(*self => self->Array_0));
                        assert(decreases_to!(self->Array_0 => self->Array_0@));
                        assert(decreases_to!(self->Array_0@ => self->Array_0@[i as int]));
                    }
                    let item = v[i].copy();
                    items.push(item);
                    assert(trees(items@) =~= before.push(trees(v@)[i as int]));
                    i += 1;
                    assert(trees(items@) =~= trees(v@).take(i as int));
                }
                assert(trees(v@).take(i as int) =~= trees(v@));
                Json::Array(items)
            },
            Json::Object(v) => {
                let mut ms: Vec<Member> = Vec::new();
                let mut i: usize = 0;
                assert(members(ms@) =~= members(v@).take(0));
                while i < v.len()
                    invariant
                        i <= v@.len(),
                        *self == Json::Object(*v),
                        members(ms@) == members(v@).take(i as int),
                    decreases v@.len() - i,
                {
                    let ghost before = members(ms@);
                    proof {
                        assert(decreases_to!(*self => self->Object_0));
                        assert(decreases_to!(self->Object_0 => self->Object_0@));
                        assert(decreases_to!(self->Object_0@ => self->Object_0@[i as int]));
                        assert(decreases_to!(self->Object_0@[i as int] => self->Object_0@[i as int].value));
                    }
                    let value = v[i].value.copy();
                    ms.push(Member { name: v[i].name.clone(), value });
                    assert(members(ms@) =~= before.push(members(v@)[i as int]));
                    i += 1;
                    assert(members(ms@) =~= members(v@).take(i as int));
                }
                assert(members(v@).take(i as int) =~= members(v@));
                Json::Object(ms)
            },
        };
        proof {
            tree_of(*self);
            tree_of(r);
        }
        r
    }

    /// The first member with this name.
    pub fn get(&self, name: &str) -> (r: Option<&Json>)
        ensures
            match self@.member(name@) {
                Some(t) => r matches Some(j) && j@ == t,
                None => r is None,
            },
    {
        proof {
            tree_of(*self);
        }
        match self {
            Json::Object(ms) => {
                let mut i: usize = 0;
                assert(members(ms@).skip(0) =~= members(ms@));
                while i < ms.len()
                    invariant
                        i <= ms@.len(),
                        self@.member(name@) == first_named(members(ms@), name@),
                        first_named(members(ms@), name@) == first_named(
                            members(ms@).skip(i as int),
                            name@,
                        ),
                    decreases ms@.len() - i,
                {
                    let ghost rest = members(ms@).skip(i as int);
                    assert(rest[0] == (ms@[i as int].name@, ms@[i as int].value@));
                    if same(ms[i].name.as_str(), name) {
                        return Some(&ms[i].value);
                    }
                    assert(rest.skip(1) =~= members(ms@).skip(i + 1));
                    i += 1;
                }
                None
            },
            _ => None,
        }
    }

    /// The text of the first member with this name, if it is one.
    pub fn get_text(&self, name: &str) -> (r: Option<&str>)
        ensures
            match self@.member_text(name@) {
                Some(t) => r matches Some(s) && s@ == t,
                None => r is None,
            },
    {
        match self.get(name) {
            Some(j) => {
                proof {
                    tree_of(*j);
                }
                match j {
                    Json::Text(s) => Some(s.as_str()),
                    _ => None,
                }
            },
            None => None,
        }
    }

    /// The unsigned whole number in the first member with this name, if it is one.
    pub fn get_unsigned(&self, name: &str) -> (r: Option<u64>)
        ensures
            match self@.member_unsigned(name@) {
                Some(n) => r matches Some(k) && k == n,
                None => r is None,
            },
    {
        match self.get(name) {
            Some(j) => {
                proof {
                    tree_of(*j);
                }
                match j {
                    Json::Unsigned(n) => Some(*n),
                    _ => None,
                }
            },
            None => None,
        }
    }

    /// The number, of any form, in the first member with this name.
    pub fn get_number(&self, name: &str) -> (r: Option<Number>)
        ensures
            match self@.member_number(name@) {
                Some(t) => r matches Some(n) && n@ == t,
                None => r is None,
            },
    {
        match self.get(name) {
            Some(j) => {
                proof {
                    tree_of(*j);
                }
                match j {
                    Json::Unsigned(n) => Some(Number::whole(*n, false)),
                    Json::Signed(n) => {
                        if *n < 0 {
                            Some(Number::whole((-(*n + 1)) as u64 + 1, true))
                        } else {
                            Some(Number::whole(*n as u64, false))
                        }
                    },
                    Json::Float(n) => Some(n.clone()),
                    _ => None,
                }
            },
            None => None,
        }
    }
}

/// The text as a value, if there is one.
pub open spec fn opt_tree(s: Option<Seq<char>>) -> Option<Tree> {
    match s {
        Some(t) => Some(Tree::Text(t)),
        None => None,
    }
}

/// The number as a value, if there is one.
pub open spec fn opt_float(n: Option<Seq<char>>) -> Option<Tree> {
    match n {
        Some(t) => Some(Tree::Float(t)),
        None => None,
    }
}

/// The whole number as a value, if there is one.
pub open spec fn opt_signed(n: Option<i64>) -> Option<Tree> {
    match n {
        Some(k) => Some(Tree::Signed(k as int)),
        None => None,
    }
}

/// One member, or none where there is no value for it.
#[verifier::opaque]
pub open spec fn optional(name: Seq<char>, value: Option<Tree>) -> Seq<(Seq<char>, Tree)> {
    match value {
        Some(t) => seq![(name, t)],
        None => Seq::empty(),
    }
}

} // verus!
