//! JSON values that the library reads, as plain data.
//!
//! Parsing is done by serde_json. Its values are taken apart here into [`Json`], on which the
//! rest of the library works.
use crate::text;
use crate::text::same_text;
use vstd::prelude::*;
use vstd::string::*;

verus! {

/// A JSON value. Of a number only the value of a non-negative integer of 64 bits is kept.
#[derive(Debug)]
pub enum Json {
    Null,
    Bool(bool),
    Number(Option<u64>),
    Text(String),
    Array(Vec<Json>),
    Object(Vec<(String, Json)>),
}

/// A JSON value, over sequences. The members of an object stand in the order in which the
/// parser hands them out.
pub enum JsonView {
    Null,
    Bool(bool),
    Number(Option<u64>),
    Text(Seq<char>),
    Array(Seq<JsonView>),
    Object(Seq<(Seq<char>, JsonView)>),
}

/// The value that `j` holds.
pub open spec fn json_view(j: Json) -> JsonView
    decreases j,
{
    match j {
        Json::Null => JsonView::Null,
        Json::Bool(b) => JsonView::Bool(b),
        Json::Number(n) => JsonView::Number(n),
        Json::Text(s) => JsonView::Text(s@),
        Json::Array(items) => JsonView::Array(
            Seq::new(
                items@.len(),
                |i: int|
                    if 0 <= i < items@.len() {
                        json_view(items@[i])
                    } else {
                        JsonView::Null
                    },
            ),
        ),
        Json::Object(members) => JsonView::Object(
            Seq::new(
                members@.len(),
                |i: int|
                    if 0 <= i < members@.len() {
                        (members@[i].0@, json_view(members@[i].1))
                    } else {
                        (seq![], JsonView::Null)
                    },
            ),
        ),
    }
}

impl View for Json {
    type V = JsonView;

    open spec fn view(&self) -> JsonView {
        json_view(*self)
    }
}

#[verifier::external_type_specification]
#[verifier::external_body]
pub struct ExValue(serde_json::Value);

/// What a serde_json value holds.
pub uninterp spec fn json_of(v: serde_json::Value) -> JsonView;

/// What `serde_json::from_str` reads out of a text; `None` where it reports an error.
pub uninterp spec fn json_in(text: Seq<char>) -> Option<JsonView>;

/// The outermost layer of a serde_json value.
pub enum JsonLayer {
    Null,
    Bool(bool),
    Number(Option<u64>),
    Text(String),
    Array(Vec<serde_json::Value>),
    Object(Vec<(String, serde_json::Value)>),
}

/// The value that a layer stands for.
pub open spec fn layer_view(layer: JsonLayer) -> JsonView {
    match layer {
        JsonLayer::Null => JsonView::Null,
        JsonLayer::Bool(b) => JsonView::Bool(b),
        JsonLayer::Number(n) => JsonView::Number(n),
        JsonLayer::Text(s) => JsonView::Text(s@),
        JsonLayer::Array(items) => JsonView::Array(
            items@.map_values(|v: serde_json::Value| json_of(v)),
        ),
        JsonLayer::Object(members) => JsonView::Object(
            members@.map_values(|m: (String, serde_json::Value)| (m.0@, json_of(m.1))),
        ),
    }
}

/// `serde_json::from_str` into a `serde_json::Value`: the value in the text, or `None` where
/// the text is no JSON document. What a given text holds is left to serde_json.
#[verifier::external_body]
fn parse_value(text: &str) -> (r: Option<serde_json::Value>)
    ensures
        match r {
            Some(v) => json_in(text@) == Some(json_of(v)),
            None => json_in(text@) is None,
        },
{
    serde_json::from_str(text).ok()
}

/// The variants of `serde_json::Value` told apart; a number by `serde_json::Number::as_u64`,
/// an object as the list of its members.
#[verifier::external_body]
fn open_value(v: serde_json::Value) -> (layer: JsonLayer)
    ensures
        layer_view(layer) == json_of(v),
{
    match v {
        serde_json::Value::Null => JsonLayer::Null,
        serde_json::Value::Bool(b) => JsonLayer::Bool(b),
        serde_json::Value::Number(n) => JsonLayer::Number(n.as_u64()),
        serde_json::Value::String(s) => JsonLayer::Text(s),
        serde_json::Value::Array(items) => JsonLayer::Array(items),
        serde_json::Value::Object(members) => JsonLayer::Object(members.into_iter().collect()),
    }
}

/// Takes a serde_json value apart, all the way down.
fn json_from_value(v: serde_json::Value) -> (j: Json)
    ensures
        j@ == json_of(v),
    decreases json_of(v),
{
    let ghost whole = json_of(v);
    match open_value(v) {
        JsonLayer::Null => Json::Null,
        JsonLayer::Bool(b) => Json::Bool(b),
        JsonLayer::Number(n) => Json::Number(n),
        JsonLayer::Text(s) => Json::Text(s),
        JsonLayer::Array(items) => {
            let ghost values = items@;
            let mut out: Vec<Json> = Vec::new();
            for item in it: items
                invariant
                    it.seq() == values,
                    whole == json_of(v),
                    whole == JsonView::Array(values.map_values(|x: serde_json::Value| json_of(x))),
                    out@.len() == it.index(),
                    forall|k: int| 0 <= k < it.index() ==> (#[trigger] out@[k])@ == json_of(values[k]),
            {
                proof {
                    let model = values.map_values(|x: serde_json::Value| json_of(x));
                    assert(model[it.index() as int] == json_of(item));
                    assert(decreases_to!(whole => whole->Array_0));
                    assert(decreases_to!(whole->Array_0 => whole->Array_0[it.index() as int]));
                }
                out.push(json_from_value(item));
            }
            let j = Json::Array(out);
            proof {
                assert(j@->Array_0 =~= values.map_values(|x: serde_json::Value| json_of(x)));
            }
            j
        },
        JsonLayer::Object(members) => {
            let ghost values = members@;
            let mut out: Vec<(String, Json)> = Vec::new();
            for member in it: members
                invariant
                    it.seq() == values,
                    whole == json_of(v),
                    whole == JsonView::Object(
                        values.map_values(|m: (String, serde_json::Value)| (m.0@, json_of(m.1))),
                    ),
                    out@.len() == it.index(),
                    forall|k: int|
                        0 <= k < it.index() ==> (#[trigger] out@[k]).0@ == values[k].0@
                            && out@[k].1@ == json_of(values[k].1),
            {
                proof {
                    let model = values.map_values(
                        |m: (String, serde_json::Value)| (m.0@, json_of(m.1)),
                    );
                    assert(model[it.index() as int] == (member.0@, json_of(member.1)));
                    assert(decreases_to!(whole => whole->Object_0));
                    assert(decreases_to!(whole->Object_0 => whole->Object_0[it.index() as int]));
                    assert(decreases_to!(model[it.index() as int] => model[it.index() as int].1));
                }
                let (name, value) = member;
                out.push((name, json_from_value(value)));
            }
            let j = Json::Object(out);
            proof {
                assert(j@->Object_0 =~= values.map_values(
                    |m: (String, serde_json::Value)| (m.0@, json_of(m.1)),
                ));
            }
            j
        },
    }
}

/// The JSON value in a text, or `None` where the text is no JSON document.
pub fn parse(text: &str) -> (r: Option<Json>)
    ensures
        match r {
            Some(j) => json_in(text@) == Some(j@),
            None => json_in(text@) is None,
        },
{
    match parse_value(text) {
        Some(v) => Some(json_from_value(v)),
        None => None,
    }
}

/// The first member named `key`.
pub open spec fn find_member(members: Seq<(Seq<char>, JsonView)>, key: Seq<char>) -> Option<JsonView>
    decreases members.len(),
{
    if members.len() == 0 {
        None
    } else if members[0].0 == key {
        Some(members[0].1)
    } else {
        find_member(members.skip(1), key)
    }
}

impl JsonView {
    /// The member `key` of an object.
    pub open spec fn member(self, key: Seq<char>) -> Option<JsonView> {
        match self {
            JsonView::Object(members) => find_member(members, key),
            _ => None,
        }
    }

    /// The characters of a text.
    pub open spec fn text(self) -> Option<Seq<char>> {
        match self {
            JsonView::Text(s) => Some(s),
            _ => None,
        }
    }

    /// The value of a non-negative integer.
    pub open spec fn uint(self) -> Option<u64> {
        match self {
            JsonView::Number(n) => n,
            _ => None,
        }
    }

    /// The text of the member `key` of an object.
    pub open spec fn text_member(self, key: Seq<char>) -> Option<Seq<char>> {
        match self.member(key) {
            Some(v) => v.text(),
            None => None,
        }
    }

    /// The non-negative integer that the member `key` of an object holds.
    pub open spec fn uint_member(self, key: Seq<char>) -> Option<u64> {
        match self.member(key) {
            Some(v) => v.uint(),
            None => None,
        }
    }
}

impl Json {
    /// The member `key` of an object; `None` if there is none, or if this is no object.
    pub fn member(&self, key: &str) -> (r: Option<&Json>)
        ensures
            match r {
                Some(j) => self@.member(key@) == Some(j@),
                None => self@.member(key@) is None,
            },
    {
        match self {
            Json::Object(members) => {
                let ghost model = self@->Object_0;
                let mut i: usize = 0;
                proof {
                    assert(model.skip(0) =~= model);
                }
                while i < members.len()
                    invariant
                        i <= members.len(),
                        self@ == JsonView::Object(model),
                        model.len() == members@.len(),
                        forall|k: int|
                            0 <= k < model.len() ==> #[trigger] model[k] == (
                                members@[k].0@,
                                members@[k].1@,
                            ),
                        find_member(model.skip(i as int), key@) == find_member(model, key@),
                    decreases members.len() - i,
                {
                    proof {
                        assert(model.skip(i as int)[0] == model[i as int]);
                        assert(model.skip(i as int).skip(1) =~= model.skip(i + 1));
                    }
                    if same_text(members[i].0.as_str(), key) {
                        return Some(&members[i].1);
                    }
                    i = i + 1;
                }
                None
            },
            _ => None,
        }
    }

    /// The text of the member `key` of an object.
    pub fn text_member(&self, key: &str) -> (r: Option<&String>)
        ensures
            match r {
                Some(s) => self@.text_member(key@) == Some(s@),
                None => self@.text_member(key@) is None,
            },
    {
        match self.member(key) {
            Some(Json::Text(s)) => Some(s),
            _ => None,
        }
    }

    /// The non-negative integer that the member `key` of an object holds.
    pub fn uint_member(&self, key: &str) -> (r: Option<u64>)
        ensures
            r == self@.uint_member(key@),
    {
        match self.member(key) {
            Some(Json::Number(n)) => *n,
            _ => None,
        }
    }
}

/// The members of an object, over sequences.
pub open spec fn member_views(members: Seq<(String, Json)>) -> Seq<(Seq<char>, JsonView)> {
    members.map_values(|m: (String, Json)| (m.0@, m.1@))
}

/// An object with the given members.
pub fn object(members: Vec<(String, Json)>) -> (j: Json)
    ensures
        j@ == JsonView::Object(member_views(members@)),
{
    let j = Json::Object(members);
    assert(j@->Object_0 =~= member_views(members@));
    j
}

/// Whether `order` lists every number below `n`, each once.
pub open spec fn is_order(order: Seq<int>, n: nat) -> bool {
    &&& order.len() == n
    &&& forall|i: int| 0 <= i < n ==> 0 <= #[trigger] order[i] < n
    &&& forall|j: int| 0 <= j < n ==> order.contains(j)
}

/// Whether no two members have the same key.
pub open spec fn distinct_keys(members: Seq<(Seq<char>, JsonView)>) -> bool {
    forall|i: int, j: int|
        0 <= i < j < members.len() ==> (#[trigger] members[i]).0 != (#[trigger] members[j]).0
}

/// Whether `b` holds what `a` holds, up to the order of the members of objects.
pub open spec fn agrees(a: JsonView, b: JsonView) -> bool
    decreases a,
{
    match a {
        JsonView::Array(x) => b is Array && x.len() == b->Array_0.len() && forall|i: int|
            #![trigger b->Array_0[i]]
            0 <= i < x.len() ==> agrees(x[i], b->Array_0[i]),
        JsonView::Object(x) => b is Object && x.len() == b->Object_0.len() && exists|
            order: Seq<int>,
        | #[trigger]
            is_order(order, x.len()) && forall|i: int|
                #![trigger order[i]]
                0 <= i < x.len() ==> x[i].0 == b->Object_0[order[i]].0 && agrees(
                    x[i].1,
                    b->Object_0[order[i]].1,
                ),
        _ => a == b,
    }
}

/// Whether all of a value can be written: its numbers are known, and no object has two members of
/// one name.
pub open spec fn writable(v: JsonView) -> bool
    decreases v,
{
    match v {
        JsonView::Number(n) => n is Some,
        JsonView::Array(x) => forall|i: int| 0 <= i < x.len() ==> writable(#[trigger] x[i]),
        JsonView::Object(x) => distinct_keys(x) && forall|i: int|
            #![trigger x[i]]
            0 <= i < x.len() ==> writable(x[i].1),
        _ => true,
    }
}

/// Whether arrays and objects stand in each other at most `depth` deep.
pub open spec fn nests_within(v: JsonView, depth: nat) -> bool
    decreases v,
{
    match v {
        JsonView::Array(x) => depth > 0 && forall|i: int|
            0 <= i < x.len() ==> nests_within(#[trigger] x[i], (depth - 1) as nat),
        JsonView::Object(x) => depth > 0 && forall|i: int|
            #![trigger x[i]]
            0 <= i < x.len() ==> nests_within(x[i].1, (depth - 1) as nat),
        _ => true,
    }
}

proof fn lemma_agreeing_nests_within(a: JsonView, b: JsonView, depth: nat)
    requires
        agrees(a, b),
        nests_within(a, depth),
    ensures
        nests_within(b, depth),
    decreases a,
{
    match a {
        JsonView::Array(x) => {
            let y = b->Array_0;
            assert forall|i: int| 0 <= i < y.len() implies nests_within(
                #[trigger] y[i],
                (depth - 1) as nat,
            ) by {
                assert(nests_within(x[i], (depth - 1) as nat));
                lemma_agreeing_nests_within(x[i], y[i], (depth - 1) as nat);
            }
        },
        JsonView::Object(x) => {
            let y = b->Object_0;
            let order = choose|order: Seq<int>| #[trigger]
                is_order(order, x.len()) && forall|i: int|
                    #![trigger order[i]]
                    0 <= i < x.len() ==> x[i].0 == y[order[i]].0 && agrees(
                        x[i].1,
                        y[order[i]].1,
                    );
            assert forall|j: int|
                #![trigger y[j]]
                0 <= j < y.len() implies nests_within(y[j].1, (depth - 1) as nat) by {
                assert(order.contains(j));
                let i = choose|i: int| 0 <= i < order.len() && order[i] == j;
                assert(order[i] == j);
                assert(nests_within(x[i].1, (depth - 1) as nat));
                assert(decreases_to!(x[i] => x[i].1));
                lemma_agreeing_nests_within(x[i].1, y[j].1, (depth - 1) as nat);
            }
        },
        _ => {},
    }
}

/// What a layer becomes as a serde_json value: itself, with the members of an object in some
/// order.
pub open spec fn layer_made(layer: JsonLayer, v: JsonView) -> bool {
    match layer {
        JsonLayer::Object(members) => {
            let x = layer_view(layer)->Object_0;
            distinct_keys(x) ==> v is Object && v->Object_0.len() == x.len() && exists|
                order: Seq<int>,
            | #[trigger]
                is_order(order, x.len()) && forall|i: int|
                    #![trigger order[i]]
                    0 <= i < x.len() ==> x[i] == v->Object_0[order[i]]
        },
        JsonLayer::Number(None) => v is Null,
        _ => v == layer_view(layer),
    }
}

/// The variants of `serde_json::Value`, each made from what it holds; an object by
/// `serde_json::Map::from_iter`, whose order is left to serde_json. Of members with the same key
/// nothing is said.
#[verifier::external_body]
fn make_value(layer: JsonLayer) -> (v: serde_json::Value)
    ensures
        layer_made(layer, json_of(v)),
{
    match layer {
        JsonLayer::Null => serde_json::Value::Null,
        JsonLayer::Bool(b) => serde_json::Value::Bool(b),
        JsonLayer::Number(n) => serde_json::Value::from(n),
        JsonLayer::Text(s) => serde_json::Value::String(s),
        JsonLayer::Array(items) => serde_json::Value::Array(items),
        JsonLayer::Object(members) => serde_json::Value::Object(members.into_iter().collect()),
    }
}

/// `serde_json::to_string` of a value. It does not fail on one, and `serde_json::from_str`, which
/// takes values that nest less than 128 deep, reads the value back. How the value is spelled is
/// left to serde_json.
#[verifier::external_body]
fn value_to_string(v: &serde_json::Value) -> (s: String)
    ensures
        nests_within(json_of(*v), 100) ==> json_in(s@) == Some(json_of(*v)),
{
    serde_json::to_string(v).unwrap_or_default()
}

/// The serde_json value for a JSON value.
fn value_from_json(j: &Json) -> (v: serde_json::Value)
    ensures
        writable(j@) ==> agrees(j@, json_of(v)),
    decreases j,
{
    match j {
        Json::Null => make_value(JsonLayer::Null),
        Json::Bool(b) => make_value(JsonLayer::Bool(*b)),
        Json::Number(n) => make_value(JsonLayer::Number(*n)),
        Json::Text(s) => make_value(JsonLayer::Text(s.clone())),
        Json::Array(items) => {
            let mut out: Vec<serde_json::Value> = Vec::new();
            let mut i: usize = 0;
            while i < items.len()
                invariant
                    i <= items@.len(),
                    j == Json::Array(*items),
                    out@.len() == i,
                    forall|k: int|
                        0 <= k < i ==> writable(items@[k]@) ==> agrees(
                            items@[k]@,
                            json_of(#[trigger] out@[k]),
                        ),
                decreases items.len() - i,
            {
                proof {
                    assert(decreases_to!(j => j->Array_0));
                    assert(decreases_to!(j->Array_0 => j->Array_0@));
                    assert(decreases_to!(j->Array_0@ => j->Array_0@[i as int]));
                }
                out.push(value_from_json(&items[i]));
                i += 1;
            }
            let layer = JsonLayer::Array(out);
            let v = make_value(layer);
            proof {
                let x = j@->Array_0;
                let y = layer_view(layer)->Array_0;
                if writable(j@) {
                    assert forall|k: int| #![trigger y[k]] 0 <= k < x.len() implies agrees(
                        x[k],
                        y[k],
                    ) by {
                        assert(writable(x[k]));
                        assert(y[k] == json_of(out@[k]));
                    }
                }
            }
            v
        },
        Json::Object(members) => {
            let mut out: Vec<(String, serde_json::Value)> = Vec::new();
            let mut i: usize = 0;
            while i < members.len()
                invariant
                    i <= members@.len(),
                    j == Json::Object(*members),
                    out@.len() == i,
                    forall|k: int|
                        #![trigger out@[k]]
                        0 <= k < i ==> out@[k].0@ == members@[k].0@ && (writable(members@[k].1@)
                            ==> agrees(members@[k].1@, json_of(out@[k].1))),
                decreases members.len() - i,
            {
                proof {
                    assert(decreases_to!(j => j->Object_0));
                    assert(decreases_to!(j->Object_0 => j->Object_0@));
                    assert(decreases_to!(j->Object_0@ => j->Object_0@[i as int]));
                    assert(decreases_to!(members@[i as int] => members@[i as int].1));
                }
                let value = value_from_json(&members[i].1);
                out.push((members[i].0.clone(), value));
                i += 1;
            }
            let layer = JsonLayer::Object(out);
            let v = make_value(layer);
            proof {
                let x = j@->Object_0;
                let y = layer_view(layer)->Object_0;
                assert forall|k: int| 0 <= k < x.len() implies y[k].0 == (#[trigger] x[k]).0 by {
                    assert(y[k] == (out@[k].0@, json_of(out@[k].1)));
                }
                if writable(j@) {
                    let z = json_of(v)->Object_0;
                    assert(distinct_keys(y)) by {
                        assert forall|a: int, b: int| 0 <= a < b < y.len() implies (
                        #[trigger] y[a]).0 != (#[trigger] y[b]).0 by {
                            assert(x[a].0 != x[b].0);
                        }
                    }
                    let order = choose|order: Seq<int>| #[trigger]
                        is_order(order, y.len()) && forall|k: int|
                            #![trigger order[k]]
                            0 <= k < y.len() ==> y[k] == z[order[k]];
                    assert(is_order(order, x.len()));
                    assert forall|k: int| #![trigger order[k]] 0 <= k < x.len() implies x[k].0
                        == z[order[k]].0 && agrees(x[k].1, z[order[k]].1) by {
                        assert(y[k] == (out@[k].0@, json_of(out@[k].1)));
                        assert(writable(x[k].1));
                    }
                }
            }
            v
        },
    }
}

/// A JSON value as a text. A value that can be written, and does not nest too deeply, is read back
/// from it, up to the order of the members of objects.
pub fn to_text(j: &Json) -> (s: String)
    ensures
        writable(j@) && nests_within(j@, 100) ==> json_in(s@) is Some && agrees(
            j@,
            json_in(s@)->0,
        ),
{
    let v = value_from_json(j);
    proof {
        if writable(j@) && nests_within(j@, 100) {
            lemma_agreeing_nests_within(j@, json_of(v), 100);
        }
    }
    value_to_string(&v)
}

/// A member is found by its name where no two members have the same.
pub proof fn lemma_member_found(members: Seq<(Seq<char>, JsonView)>, k: int)
    requires
        distinct_keys(members),
        0 <= k < members.len(),
    ensures
        find_member(members, members[k].0) == Some(members[k].1),
    decreases k,
{
    if k > 0 {
        let rest = members.skip(1);
        assert(members[0].0 != members[k].0);
        assert(rest[k - 1] == members[k]);
        assert forall|i: int, j: int| 0 <= i < j < rest.len() implies (#[trigger] rest[i]).0 != (
        #[trigger] rest[j]).0 by {
            assert(members[i + 1].0 != members[j + 1].0);
        }
        lemma_member_found(rest, k - 1);
    }
}

/// A name that no member has is not found.
pub proof fn lemma_member_missing(members: Seq<(Seq<char>, JsonView)>, key: Seq<char>)
    requires
        forall|k: int| 0 <= k < members.len() ==> (#[trigger] members[k]).0 != key,
    ensures
        find_member(members, key) is None,
    decreases members.len(),
{
    if members.len() > 0 {
        let rest = members.skip(1);
        assert forall|k: int| 0 <= k < rest.len() implies (#[trigger] rest[k]).0 != key by {
            assert(rest[k] == members[k + 1]);
        }
        lemma_member_missing(rest, key);
    }
}

/// Pairs of texts as a JSON value: an array of arrays of two texts.
pub open spec fn pairs_value(pairs: Seq<(Seq<char>, Seq<char>)>) -> JsonView {
    JsonView::Array(
        pairs.map_values(
            |p: (Seq<char>, Seq<char>)|
                JsonView::Array(seq![JsonView::Text(p.0), JsonView::Text(p.1)]),
        ),
    )
}

/// Whether a value is an array of two texts.
pub open spec fn is_pair(v: JsonView) -> bool {
    v is Array && v->Array_0.len() == 2 && v->Array_0[0] is Text && v->Array_0[1] is Text
}

/// The pairs of texts that a value holds; `None` where it is no array of arrays of two texts.
pub open spec fn value_pairs(v: JsonView) -> Option<Seq<(Seq<char>, Seq<char>)>> {
    match v {
        JsonView::Array(items) => if forall|i: int|
            0 <= i < items.len() ==> is_pair(#[trigger] items[i]) {
            Some(
                items.map_values(
                    |p: JsonView| (p->Array_0[0]->Text_0, p->Array_0[1]->Text_0),
                ),
            )
        } else {
            None
        },
        _ => None,
    }
}

/// The pairs of texts that are read out of a JSON text.
pub open spec fn pairs_in(text: Seq<char>) -> Option<Seq<(Seq<char>, Seq<char>)>> {
    match json_in(text) {
        Some(v) => value_pairs(v),
        None => None,
    }
}

/// Pairs of texts, written as a value, are read back.
pub proof fn pairs_are_read_back(pairs: Seq<(Seq<char>, Seq<char>)>)
    ensures
        value_pairs(pairs_value(pairs)) == Some(pairs),
{
    let items = pairs_value(pairs)->Array_0;
    assert forall|i: int| 0 <= i < items.len() implies is_pair(#[trigger] items[i]) by {
        assert(items[i]->Array_0 =~= seq![JsonView::Text(pairs[i].0), JsonView::Text(pairs[i].1)]);
    }
    assert(value_pairs(pairs_value(pairs))->0 =~= pairs);
}

/// What `serde_json::to_string` writes for a list of pairs of texts.
pub uninterp spec fn pairs_json(pairs: Seq<(Seq<char>, Seq<char>)>) -> Seq<char>;

/// `serde_json::to_string` of pairs of texts. It does not fail on them, and `serde_json::from_str`
/// reads what it writes as an array of arrays of two texts. Which of the spellings that JSON has
/// for a text is written is left to serde_json.
#[verifier::external_body]
fn pairs_to_string(pairs: &[(String, String)]) -> (s: String)
    ensures
        s@ == pairs_json(text::pair_texts(pairs@)),
        json_in(s@) == Some(pairs_value(text::pair_texts(pairs@))),
{
    serde_json::to_string(pairs).unwrap_or_default()
}

/// Pairs of texts, written as JSON.
pub fn write_pairs(pairs: &[(String, String)]) -> (s: String)
    ensures
        s@ == pairs_json(text::pair_texts(pairs@)),
        pairs_in(s@) == Some(text::pair_texts(pairs@)),
{
    proof {
        pairs_are_read_back(text::pair_texts(pairs@));
    }
    pairs_to_string(pairs)
}

/// The pair of texts that a value holds.
fn pair_from(j: &Json) -> (r: Option<(String, String)>)
    ensures
        match r {
            Some(p) => is_pair(j@) && (p.0@, p.1@) == (
                j@->Array_0[0]->Text_0,
                j@->Array_0[1]->Text_0,
            ),
            None => !is_pair(j@),
        },
{
    match j {
        Json::Array(items) => {
            proof {
                assert(j@->Array_0.len() == items@.len());
                assert(items@.len() > 0 ==> j@->Array_0[0] == items@[0]@);
                assert(items@.len() > 1 ==> j@->Array_0[1] == items@[1]@);
            }
            if items.len() != 2 {
                return None;
            }
            match (&items[0], &items[1]) {
                (Json::Text(a), Json::Text(b)) => Some((a.clone(), b.clone())),
                _ => None,
            }
        },
        _ => None,
    }
}

/// The pairs of texts in a JSON text; `None` where it is not an array of arrays of two texts.
pub fn read_pairs(text: &str) -> (r: Option<Vec<(String, String)>>)
    ensures
        match r {
            Some(pairs) => pairs_in(text@) == Some(text::pair_texts(pairs@)),
            None => pairs_in(text@) is None,
        },
{
    let value = match parse(text) {
        Some(value) => value,
        None => return None,
    };
    match &value {
        Json::Array(items) => {
            let ghost model = value@->Array_0;
            let mut pairs: Vec<(String, String)> = Vec::new();
            let mut i: usize = 0;
            while i < items.len()
                invariant
                    i <= items@.len(),
                    value@ == JsonView::Array(model),
                    model.len() == items@.len(),
                    forall|k: int| 0 <= k < model.len() ==> #[trigger] model[k] == items@[k]@,
                    pairs@.len() == i,
                    forall|k: int|
                        0 <= k < i ==> is_pair(#[trigger] model[k]) && (
                            pairs@[k].0@,
                            pairs@[k].1@,
                        ) == (model[k]->Array_0[0]->Text_0, model[k]->Array_0[1]->Text_0),
                    json_in(text@) == Some(value@),
                decreases items.len() - i,
            {
                proof {
                    assert(model[i as int] == items@[i as int]@);
                }
                match pair_from(&items[i]) {
                    Some(pair) => pairs.push(pair),
                    None => return None,
                }
                i += 1;
            }
            proof {
                assert(value_pairs(value@)->0 =~= text::pair_texts(pairs@));
            }
            Some(pairs)
        },
        _ => None,
    }
}

/// A member that holds a text.
pub fn text_entry(key: &str, value: &str) -> (m: (String, Json))
    ensures
        m.0@ == key@,
        m.1@ == JsonView::Text(value@),
{
    (key.to_owned(), Json::Text(value.to_owned()))
}

/// A member that holds a truth value.
pub fn bool_entry(key: &str, value: bool) -> (m: (String, Json))
    ensures
        m.0@ == key@,
        m.1@ == JsonView::Bool(value),
{
    (key.to_owned(), Json::Bool(value))
}

/// A member that holds a number.
pub fn uint_entry(key: &str, value: u64) -> (m: (String, Json))
    ensures
        m.0@ == key@,
        m.1@ == JsonView::Number(Some(value)),
{
    (key.to_owned(), Json::Number(Some(value)))
}

} // verus!
