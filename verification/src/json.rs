//! JSON values as the library reads and writes them. Parsing and printing are
//! serde_json's; what is read out of a value is stated over [`JsonModel`].

use crate::text;
use vstd::prelude::*;

verus! {

#[verifier::external_type_specification]
#[verifier::external_body]
pub struct ExValue(serde_json::Value);

#[verifier::external_type_specification]
#[verifier::external_body]
pub struct ExNumber(serde_json::Number);

/// A JSON number, as each kind of number that it can be read as.
#[derive(Debug, Clone, Copy, PartialEq, Eq, Structural)]
pub struct NumberParts {
    pub unsigned: Option<u64>,
    pub signed: Option<i64>,
    /// The bit pattern of the floating-point number.
    pub double: Option<u64>,
}

/// A JSON value. The members of an object stand in the order of their keys.
pub ghost enum JsonModel {
    Null,
    Bool(bool),
    Number(NumberParts),
    Text(Seq<char>),
    List(Seq<JsonModel>),
    Object(Seq<(Seq<char>, JsonModel)>),
}

/// A JSON value.
#[derive(Debug)]
pub enum Json {
    Null,
    Bool(bool),
    Number(serde_json::Number),
    Text(String),
    List(Vec<Json>),
    Object(Vec<(String, Json)>),
}

/// One level of a JSON value.
enum Node {
    Null,
    Bool(bool),
    Number(serde_json::Number),
    Text(String),
    List(Vec<serde_json::Value>),
    Object(Vec<(String, serde_json::Value)>),
}

/// What a serde_json value holds.
pub uninterp spec fn json_contents(v: serde_json::Value) -> JsonModel;

/// What a serde_json number holds.
pub uninterp spec fn number_parts(n: serde_json::Number) -> NumberParts;

/// What a text says as JSON, or what is wrong with it.
pub uninterp spec fn json_parsed(s: Seq<char>) -> std::result::Result<JsonModel, Seq<char>>;

/// The compact text of a JSON value.
pub uninterp spec fn json_text(m: JsonModel) -> Seq<char>;

/// The order of keys: character by character.
pub open spec fn key_before(a: Seq<char>, b: Seq<char>) -> bool
    decreases b.len(),
{
    if b.len() == 0 {
        false
    } else if a.len() == 0 {
        true
    } else if a[0] != b[0] {
        a[0] < b[0]
    } else {
        key_before(a.subrange(1, a.len() as int), b.subrange(1, b.len() as int))
    }
}

/// The keys come in order, so none occurs twice.
pub open spec fn keys_ordered<T>(members: Seq<(Seq<char>, T)>) -> bool {
    forall|i: int, j: int|
        0 <= i < j < members.len() ==> key_before(
            (#[trigger] members[i]).0,
            (#[trigger] members[j]).0,
        )
}

/// Every object in the value has its keys in order.
pub open spec fn ordered(m: JsonModel) -> bool
    decreases m,
{
    match m {
        JsonModel::List(items) => forall|i: int| 0 <= i < items.len() ==> ordered(#[trigger] items[i]),
        JsonModel::Object(members) => keys_ordered(members) && forall|i: int|
            0 <= i < members.len() ==> ordered((#[trigger] members[i]).1),
        _ => true,
    }
}

/// What a [`Json`] holds.
pub open spec fn model(j: Json) -> JsonModel
    decreases j,
{
    match j {
        Json::Null => JsonModel::Null,
        Json::Bool(b) => JsonModel::Bool(b),
        Json::Number(n) => JsonModel::Number(number_parts(n)),
        Json::Text(s) => JsonModel::Text(s@),
        Json::List(items) => JsonModel::List(
            Seq::new(
                items@.len(),
                |i: int|
                    if 0 <= i < items@.len() {
                        model(items@[i])
                    } else {
                        JsonModel::Null
                    },
            ),
        ),
        Json::Object(members) => JsonModel::Object(
            Seq::new(
                members@.len(),
                |i: int|
                    if 0 <= i < members@.len() {
                        (members@[i].0@, model(members@[i].1))
                    } else {
                        (Seq::empty(), JsonModel::Null)
                    },
            ),
        ),
    }
}

impl View for Json {
    type V = JsonModel;

    open spec fn view(&self) -> JsonModel {
        model(*self)
    }
}

/// What one level of a value says of the whole.
closed spec fn node_model(n: Node) -> JsonModel {
    match n {
        Node::Null => JsonModel::Null,
        Node::Bool(b) => JsonModel::Bool(b),
        Node::Number(n) => JsonModel::Number(number_parts(n)),
        Node::Text(s) => JsonModel::Text(s@),
        Node::List(items) => JsonModel::List(
            items@.map_values(|v: serde_json::Value| json_contents(v)),
        ),
        Node::Object(members) => JsonModel::Object(
            members@.map_values(|m: (String, serde_json::Value)| (m.0@, json_contents(m.1))),
        ),
    }
}

/// The members of an object node have their keys in order.
closed spec fn node_ordered(n: Node) -> bool {
    match n {
        Node::Object(members) => keys_ordered(
            members@.map_values(|m: (String, serde_json::Value)| (m.0@, json_contents(m.1))),
        ),
        _ => true,
    }
}

/// `serde_json::from_str`, with the error as its message. What it returns depends on
/// the text alone; the grammar is JSON's and is left unstated.
#[verifier::external_body]
fn parse_value(s: &str) -> (r: std::result::Result<serde_json::Value, String>)
    ensures
        match r {
            Ok(v) => json_parsed(s@) == Ok::<JsonModel, Seq<char>>(json_contents(v)),
            Err(m) => json_parsed(s@) == Err::<JsonModel, Seq<char>>(m@),
        },
{
    serde_json::from_str(s).map_err(|e: serde_json::Error| e.to_string())
}

/// The list that a text says as JSON, or what is wrong with it.
pub uninterp spec fn json_list_parsed(s: Seq<char>) -> std::result::Result<
    Seq<JsonModel>,
    Seq<char>,
>;

/// `serde_json::from_str` into a list of values, with the error as its message. What
/// it returns depends on the text alone; it also complains of JSON that is no list.
#[verifier::external_body]
fn parse_values(s: &str) -> (r: std::result::Result<Vec<serde_json::Value>, String>)
    ensures
        match r {
            Ok(v) => json_list_parsed(s@) == Ok::<Seq<JsonModel>, Seq<char>>(
                v@.map_values(|v: serde_json::Value| json_contents(v)),
            ),
            Err(m) => json_list_parsed(s@) == Err::<Seq<JsonModel>, Seq<char>>(m@),
        },
{
    serde_json::from_str(s).map_err(|e: serde_json::Error| e.to_string())
}

/// The variant of a `serde_json::Value` with its fields. Objects are held in a
/// `BTreeMap`, which hands its entries out in the order of the keys.
#[verifier::external_body]
fn node_of(v: serde_json::Value) -> (r: Node)
    ensures
        node_model(r) == json_contents(v),
        node_ordered(r),
{
    match v {
        serde_json::Value::Null => Node::Null,
        serde_json::Value::Bool(b) => Node::Bool(b),
        serde_json::Value::Number(n) => Node::Number(n),
        serde_json::Value::String(s) => Node::Text(s),
        serde_json::Value::Array(a) => Node::List(a),
        serde_json::Value::Object(m) => Node::Object(m.into_iter().collect()),
    }
}

/// The `serde_json::Value` with the given variant and fields. Keys that come in order
/// are kept as they are.
#[verifier::external_body]
fn value_of(n: Node) -> (r: serde_json::Value)
    requires
        node_ordered(n),
    ensures
        json_contents(r) == node_model(n),
{
    match n {
        Node::Null => serde_json::Value::Null,
        Node::Bool(b) => serde_json::Value::Bool(b),
        Node::Number(n) => serde_json::Value::Number(n),
        Node::Text(s) => serde_json::Value::String(s),
        Node::List(a) => serde_json::Value::Array(a),
        Node::Object(m) => serde_json::Value::Object(m.into_iter().collect()),
    }
}

/// `Display` of `serde_json::Value`, the compact text that `serde_json::to_string`
/// also writes. It depends on what the value holds alone.
#[verifier::external_body]
fn value_text(v: &serde_json::Value) -> (r: String)
    ensures
        r@ == json_text(json_contents(*v)),
{
    v.to_string()
}

/// `as_u64`, `as_i64` and `as_f64` of `serde_json::Number`, the last as its bit
/// pattern.
#[verifier::external_body]
fn parts_of(n: &serde_json::Number) -> (r: NumberParts)
    ensures
        r == number_parts(*n),
{
    NumberParts {
        unsigned: n.as_u64(),
        signed: n.as_i64(),
        double: n.as_f64().map(|x| x.to_bits()),
    }
}

/// An unsigned integer as a JSON number.
pub uninterp spec fn unsigned_parts(n: u64) -> NumberParts;

/// `From<u64>` of `serde_json::Number`: the number reads back as the unsigned integer,
/// and as a signed one when it is small enough. Which floating-point number is nearest
/// is left unstated.
#[verifier::external_body]
fn number_of(n: u64) -> (r: serde_json::Number)
    ensures
        number_parts(r) == unsigned_parts(n),
        number_parts(r).unsigned == Some(n),
        number_parts(r).signed == (if n <= i64::MAX {
            Some(n as i64)
        } else {
            None
        }),
{
    serde_json::Number::from(n)
}

/// `Clone` of `serde_json::Number`, which keeps the number.
#[verifier::external_body]
fn number_copy(n: &serde_json::Number) -> (r: serde_json::Number)
    ensures
        r == *n,
{
    n.clone()
}

/// A value of serde_json as the library's own.
fn from_value(v: serde_json::Value) -> (r: Json)
    ensures
        r@ == json_contents(v),
        ordered(r@),
    decreases json_contents(v),
{
    let ghost whole = json_contents(v);
    match node_of(v) {
        Node::Null => Json::Null,
        Node::Bool(b) => Json::Bool(b),
        Node::Number(n) => Json::Number(n),
        Node::Text(s) => Json::Text(s),
        Node::List(items) => {
            let ghost all = items@;
            let mut out: Vec<Json> = Vec::new();
            for child in it: items
                invariant
                    it.seq() == all,
                    whole == json_contents(v),
                    whole == JsonModel::List(
                        all.map_values(|v: serde_json::Value| json_contents(v)),
                    ),
                    out@.len() == it.index(),
                    forall|i: int|
                        0 <= i < out@.len() ==> #[trigger] model(out@[i]) == json_contents(all[i])
                            && ordered(model(out@[i])),
            {
                let ghost k = out@.len() as int;
                assert(whole->List_0[k] == json_contents(child));
                assert(decreases_to!(whole => whole->List_0[k]));
                out.push(from_value(child));
            }
            let r = Json::List(out);
            assert forall|i: int| 0 <= i < out@.len() implies #[trigger] r@->List_0[i]
                == whole->List_0[i] && ordered(r@->List_0[i]) by {
                assert(r@->List_0[i] == model(out@[i]));
            }
            assert(r@->List_0 =~= whole->List_0);
            r
        },
        Node::Object(members) => {
            let ghost all = members@;
            let ghost pairs = all.map_values(
                |m: (String, serde_json::Value)| (m.0@, json_contents(m.1)),
            );
            let mut out: Vec<(String, Json)> = Vec::new();
            for entry in it: members
                invariant
                    it.seq() == all,
                    whole == json_contents(v),
                    pairs == all.map_values(
                        |m: (String, serde_json::Value)| (m.0@, json_contents(m.1)),
                    ),
                    whole == JsonModel::Object(pairs),
                    out@.len() == it.index(),
                    forall|i: int|
                        0 <= i < out@.len() ==> (#[trigger] out@[i]).0@ == all[i].0@ && model(
                            out@[i].1,
                        ) == json_contents(all[i].1) && ordered(model(out@[i].1)),
            {
                let ghost k = out@.len() as int;
                let (key, child) = entry;
                assert(whole->Object_0[k] == (key@, json_contents(child)));
                assert(decreases_to!(whole => whole->Object_0[k].1));
                let child = from_value(child);
                out.push((key, child));
            }
            let r = Json::Object(out);
            assert(r@->Object_0 =~= whole->Object_0);
            assert(forall|i: int|
                0 <= i < out@.len() ==> (#[trigger] r@->Object_0[i]).1 == model(out@[i].1));
            r
        },
    }
}

/// A value of the library's own as serde_json's.
fn to_value(j: &Json) -> (r: serde_json::Value)
    requires
        ordered(j@),
    ensures
        json_contents(r) == j@,
    decreases *j,
{
    match j {
        Json::Null => value_of(Node::Null),
        Json::Bool(b) => value_of(Node::Bool(*b)),
        Json::Number(n) => value_of(Node::Number(number_copy(n))),
        Json::Text(s) => value_of(Node::Text(s.clone())),
        Json::List(items) => {
            let mut out: Vec<serde_json::Value> = Vec::new();
            let mut i: usize = 0;
            while i < items.len()
                invariant
                    *j == Json::List(*items),
                    ordered(j@),
                    i <= items@.len(),
                    out@.len() == i,
                    forall|k: int|
                        0 <= k < i ==> json_contents(#[trigger] out@[k]) == model(items@[k]),
                decreases items@.len() - i,
            {
                assert(j@->List_0[i as int] == model(items@[i as int]));
                out.push(to_value(&items[i]));
                i = i + 1;
            }
            let ghost list = out@.map_values(|v: serde_json::Value| json_contents(v));
            assert(list =~= j@->List_0);
            value_of(Node::List(out))
        },
        Json::Object(members) => {
            let mut out: Vec<(String, serde_json::Value)> = Vec::new();
            let mut i: usize = 0;
            while i < members.len()
                invariant
                    *j == Json::Object(*members),
                    ordered(j@),
                    i <= members@.len(),
                    out@.len() == i,
                    forall|k: int|
                        0 <= k < i ==> (#[trigger] out@[k]).0@ == members@[k].0@ && json_contents(
                            out@[k].1,
                        ) == model(members@[k].1),
                decreases members@.len() - i,
            {
                assert(j@->Object_0[i as int] == (
                    members@[i as int].0@,
                    model(members@[i as int].1),
                ));
                let child = to_value(&members[i].1);
                out.push((members[i].0.clone(), child));
                i = i + 1;
            }
            let ghost pairs = out@.map_values(
                |m: (String, serde_json::Value)| (m.0@, json_contents(m.1)),
            );
            assert(pairs =~= j@->Object_0);
            value_of(Node::Object(out))
        },
    }
}

/// The member of an object with the given key.
pub open spec fn member(m: JsonModel, key: Seq<char>) -> Option<JsonModel> {
    match m {
        JsonModel::Object(members) => member_from(members, key, 0),
        _ => None,
    }
}

/// The first member at or behind `i` with the given key.
pub open spec fn member_from(
    members: Seq<(Seq<char>, JsonModel)>,
    key: Seq<char>,
    i: int,
) -> Option<JsonModel>
    decreases members.len() - i,
{
    if i < 0 || i >= members.len() {
        None
    } else if members[i].0 == key {
        Some(members[i].1)
    } else {
        member_from(members, key, i + 1)
    }
}

/// The member of an object with the given key; null where there is none.
pub open spec fn at(m: JsonModel, key: Seq<char>) -> JsonModel {
    match member(m, key) {
        Some(v) => v,
        None => JsonModel::Null,
    }
}

/// The value is an object that holds a member: its keys come in order, and the pair is
/// one of its members.
pub open spec fn holds(m: JsonModel, key: Seq<char>, v: JsonModel) -> bool {
    m matches JsonModel::Object(members) && keys_ordered(members) && members.contains((key, v))
}

/// The value is an object without a member of the given key.
pub open spec fn lacks(m: JsonModel, key: Seq<char>) -> bool {
    m matches JsonModel::Object(members) && forall|i: int|
        0 <= i < members.len() ==> (#[trigger] members[i]).0 != key
}

/// A number that is the unsigned integer `n`.
pub open spec fn counts(m: JsonModel, n: u64) -> bool {
    m matches JsonModel::Number(p) && p.unsigned == Some(n)
}

proof fn lemma_not_before_itself(a: Seq<char>)
    ensures
        !key_before(a, a),
    decreases a.len(),
{
    if a.len() > 0 {
        lemma_not_before_itself(a.subrange(1, a.len() as int));
    }
}

proof fn lemma_member_from(members: Seq<(Seq<char>, JsonModel)>, key: Seq<char>, i: int, k: int)
    requires
        0 <= i <= k < members.len(),
        members[k].0 == key,
        forall|j: int| 0 <= j < k ==> (#[trigger] members[j]).0 != key,
    ensures
        member_from(members, key, i) == Some(members[k].1),
    decreases k - i,
{
    if i < k {
        lemma_member_from(members, key, i + 1, k);
    }
}

proof fn lemma_no_member_from(members: Seq<(Seq<char>, JsonModel)>, key: Seq<char>, i: int)
    requires
        0 <= i <= members.len(),
        forall|j: int| 0 <= j < members.len() ==> (#[trigger] members[j]).0 != key,
    ensures
        member_from(members, key, i) is None,
    decreases members.len() - i,
{
    if i < members.len() {
        lemma_no_member_from(members, key, i + 1);
    }
}

/// A member of an object is found by its key, and a key that the object lacks gives
/// nothing.
pub proof fn law_members_are_found(m: JsonModel, key: Seq<char>, v: JsonModel)
    ensures
        holds(m, key, v) ==> member(m, key) == Some(v) && at(m, key) == v,
        lacks(m, key) ==> member(m, key) is None && at(m, key) is Null,
{
    if let JsonModel::Object(members) = m {
        if holds(m, key, v) {
            let k = choose|k: int| 0 <= k < members.len() && members[k] == (key, v);
            assert forall|j: int| 0 <= j < k implies (#[trigger] members[j]).0 != key by {
                assert(key_before(members[j].0, members[k].0));
                lemma_not_before_itself(key);
            }
            lemma_member_from(members, key, 0, k);
        }
        if lacks(m, key) {
            lemma_no_member_from(members, key, 0);
        }
    }
}

/// The text that a value is.
pub open spec fn as_text(m: JsonModel) -> Option<Seq<char>> {
    match m {
        JsonModel::Text(s) => Some(s),
        _ => None,
    }
}

/// The unsigned integer that a value is.
pub open spec fn as_unsigned(m: JsonModel) -> Option<u64> {
    match m {
        JsonModel::Number(n) => n.unsigned,
        _ => None,
    }
}

/// The bit pattern of the floating-point number that a value is.
pub open spec fn as_double(m: JsonModel) -> Option<u64> {
    match m {
        JsonModel::Number(n) => n.double,
        _ => None,
    }
}

/// The list that a value is.
pub open spec fn as_list(m: JsonModel) -> Option<Seq<JsonModel>> {
    match m {
        JsonModel::List(items) => Some(items),
        _ => None,
    }
}

/// A value is read as a text, a number or a list only when it is one, and then as what
/// it holds.
pub proof fn law_kinds(m: JsonModel)
    ensures
        as_text(m) is Some <==> m is Text,
        as_list(m) is Some <==> m is List,
        as_unsigned(m) is Some ==> m is Number,
        as_double(m) is Some ==> m is Number,
        m matches JsonModel::Text(s) ==> as_text(m) == Some(s),
        m matches JsonModel::List(items) ==> as_list(m) == Some(items),
        m matches JsonModel::Number(n) ==> as_unsigned(m) == n.unsigned && as_double(m) == n.double,
{
}

impl Json {
    /// Reads a JSON text; the error is what is wrong with it.
    pub fn parse(s: &str) -> (r: std::result::Result<Json, String>)
        ensures
            match r {
                Ok(j) => json_parsed(s@) == Ok::<JsonModel, Seq<char>>(j@) && ordered(j@),
                Err(m) => json_parsed(s@) == Err::<JsonModel, Seq<char>>(m@),
            },
    {
        match parse_value(s) {
            Ok(v) => Ok(from_value(v)),
            Err(m) => Err(m),
        }
    }

    /// Reads a JSON text that is a list; the error is what is wrong with it.
    pub fn parse_list(s: &str) -> (r: std::result::Result<Vec<Json>, String>)
        ensures
            match r {
                Ok(v) => json_list_parsed(s@) == Ok::<Seq<JsonModel>, Seq<char>>(models(v@)),
                Err(m) => json_list_parsed(s@) == Err::<Seq<JsonModel>, Seq<char>>(m@),
            },
    {
        match parse_values(s) {
            Ok(values) => {
                let ghost all = values@;
                let mut out: Vec<Json> = Vec::new();
                for value in it: values
                    invariant
                        it.seq() == all,
                        out@.len() == it.index(),
                        forall|i: int|
                            0 <= i < out@.len() ==> (#[trigger] out@[i])@ == json_contents(all[i]),
                {
                    out.push(from_value(value));
                }
                assert(models(out@) =~= all.map_values(
                    |v: serde_json::Value| json_contents(v),
                ));
                Ok(out)
            },
            Err(m) => Err(m),
        }
    }

    /// The compact text of a value.
    pub fn text(&self) -> (r: String)
        requires
            ordered(self@),
        ensures
            r@ == json_text(self@),
    {
        value_text(&to_value(self))
    }

    /// A copy of a value.
    pub fn copy(&self) -> (r: Json)
        ensures
            r@ == self@,
        decreases *self,
    {
        match self {
            Json::Null => Json::Null,
            Json::Bool(b) => Json::Bool(*b),
            Json::Number(n) => Json::Number(number_copy(n)),
            Json::Text(s) => Json::Text(s.clone()),
            Json::List(items) => {
                let mut out: Vec<Json> = Vec::new();
                let mut i: usize = 0;
                while i < items.len()
                    invariant
                        *self == Json::List(*items),
                        i <= items@.len(),
                        out@.len() == i,
                        forall|k: int| 0 <= k < i ==> model(#[trigger] out@[k]) == model(items@[k]),
                    decreases items@.len() - i,
                {
                    assert(self@->List_0[i as int] == model(items@[i as int]));
                    out.push(items[i].copy());
                    i = i + 1;
                }
                let r = Json::List(out);
                assert(r@->List_0 =~= self@->List_0);
                r
            },
            Json::Object(members) => {
                let mut out: Vec<(String, Json)> = Vec::new();
                let mut i: usize = 0;
                while i < members.len()
                    invariant
                        *self == Json::Object(*members),
                        i <= members@.len(),
                        out@.len() == i,
                        forall|k: int|
                            0 <= k < i ==> (#[trigger] out@[k]).0@ == members@[k].0@ && model(
                                out@[k].1,
                            ) == model(members@[k].1),
                    decreases members@.len() - i,
                {
                    assert(self@->Object_0[i as int] == (
                        members@[i as int].0@,
                        model(members@[i as int].1),
                    ));
                    let child = members[i].1.copy();
                    out.push((members[i].0.clone(), child));
                    i = i + 1;
                }
                let r = Json::Object(out);
                assert(r@->Object_0 =~= self@->Object_0);
                r
            },
        }
    }

    /// An unsigned integer.
    pub fn unsigned(n: u64) -> (r: Json)
        ensures
            r@ == JsonModel::Number(unsigned_parts(n)),
            as_unsigned(r@) == Some(n),
    {
        Json::Number(number_of(n))
    }

    /// The member of an object with the given key.
    pub fn get(&self, key: &str) -> (r: Option<&Json>)
        ensures
            match r {
                Some(j) => member(self@, key@) == Some(j@),
                None => member(self@, key@) is None,
            },
            ordered(self@) ==> (r matches Some(j) ==> ordered(j@)),
    {
        match self {
            Json::Object(members) => {
                let mut i: usize = 0;
                while i < members.len()
                    invariant
                        *self == Json::Object(*members),
                        i <= members@.len(),
                        member_from(self@->Object_0, key@, i as int) == member_from(
                            self@->Object_0,
                            key@,
                            0,
                        ),
                    decreases members@.len() - i,
                {
                    assert(self@->Object_0[i as int] == (
                        members@[i as int].0@,
                        model(members@[i as int].1),
                    ));
                    if text::str_same(members[i].0.as_str(), key) {
                        return Some(&members[i].1);
                    }
                    i = i + 1;
                }
                None
            },
            _ => None,
        }
    }

    /// The text that the value is.
    pub fn as_str(&self) -> (r: Option<&str>)
        ensures
            match r {
                Some(s) => as_text(self@) == Some(s@),
                None => as_text(self@) is None,
            },
    {
        match self {
            Json::Text(s) => Some(s.as_str()),
            _ => None,
        }
    }

    /// The unsigned integer that the value is.
    pub fn as_u64(&self) -> (r: Option<u64>)
        ensures
            r == as_unsigned(self@),
    {
        match self {
            Json::Number(n) => parts_of(n).unsigned,
            _ => None,
        }
    }

    /// The bit pattern of the floating-point number that the value is.
    pub fn as_double(&self) -> (r: Option<u64>)
        ensures
            r == as_double(self@),
    {
        match self {
            Json::Number(n) => parts_of(n).double,
            _ => None,
        }
    }

    /// The truth value that the value is.
    pub fn as_bool(&self) -> (r: Option<bool>)
        ensures
            r == (match self@ {
                JsonModel::Bool(b) => Some(b),
                _ => None,
            }),
    {
        match self {
            Json::Bool(b) => Some(*b),
            _ => None,
        }
    }

    /// The text of the member with the given key.
    pub fn str_at(&self, key: &str) -> (r: Option<&str>)
        ensures
            match r {
                Some(s) => as_text(at(self@, key@)) == Some(s@),
                None => as_text(at(self@, key@)) is None,
            },
    {
        match self.get(key) {
            Some(j) => j.as_str(),
            None => None,
        }
    }

    /// The text of the member with the given key, as a string of its own.
    pub fn string_at(&self, key: &str) -> (r: Option<String>)
        ensures
            text::opt_text(r) == as_text(at(self@, key@)),
    {
        match self.str_at(key) {
            Some(s) => Some(s.to_string()),
            None => None,
        }
    }

    /// The unsigned integer of the member with the given key.
    pub fn u64_at(&self, key: &str) -> (r: Option<u64>)
        ensures
            r == as_unsigned(at(self@, key@)),
    {
        match self.get(key) {
            Some(j) => j.as_u64(),
            None => None,
        }
    }

    /// The list of the member with the given key.
    pub fn list_at(&self, key: &str) -> (r: Option<&Vec<Json>>)
        ensures
            match r {
                Some(v) => as_list(at(self@, key@)) == Some(models(v@)),
                None => as_list(at(self@, key@)) is None,
            },
            ordered(self@) ==> (r matches Some(v) ==> forall|i: int|
                0 <= i < v@.len() ==> ordered((#[trigger] v@[i])@)),
    {
        match self.get(key) {
            Some(j) => match j {
                Json::List(v) => {
                    assert(j@->List_0 =~= models(v@));
                    assert forall|i: int| ordered(j@) && 0 <= i < v@.len() implies ordered(
                        (#[trigger] v@[i])@,
                    ) by {
                        assert(j@->List_0[i] == v@[i]@);
                    }
                    Some(v)
                },
                _ => None,
            },
            None => None,
        }
    }

    /// The compact text of the member with the given key; `null` where there is none.
    pub fn text_at(&self, key: &str) -> (r: String)
        requires
            ordered(self@),
        ensures
            r@ == json_text(at(self@, key@)),
    {
        match self.get(key) {
            Some(j) => j.text(),
            None => Json::Null.text(),
        }
    }
}

/// What a list of values holds.
pub open spec fn models(v: Seq<Json>) -> Seq<JsonModel> {
    v.map_values(|j: Json| j@)
}

} // verus!
