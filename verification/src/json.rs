//! JSON values.
//!
//! [`Json`] is the library's own tree; its view [`JsonView`] is the value in
//! mathematical form, with objects as maps. Reading and writing JSON text is
//! `serde_json`'s work: [`parse`] and [`Json::to_text`] call it and convert
//! node by node. It writes the members of an object by their keys;
//! [`Json::to_ordered_text`] writes them in an order of the caller's.
use crate::text;
use serde_json::{Error, Number, Value};
use vstd::prelude::*;
use vstd::utf8::encode_utf8;

pub mod laws;

verus! {

/// A JSON number: an integer that fits 64 bits, or the bit pattern of a
/// floating-point number.
pub enum NumView {
    Int(int),
    Float(int),
}

/// A JSON value in mathematical form.
#[verifier::ext_equal]
pub enum JsonView {
    Null,
    Bool(bool),
    Num(NumView),
    Text(Seq<char>),
    Array(Seq<JsonView>),
    Object(Map<Seq<char>, JsonView>),
}

/// `serde_json::Value`.
#[verifier::external_type_specification]
#[verifier::external_body]
pub struct ExValue(Value);

/// `serde_json::Number`.
#[verifier::external_type_specification]
#[verifier::external_body]
pub struct ExNumber(Number);

/// `serde_json::Error`.
#[verifier::external_type_specification]
#[verifier::external_body]
pub struct ExError(Error);

/// What a `serde_json::Value` holds.
pub uninterp spec fn value_json(v: Value) -> JsonView;

/// What a `serde_json::Number` holds.
pub uninterp spec fn number_view(n: Number) -> NumView;

/// The message of a `serde_json::Error`.
pub uninterp spec fn error_text(e: Error) -> Seq<char>;

/// What `serde_json::from_slice` makes of `bytes`: the value, or the message of
/// the error.
pub uninterp spec fn json_parse(bytes: Seq<u8>) -> Result<JsonView, Seq<char>>;

/// The compact text that `serde_json::to_string` gives for a value.
pub uninterp spec fn json_text(v: JsonView) -> Seq<char>;

/// One level of a `serde_json::Value`.
pub enum Shape {
    Null,
    Bool(bool),
    Num(Number),
    Text(String),
    Array(Vec<Value>),
    Object(Vec<(String, Value)>),
}

/// The object that a list of members makes; of two members with one key the
/// later counts.
pub open spec fn value_members(s: Seq<(String, Value)>) -> Map<Seq<char>, JsonView>
    decreases s.len(),
{
    if s.len() == 0 {
        Map::empty()
    } else {
        value_members(s.drop_last()).insert(s.last().0@, value_json(s.last().1))
    }
}

/// The value that one level makes.
pub open spec fn shape_json(s: Shape) -> JsonView {
    match s {
        Shape::Null => JsonView::Null,
        Shape::Bool(b) => JsonView::Bool(b),
        Shape::Num(n) => JsonView::Num(number_view(n)),
        Shape::Text(t) => JsonView::Text(t@),
        Shape::Array(a) => JsonView::Array(Seq::new(a@.len(), |i: int| value_json(a@[i]))),
        Shape::Object(m) => JsonView::Object(value_members(m@)),
    }
}

/// No key occurs twice.
pub open spec fn distinct_keys(s: Seq<(String, Value)>) -> bool {
    forall|i: int, j: int|
        0 <= i < j < s.len() ==> (#[trigger] s[i]).0@ != (#[trigger] s[j]).0@
}

/// Takes a `serde_json::Value` apart into its top level: one variant each, and
/// an object as the list of its members, whose keys a `serde_json::Map` holds
/// once each.
#[verifier::external_body]
fn take_apart(v: Value) -> (s: Shape)
    ensures
        shape_json(s) == value_json(v),
        s matches Shape::Object(m) ==> distinct_keys(m@),
{
    match v {
        Value::Null => Shape::Null,
        Value::Bool(b) => Shape::Bool(b),
        Value::Number(n) => Shape::Num(n),
        Value::String(t) => Shape::Text(t),
        Value::Array(a) => Shape::Array(a),
        Value::Object(m) => Shape::Object(m.into_iter().collect()),
    }
}

/// Puts a `serde_json::Value` together from its top level: one variant each,
/// and the members collected into a `serde_json::Map`, where a later member
/// replaces an earlier one with the same key.
#[verifier::external_body]
fn put_together(s: Shape) -> (v: Value)
    ensures
        value_json(v) == shape_json(s),
{
    match s {
        Shape::Null => Value::Null,
        Shape::Bool(b) => Value::Bool(b),
        Shape::Num(n) => Value::Number(n),
        Shape::Text(t) => Value::String(t),
        Shape::Array(a) => Value::Array(a),
        Shape::Object(m) => Value::Object(m.into_iter().collect()),
    }
}

/// `Number::clone`: the clone holds the same number.
pub assume_specification[ <Number as Clone>::clone ](n: &Number) -> (r: Number)
    ensures
        number_view(r) == number_view(*n),
;

/// `Number::as_u64`: the number where it is an integer from 0 to `u64::MAX`.
pub assume_specification[ Number::as_u64 ](n: &Number) -> (r: Option<u64>)
    ensures
        r == num_u64(number_view(*n)),
;

/// `Number::as_i64`: the number where it is an integer that fits `i64`.
pub assume_specification[ Number::as_i64 ](n: &Number) -> (r: Option<i64>)
    ensures
        r == num_i64(number_view(*n)),
;

/// `Number::from(i64)`: that integer.
#[verifier::external_body]
fn number_of_i64(n: i64) -> (r: Number)
    ensures
        number_view(r) == NumView::Int(n as int),
{
    Number::from(n)
}

/// `Number::from(u64)`: that integer.
#[verifier::external_body]
fn number_of_u64(n: u64) -> (r: Number)
    ensures
        number_view(r) == NumView::Int(n as int),
{
    Number::from(n)
}

/// `serde_json::from_slice`: the value that the bytes spell, or the error.
///
/// A text that `serde_json`'s writer made for the keys and the leaves, with the
/// marks of JSON between them, is read as the value that it was made from,
/// whatever the order of the members: the parser takes members in any order,
/// and of two with one key the later. This is said of the values that
/// `is_legible` describes.
#[verifier::external_body]
fn parse_value(bytes: &[u8]) -> (r: Result<Value, Error>)
    ensures
        match r {
            Ok(v) => json_parse(bytes@) == Ok::<JsonView, Seq<char>>(value_json(v)),
            Err(e) => json_parse(bytes@) == Err::<JsonView, Seq<char>>(error_text(e)),
        },
        reads_back(bytes@, value_of(r)),
{
    serde_json::from_slice(bytes)
}

/// The message that a `serde_json::Error` displays.
#[verifier::external_body]
fn error_message(e: &Error) -> (r: String)
    ensures
        r@ == error_text(*e),
{
    e.to_string()
}

/// The message with which `serde_json::from_value` refuses to read a value as
/// a `String`.
pub uninterp spec fn text_refusal(v: JsonView) -> Seq<char>;

/// The message with which `serde_json::from_value` refuses to read a value as
/// an `Option<u64>`.
pub uninterp spec fn unsigned_refusal(v: JsonView) -> Seq<char>;

/// The message with which `serde_json::from_value` refuses to read a value as
/// an `Option<i64>`.
pub uninterp spec fn signed_refusal(v: JsonView) -> Seq<char>;

/// A value read as a text: itself where it is one, else the refusal.
pub open spec fn as_text(v: JsonView) -> Result<Seq<char>, Seq<char>> {
    match v {
        JsonView::Text(t) => Ok(t),
        _ => Err(text_refusal(v)),
    }
}

/// A value read as a count that may be `null`: an integer that fits `u64`,
/// else the refusal.
pub open spec fn as_unsigned(v: JsonView) -> Result<Option<u64>, Seq<char>> {
    match v {
        JsonView::Null => Ok(None),
        JsonView::Num(n) => match num_u64(n) {
            Some(k) => Ok(Some(k)),
            None => Err(unsigned_refusal(v)),
        },
        _ => Err(unsigned_refusal(v)),
    }
}

/// A value read as a count that may be `null`: an integer that fits `i64`,
/// else the refusal.
pub open spec fn as_signed(v: JsonView) -> Result<Option<i64>, Seq<char>> {
    match v {
        JsonView::Null => Ok(None),
        JsonView::Num(n) => match num_i64(n) {
            Some(k) => Ok(Some(k)),
            None => Err(signed_refusal(v)),
        },
        _ => Err(signed_refusal(v)),
    }
}

/// `serde_json::from_value::<String>`: the text of a string; anything else is
/// refused. Which message it is, is left to `text_refusal`.
#[verifier::external_body]
fn value_as_text(v: Value) -> (r: Result<String, Error>)
    ensures
        match r {
            Ok(t) => as_text(value_json(v)) == Ok::<Seq<char>, Seq<char>>(t@),
            Err(e) => as_text(value_json(v)) is Err && error_text(e) == text_refusal(
                value_json(v),
            ),
        },
{
    serde_json::from_value(v)
}

/// `serde_json::from_value::<Option<u64>>`: nothing for `null`, the number for
/// an integer that fits; anything else is refused. Which message it is, is left
/// to `unsigned_refusal`.
#[verifier::external_body]
fn value_as_unsigned(v: Value) -> (r: Result<Option<u64>, Error>)
    ensures
        match r {
            Ok(n) => as_unsigned(value_json(v)) == Ok::<Option<u64>, Seq<char>>(n),
            Err(e) => as_unsigned(value_json(v)) is Err && error_text(e) == unsigned_refusal(
                value_json(v),
            ),
        },
{
    serde_json::from_value(v)
}

/// `serde_json::from_value::<Option<i64>>`: nothing for `null`, the number for
/// an integer that fits; anything else is refused. Which message it is, is left
/// to `signed_refusal`.
#[verifier::external_body]
fn value_as_signed(v: Value) -> (r: Result<Option<i64>, Error>)
    ensures
        match r {
            Ok(n) => as_signed(value_json(v)) == Ok::<Option<i64>, Seq<char>>(n),
            Err(e) => as_signed(value_json(v)) is Err && error_text(e) == signed_refusal(
                value_json(v),
            ),
        },
{
    serde_json::from_value(v)
}

/// How deep arrays and objects nest in a value.
pub open spec fn nests_within(v: JsonView, depth: nat) -> bool
    decreases v, depth,
{
    match v {
        JsonView::Array(a) => depth > 0 && forall|i: int|
            0 <= i < a.len() ==> nests_within(#[trigger] a[i], (depth - 1) as nat),
        JsonView::Object(m) => depth > 0 && m.dom().finite() && forall|k: Seq<char>|
            m.dom().contains(k) ==> nests_within(#[trigger] m[k], (depth - 1) as nat),
        _ => true,
    }
}

/// The key that `serde_json` reserves: it reads an object that begins with it
/// as the value that the member's text spells.
pub const RESERVED_KEY: &'static str = "$serde_json::private::RawValue";

/// A value whose numbers are integers that fit 64 bits, and that has no object
/// with the reserved key.
pub open spec fn is_plain(v: JsonView) -> bool
    decreases v,
{
    match v {
        JsonView::Num(n) => n matches NumView::Int(i) && i64::MIN <= i <= u64::MAX,
        JsonView::Array(a) => forall|i: int| 0 <= i < a.len() ==> is_plain(#[trigger] a[i]),
        JsonView::Object(m) => m.dom().finite() && !m.dom().contains(RESERVED_KEY@) && forall|
            k: Seq<char>,
        |
            m.dom().contains(k) ==> is_plain(#[trigger] m[k]),
        _ => true,
    }
}

/// The keys of `order` that `m` has, in this order.
pub open spec fn present(m: Map<Seq<char>, JsonView>, order: Seq<Seq<char>>) -> Seq<Seq<char>>
    decreases order.len(),
{
    if order.len() == 0 {
        Seq::empty()
    } else {
        let before = present(m, order.drop_last());
        if m.dom().contains(order.last()) {
            before.push(order.last())
        } else {
            before
        }
    }
}

/// The ordered texts of values.
pub open spec fn ordered_items(a: Seq<JsonView>, order: Seq<Seq<char>>) -> Seq<Seq<char>>
    decreases a,
{
    Seq::new(
        a.len(),
        |i: int|
            if 0 <= i < a.len() {
                ordered_text(a[i], order)
            } else {
                Seq::empty()
            },
    )
}

/// The texts of members, each a key and the ordered text of its value, in this
/// order.
pub open spec fn ordered_members(m: Map<Seq<char>, JsonView>, order: Seq<Seq<char>>) -> Seq<
    Seq<char>,
>
    decreases m,
{
    present(m, order).map_values(
        |k: Seq<char>|
            if m.dom().finite() && m.dom().contains(k) {
                json_text(JsonView::Text(k)) + ":"@ + ordered_text(m[k], order)
            } else {
                Seq::empty()
            },
    )
}

/// The compact text of a value in which the members of every object stand in
/// this order; a member whose key is not in it is left out.
pub open spec fn ordered_text(v: JsonView, order: Seq<Seq<char>>) -> Seq<char>
    decreases v,
{
    match v {
        JsonView::Array(a) => "["@ + text::joined(ordered_items(a, order), ","@) + "]"@,
        JsonView::Object(m) => "{"@ + text::joined(ordered_members(m, order), ","@) + "}"@,
        _ => json_text(v),
    }
}

/// `t` is the text of the member `k`, which `m` has.
pub open spec fn is_member_text(
    t: Seq<char>,
    m: Map<Seq<char>, JsonView>,
    k: Seq<char>,
    order: Seq<Seq<char>>,
) -> bool {
    m.dom().contains(k) && t == json_text(JsonView::Text(k)) + ":"@ + ordered_text(m[k], order)
}

/// Every key of every object in `v` is among `keys`.
pub open spec fn keys_among(v: JsonView, keys: Seq<Seq<char>>) -> bool
    decreases v,
{
    match v {
        JsonView::Array(a) => forall|i: int|
            0 <= i < a.len() ==> keys_among(#[trigger] a[i], keys),
        JsonView::Object(m) => forall|k: Seq<char>| #[trigger]
            m.dom().contains(k) ==> keys.contains(k) && keys_among(m[k], keys),
        _ => true,
    }
}

/// A value whose ordered text is read back as the value: it is plain, no
/// member is left out, and its arrays and objects nest no deeper than the
/// parser's limit.
pub open spec fn is_legible(v: JsonView, order: Seq<Seq<char>>) -> bool {
    is_plain(v) && nests_within(v, 127) && keys_among(v, order)
}

/// What was read from `bytes` is the value whose ordered text they hold, where
/// they hold that of a legible value.
pub open spec fn reads_back(bytes: Seq<u8>, read: Option<JsonView>) -> bool {
    forall|v: JsonView, order: Seq<Seq<char>>|
        bytes == encode_utf8(#[trigger] ordered_text(v, order)) && is_legible(v, order) ==> read
            == Some(v)
}

/// The value that was read.
pub open spec fn value_of(r: Result<Value, Error>) -> Option<JsonView> {
    match r {
        Ok(v) => Some(value_json(v)),
        Err(_) => None,
    }
}

/// `serde_json::to_string` on a `Value`, which does not fail: the compact text
/// of the value.
///
/// The text holds no control character, since the formatter writes none and
/// escapes those in strings. That of an object begins with a brace. Which text
/// it is, is left to `json_text`.
#[verifier::external_body]
fn value_text(v: &Value) -> (r: String)
    ensures
        r@ == json_text(value_json(*v)),
        r@.len() > 0,
        forall|i: int| 0 <= i < r@.len() ==> #[trigger] r@[i] as u32 >= 0x20,
        (value_json(*v) is Object ==> r@[0] == '{'),
{
    serde_json::to_string(v).unwrap_or_default()
}

/// The number where it is an integer from 0 to `u64::MAX`.
pub open spec fn num_u64(n: NumView) -> Option<u64> {
    match n {
        NumView::Int(i) => if 0 <= i <= u64::MAX {
            Some(i as u64)
        } else {
            None
        },
        NumView::Float(_) => None,
    }
}

/// The number where it is an integer that fits `i64`.
pub open spec fn num_i64(n: NumView) -> Option<i64> {
    match n {
        NumView::Int(i) => if i64::MIN <= i <= i64::MAX {
            Some(i as i64)
        } else {
            None
        },
        NumView::Float(_) => None,
    }
}

/// A JSON value. Of two members of an object with one key, the later counts.
#[derive(Debug)]
pub enum Json {
    Null,
    Bool(bool),
    Num(Number),
    Text(String),
    Array(Vec<Json>),
    Object(Vec<(String, Json)>),
}

/// The object that a list of members makes.
pub open spec fn members(s: Seq<(String, Json)>) -> Map<Seq<char>, JsonView>
    decreases s,
{
    if s.len() == 0 {
        Map::empty()
    } else {
        members(s.drop_last()).insert(s.last().0@, s.last().1.view())
    }
}

/// The values behind a sequence of trees.
pub open spec fn items(s: Seq<Json>) -> Seq<JsonView>
    decreases s,
{
    Seq::new(
        s.len(),
        |i: int|
            if 0 <= i < s.len() {
                s[i].view()
            } else {
                JsonView::Null
            },
    )
}

impl Json {
    /// The value of the tree.
    pub open spec fn view(&self) -> JsonView
        decreases self,
    {
        match self {
            Json::Null => JsonView::Null,
            Json::Bool(b) => JsonView::Bool(*b),
            Json::Num(n) => JsonView::Num(number_view(*n)),
            Json::Text(t) => JsonView::Text(t@),
            Json::Array(a) => JsonView::Array(items(a@)),
            Json::Object(m) => JsonView::Object(members(m@)),
        }
    }
}

/// The members of a list with distinct keys, one by one.
proof fn lemma_value_members(s: Seq<(String, Value)>)
    ensures
        value_members(s).dom().finite(),
        forall|k: Seq<char>|
            value_members(s).dom().contains(k) ==> exists|i: int|
                0 <= i < s.len() && (#[trigger] s[i]).0@ == k,
        distinct_keys(s) ==> forall|i: int|
            0 <= i < s.len() ==> value_members(s).dom().contains((#[trigger] s[i]).0@)
                && value_members(s)[s[i].0@] == value_json(s[i].1),
    decreases s.len(),
{
    if s.len() > 0 {
        let t = s.drop_last();
        lemma_value_members(t);
        assert forall|k: Seq<char>| value_members(s).dom().contains(k) implies exists|i: int|
            0 <= i < s.len() && (#[trigger] s[i]).0@ == k by {
            if k == s.last().0@ {
                assert(s[s.len() - 1].0@ == k);
            } else {
                let i = choose|i: int| 0 <= i < t.len() && (#[trigger] t[i]).0@ == k;
                assert(s[i].0@ == k);
            }
        }
        if distinct_keys(s) {
            assert forall|i: int, j: int| 0 <= i < j < t.len() implies (#[trigger] t[i]).0@ != (
            #[trigger] t[j]).0@ by {
                assert(s[i].0@ != s[j].0@);
            }
            assert forall|i: int| 0 <= i < s.len() implies value_members(s).dom().contains(
                (#[trigger] s[i]).0@,
            ) && value_members(s)[s[i].0@] == value_json(s[i].1) by {
                if i < s.len() - 1 {
                    assert(t[i] == s[i]);
                    assert(s[i].0@ != s[s.len() - 1].0@);
                }
            }
        }
    }
}

/// The tree of a `serde_json::Value`.
pub fn from_value(v: Value) -> (r: Json)
    ensures
        r@ == value_json(v),
    decreases value_json(v),
{
    let ghost whole = value_json(v);
    match take_apart(v) {
        Shape::Null => Json::Null,
        Shape::Bool(b) => Json::Bool(b),
        Shape::Num(n) => Json::Num(n),
        Shape::Text(t) => Json::Text(t),
        Shape::Array(a) => {
            let ghost all = a@;
            let mut out: Vec<Json> = Vec::new();
            for x in it: a
                invariant
                    whole == value_json(v),
                    it.seq() == all,
                    whole == JsonView::Array(Seq::new(all.len(), |i: int| value_json(all[i]))),
                    out@.len() == it.index(),
                    forall|i: int| 0 <= i < out@.len() ==> (#[trigger] out@[i])@ == value_json(all[i]),
            {
                proof {
                    let parts = whole->Array_0;
                    assert(parts[it.index()] == value_json(x));
                    assert(decreases_to!(whole => parts));
                    assert(decreases_to!(parts => parts[it.index()]));
                }
                let j = from_value(x);
                out.push(j);
            }
            proof {
                assert(items(out@) =~= whole->Array_0);
            }
            Json::Array(out)
        },
        Shape::Object(m) => {
            let ghost all = m@;
            let mut out: Vec<(String, Json)> = Vec::new();
            for x in it: m
                invariant
                    whole == value_json(v),
                    it.seq() == all,
                    distinct_keys(all),
                    whole == JsonView::Object(value_members(all)),
                    out@.len() == it.index(),
                    members(out@) == value_members(all.take(it.index())),
            {
                proof {
                    lemma_value_members(all);
                    let parts = whole->Object_0;
                    assert(all[it.index()] == x);
                    assert(parts[x.0@] == value_json(x.1));
                    assert(decreases_to!(whole => parts));
                    assert(decreases_to!(parts => parts[x.0@]));
                }
                let ghost before = out@;
                let j = from_value(x.1);
                out.push((x.0, j));
                proof {
                    let now = all.take(it.index() + 1);
                    assert(now.drop_last() =~= all.take(it.index()));
                    assert(out@.drop_last() =~= before);
                }
            }
            proof {
                assert(all.take(all.len() as int) =~= all);
            }
            Json::Object(out)
        },
    }
}

/// The value that `bytes` spell, or the parser's message. What
/// [`Json::to_ordered_text`] wrote is read back as it was, where it is legible.
pub fn parse(bytes: &[u8]) -> (r: Result<Json, String>)
    ensures
        match r {
            Ok(j) => json_parse(bytes@) == Ok::<JsonView, Seq<char>>(j@),
            Err(m) => json_parse(bytes@) == Err::<JsonView, Seq<char>>(m@),
        },
        reads_back(
            bytes@,
            match r {
                Ok(j) => Some(j@),
                Err(_) => None,
            },
        ),
{
    match parse_value(bytes) {
        Ok(v) => Ok(from_value(v)),
        Err(e) => Err(error_message(&e)),
    }
}

impl Json {
    /// The `serde_json::Value` of the tree.
    pub fn to_value(&self) -> (r: Value)
        ensures
            value_json(r) == self@,
        decreases self,
    {
        match self {
            Json::Null => put_together(Shape::Null),
            Json::Bool(b) => put_together(Shape::Bool(*b)),
            Json::Num(n) => put_together(Shape::Num(n.clone())),
            Json::Text(t) => put_together(Shape::Text(t.clone())),
            Json::Array(a) => {
                let mut out: Vec<Value> = Vec::new();
                let mut i: usize = 0;
                while i < a.len()
                    invariant
                        i <= a@.len(),
                        self matches Json::Array(b) && b == a,
                        out@.len() == i,
                        forall|k: int|
                            0 <= k < i ==> value_json(#[trigger] out@[k]) == a@[k]@,
                    decreases a@.len() - i,
                {
                    proof {
                        assert(decreases_to!(self => a));
                        assert(decreases_to!(a => a@));
                        assert(decreases_to!(a@ => a@[i as int]));
                    }
                    let v = a[i].to_value();
                    out.push(v);
                    i += 1;
                }
                proof {
                    assert(Seq::new(out@.len(), |k: int| value_json(out@[k])) =~= items(a@));
                }
                put_together(Shape::Array(out))
            },
            Json::Object(m) => {
                let mut out: Vec<(String, Value)> = Vec::new();
                let mut i: usize = 0;
                while i < m.len()
                    invariant
                        i <= m@.len(),
                        self matches Json::Object(b) && b == m,
                        out@.len() == i,
                        value_members(out@) == members(m@.take(i as int)),
                    decreases m@.len() - i,
                {
                    proof {
                        assert(decreases_to!(self => m));
                        assert(decreases_to!(m => m@));
                        assert(decreases_to!(m@ => m@[i as int]));
                        assert(decreases_to!(m@[i as int] => m@[i as int].1));
                    }
                    let ghost before = out@;
                    let v = m[i].1.to_value();
                    out.push((m[i].0.clone(), v));
                    i += 1;
                    proof {
                        let now = m@.take(i as int);
                        assert(now.drop_last() =~= m@.take(i - 1));
                        assert(out@.drop_last() =~= before);
                    }
                }
                proof {
                    assert(m@.take(m@.len() as int) =~= m@);
                }
                put_together(Shape::Object(out))
            },
        }
    }

    /// The compact JSON text of the value.
    pub fn to_text(&self) -> (r: String)
        ensures
            r@ == json_text(self@),
            r@.len() > 0,
            forall|i: int| 0 <= i < r@.len() ==> #[trigger] r@[i] as u32 >= 0x20,
            self@ is Object ==> r@[0] == '{',
    {
        value_text(&self.to_value())
    }
}

impl Clone for Json {
    fn clone(&self) -> (r: Self)
        ensures
            r@ == self@,
        decreases self,
    {
        match self {
            Json::Null => Json::Null,
            Json::Bool(b) => Json::Bool(*b),
            Json::Num(n) => Json::Num(n.clone()),
            Json::Text(t) => Json::Text(t.clone()),
            Json::Array(a) => {
                let mut out: Vec<Json> = Vec::new();
                let mut i: usize = 0;
                while i < a.len()
                    invariant
                        i <= a@.len(),
                        self matches Json::Array(b) && b == a,
                        out@.len() == i,
                        forall|k: int| 0 <= k < i ==> (#[trigger] out@[k])@ == a@[k]@,
                    decreases a@.len() - i,
                {
                    proof {
                        assert(decreases_to!(self => a));
                        assert(decreases_to!(a => a@));
                        assert(decreases_to!(a@ => a@[i as int]));
                    }
                    let v = a[i].clone();
                    out.push(v);
                    i += 1;
                }
                proof {
                    assert(items(out@) =~= items(a@));
                }
                Json::Array(out)
            },
            Json::Object(m) => {
                let mut out: Vec<(String, Json)> = Vec::new();
                let mut i: usize = 0;
                while i < m.len()
                    invariant
                        i <= m@.len(),
                        self matches Json::Object(b) && b == m,
                        out@.len() == i,
                        members(out@) == members(m@.take(i as int)),
                    decreases m@.len() - i,
                {
                    proof {
                        assert(decreases_to!(self => m));
                        assert(decreases_to!(m => m@));
                        assert(decreases_to!(m@ => m@[i as int]));
                        assert(decreases_to!(m@[i as int] => m@[i as int].1));
                    }
                    let ghost before = out@;
                    let v = m[i].1.clone();
                    out.push((m[i].0.clone(), v));
                    i += 1;
                    proof {
                        let now = m@.take(i as int);
                        assert(now.drop_last() =~= m@.take(i - 1));
                        assert(out@.drop_last() =~= before);
                    }
                }
                proof {
                    assert(m@.take(m@.len() as int) =~= m@);
                }
                Json::Object(out)
            },
        }
    }
}

/// No text holds a control character.
pub open spec fn no_controls(texts: Seq<Seq<char>>) -> bool {
    forall|i: int, j: int|
        0 <= i < texts.len() && 0 <= j < texts[i].len() ==> #[trigger] texts[i][j] as u32 >= 0x20
}

/// The marks between the parts of a JSON text, character by character.
proof fn lemma_marks()
    ensures
        "["@ == seq!['['],
        "]"@ == seq![']'],
        "{"@ == seq!['{'],
        "}"@ == seq!['}'],
        ","@ == seq![','],
        ":"@ == seq![':'],
{
    reveal_strlit("[");
    reveal_strlit("]");
    reveal_strlit("{");
    reveal_strlit("}");
    reveal_strlit(",");
    reveal_strlit(":");
    assert("["@ =~= seq!['[']);
    assert("]"@ =~= seq![']']);
    assert("{"@ =~= seq!['{']);
    assert("}"@ =~= seq!['}']);
    assert(","@ =~= seq![',']);
    assert(":"@ =~= seq![':']);
}

/// Texts without control characters, joined by commas, hold none.
proof fn lemma_joined_no_controls(texts: Seq<Seq<char>>)
    requires
        no_controls(texts),
    ensures
        forall|i: int|
            0 <= i < text::joined(texts, ","@).len() ==> #[trigger] text::joined(
                texts,
                ","@,
            )[i] as u32 >= 0x20,
    decreases texts.len(),
{
    lemma_marks();
    if texts.len() == 1 {
        assert forall|i: int| 0 <= i < texts[0].len() implies #[trigger] texts[0][i] as u32
            >= 0x20 by {}
    } else if texts.len() > 1 {
        let before = texts.drop_last();
        assert forall|i: int, j: int| 0 <= i < before.len() && 0 <= j < before[i].len() implies (
        #[trigger] before[i][j]) as u32 >= 0x20 by {
            assert(before[i] == texts[i]);
            assert(texts[i][j] as u32 >= 0x20);
        }
        lemma_joined_no_controls(before);
        let head = text::joined(before, ","@);
        let whole = text::joined(texts, ","@);
        assert forall|i: int| 0 <= i < whole.len() implies #[trigger] whole[i] as u32 >= 0x20 by {
            if i < head.len() {
                assert(whole[i] == head[i]);
            } else if i > head.len() {
                let last = texts.len() - 1;
                assert(whole[i] == texts[last][i - head.len() - 1]);
            }
        }
    }
}

/// The texts joined by commas, between two marks.
fn enclosed(open_mark: &str, texts: &Vec<String>, close_mark: &str) -> (r: String)
    requires
        open_mark@.len() == 1 && open_mark@[0] as u32 >= 0x20,
        close_mark@.len() == 1 && close_mark@[0] as u32 >= 0x20,
        no_controls(text::views(texts@)),
    ensures
        r@ == open_mark@ + text::joined(text::views(texts@), ","@) + close_mark@,
        r@[0] == open_mark@[0],
        forall|i: int| 0 <= i < r@.len() ==> #[trigger] r@[i] as u32 >= 0x20,
{
    let mut out: String = open_mark.to_owned();
    let inner = text::join(texts, ",");
    out.append(inner.as_str());
    out.append(close_mark);
    proof {
        lemma_joined_no_controls(text::views(texts@));
        let r = out@;
        assert forall|i: int| 0 <= i < r.len() implies #[trigger] r[i] as u32 >= 0x20 by {
            if i > 0 && i < r.len() - 1 {
                assert(r[i] == inner@[i - 1]);
            }
        }
    }
    out
}

/// The member of `v` with this key, where `v` is an object that has one.
pub open spec fn field(v: JsonView, key: Seq<char>) -> Option<JsonView> {
    match v {
        JsonView::Object(m) => if m.dom().contains(key) {
            Some(m[key])
        } else {
            None
        },
        _ => None,
    }
}

/// The text of that member, where it is a string.
pub open spec fn text_field(v: JsonView, key: Seq<char>) -> Option<Seq<char>> {
    match field(v, key) {
        Some(JsonView::Text(t)) => Some(t),
        _ => None,
    }
}

/// The items of that member, where it is an array.
pub open spec fn array_field(v: JsonView, key: Seq<char>) -> Option<Seq<JsonView>> {
    match field(v, key) {
        Some(JsonView::Array(a)) => Some(a),
        _ => None,
    }
}

/// That member, where it is an object itself.
pub open spec fn object_field(v: JsonView, key: Seq<char>) -> Option<JsonView> {
    match field(v, key) {
        Some(JsonView::Object(m)) => Some(JsonView::Object(m)),
        _ => None,
    }
}

/// The truth value of that member, where it is a boolean.
pub open spec fn bool_field(v: JsonView, key: Seq<char>) -> Option<bool> {
    match field(v, key) {
        Some(JsonView::Bool(b)) => Some(b),
        _ => None,
    }
}

/// `v` with the member `key` set to `x`, where `v` is an object.
pub open spec fn with_field(v: JsonView, key: Seq<char>, x: JsonView) -> JsonView {
    match v {
        JsonView::Object(m) => JsonView::Object(m.insert(key, x)),
        _ => v,
    }
}

/// `v` without the member `key`, where `v` is an object.
pub open spec fn without_field(v: JsonView, key: Seq<char>) -> JsonView {
    match v {
        JsonView::Object(m) => JsonView::Object(m.remove(key)),
        _ => v,
    }
}

/// A list of members makes a finite object.
proof fn lemma_members_finite(s: Seq<(String, Json)>)
    ensures
        members(s).dom().finite(),
    decreases s.len(),
{
    if s.len() > 0 {
        lemma_members_finite(s.drop_last());
    }
}

/// A list of members without the key makes an object without it.
proof fn lemma_members_absent(s: Seq<(String, Json)>, key: Seq<char>)
    requires
        forall|i: int| 0 <= i < s.len() ==> (#[trigger] s[i]).0@ != key,
    ensures
        !members(s).dom().contains(key),
    decreases s.len(),
{
    if s.len() > 0 {
        assert(s[s.len() - 1].0@ != key);
        assert forall|i: int| 0 <= i < s.drop_last().len() implies (
        #[trigger] s.drop_last()[i]).0@ != key by {
            assert(s[i].0@ != key);
        }
        lemma_members_absent(s.drop_last(), key);
    }
}

/// The last member with a key is the one that counts.
proof fn lemma_members_last(s: Seq<(String, Json)>, i: int)
    requires
        0 <= i < s.len(),
        forall|j: int| i < j < s.len() ==> (#[trigger] s[j]).0@ != s[i].0@,
    ensures
        members(s).dom().contains(s[i].0@),
        members(s)[s[i].0@] == s[i].1@,
    decreases s.len(),
{
    if i < s.len() - 1 {
        let t = s.drop_last();
        assert(t[i] == s[i]);
        assert forall|j: int| i < j < t.len() implies (#[trigger] t[j]).0@ != t[i].0@ by {
            assert(s[j].0@ != s[i].0@);
        }
        lemma_members_last(t, i);
        assert(s[s.len() - 1].0@ != s[i].0@);
    }
}

/// Removing a member touches no other key.
proof fn lemma_members_remove(s: Seq<(String, Json)>, i: int)
    requires
        0 <= i < s.len(),
    ensures
        members(s.remove(i)).remove(s[i].0@) == members(s).remove(s[i].0@),
    decreases s.len(),
{
    let k = s[i].0@;
    let t = s.drop_last();
    if i == s.len() - 1 {
        assert(s.remove(i) =~= t);
        assert(members(t).insert(k, s[i].1@).remove(k) =~= members(t).remove(k));
    } else {
        let r = s.remove(i);
        assert(r.drop_last() =~= t.remove(i));
        assert(r.last() == s.last());
        assert(t[i] == s[i]);
        lemma_members_remove(t, i);
        let kl = s.last().0@;
        let x = s.last().1@;
        if kl == k {
            assert(members(t.remove(i)).insert(k, x).remove(k) =~= members(t.remove(i)).remove(k));
            assert(members(t).insert(k, x).remove(k) =~= members(t).remove(k));
        } else {
            assert(members(t.remove(i)).insert(kl, x).remove(k) =~= members(t.remove(i)).remove(
                k,
            ).insert(kl, x));
            assert(members(t).insert(kl, x).remove(k) =~= members(t).remove(k).insert(kl, x));
        }
    }
}

impl Json {
    /// A string.
    pub fn text(s: &str) -> (r: Json)
        ensures
            r@ == JsonView::Text(s@),
    {
        Json::Text(s.to_owned())
    }

    /// An integer.
    pub fn integer(n: i64) -> (r: Json)
        ensures
            r@ == JsonView::Num(NumView::Int(n as int)),
    {
        Json::Num(number_of_i64(n))
    }

    /// An integer that is not negative.
    pub fn unsigned(n: u64) -> (r: Json)
        ensures
            r@ == JsonView::Num(NumView::Int(n as int)),
    {
        Json::Num(number_of_u64(n))
    }

    /// The empty object.
    pub fn object() -> (r: Json)
        ensures
            r@ == JsonView::Object(Map::empty()),
    {
        Json::Object(Vec::new())
    }

    /// An array with one item.
    pub fn single(item: Json) -> (r: Json)
        ensures
            r@ == JsonView::Array(seq![item@]),
    {
        let mut v: Vec<Json> = Vec::new();
        v.push(item);
        proof {
            assert(items(v@) =~= seq![item@]);
        }
        Json::Array(v)
    }

    /// The value without the member `key`.
    pub fn without(self, key: &str) -> (r: Json)
        ensures
            r@ == without_field(self@, key@),
    {
        match self {
            Json::Object(list) => {
                let ghost whole = members(list@);
                let mut m = list;
                let mut i: usize = 0;
                while i < m.len()
                    invariant
                        i <= m@.len(),
                        members(m@).remove(key@) == whole.remove(key@),
                        forall|j: int| 0 <= j < i ==> (#[trigger] m@[j]).0@ != key@,
                    decreases m@.len() - i,
                {
                    if text::same(m[i].0.as_str(), key) {
                        proof {
                            lemma_members_remove(m@, i as int);
                        }
                        let _gone = m.remove(i);
                    } else {
                        i += 1;
                    }
                }
                proof {
                    lemma_members_absent(m@, key@);
                    assert(members(m@).remove(key@) =~= members(m@));
                }
                Json::Object(m)
            },
            other => other,
        }
    }

    /// The value with the member `key` set.
    pub fn with(self, key: &str, value: Json) -> (r: Json)
        ensures
            r@ == with_field(self@, key@, value@),
    {
        let ghost whole = self@;
        match self.without(key) {
            Json::Object(list) => {
                let mut m = list;
                m.push((key.to_owned(), value));
                proof {
                    assert(m@.drop_last() =~= list@);
                    assert(members(m@) =~= whole->Object_0.insert(key@, value@));
                }
                Json::Object(m)
            },
            other => other,
        }
    }

    /// The member `key`.
    pub fn get(&self, key: &str) -> (r: Option<&Json>)
        ensures
            match r {
                Some(j) => field(self@, key@) == Some(j@),
                None => field(self@, key@) is None,
            },
    {
        match self {
            Json::Object(m) => {
                let mut i: usize = m.len();
                while i > 0
                    invariant
                        i <= m@.len(),
                        self@ == JsonView::Object(members(m@)),
                        forall|j: int| i <= j < m@.len() ==> (#[trigger] m@[j]).0@ != key@,
                    decreases i,
                {
                    i -= 1;
                    if text::same(m[i].0.as_str(), key) {
                        proof {
                            lemma_members_last(m@, i as int);
                        }
                        return Some(&m[i].1);
                    }
                }
                proof {
                    lemma_members_absent(m@, key@);
                }
                None
            },
            _ => None,
        }
    }

    /// The text of the member `key`, where it is a string.
    pub fn get_str(&self, key: &str) -> (r: Option<&str>)
        ensures
            match r {
                Some(t) => text_field(self@, key@) == Some(t@),
                None => text_field(self@, key@) is None,
            },
    {
        match self.get(key) {
            Some(Json::Text(t)) => Some(t.as_str()),
            _ => None,
        }
    }

    /// The items of the member `key`, where it is an array.
    pub fn get_array(&self, key: &str) -> (r: Option<&Vec<Json>>)
        ensures
            match r {
                Some(a) => array_field(self@, key@) == Some(items(a@)),
                None => array_field(self@, key@) is None,
            },
    {
        match self.get(key) {
            Some(Json::Array(a)) => Some(a),
            _ => None,
        }
    }

    /// The member `key`, where it is an object.
    pub fn get_object(&self, key: &str) -> (r: Option<&Json>)
        ensures
            match r {
                Some(j) => object_field(self@, key@) == Some(j@),
                None => object_field(self@, key@) is None,
            },
    {
        match self.get(key) {
            Some(j) => if j.is_object() {
                Some(j)
            } else {
                None
            },
            None => None,
        }
    }

    /// The member `key`, where it is a boolean.
    pub fn get_bool(&self, key: &str) -> (r: Option<bool>)
        ensures
            r == bool_field(self@, key@),
    {
        match self.get(key) {
            Some(Json::Bool(b)) => Some(*b),
            _ => None,
        }
    }

    /// Whether the value is an object.
    pub fn is_object(&self) -> (r: bool)
        ensures
            r == (self@ is Object),
    {
        match self {
            Json::Object(_) => true,
            _ => false,
        }
    }

    /// Whether the value is `null`.
    pub fn is_null(&self) -> (r: bool)
        ensures
            r == (self@ is Null),
    {
        match self {
            Json::Null => true,
            _ => false,
        }
    }

    /// The text of a string.
    pub fn as_str(&self) -> (r: Option<&str>)
        ensures
            match r {
                Some(t) => self@ == JsonView::Text(t@),
                None => !(self@ is Text),
            },
    {
        match self {
            Json::Text(t) => Some(t.as_str()),
            _ => None,
        }
    }

    /// The compact JSON text of the value, with the members of every object in
    /// this order. A member whose key is not in it is left out.
    pub fn to_ordered_text(&self, order: &Vec<&'static str>) -> (r: String)
        ensures
            r@ == ordered_text(self@, text::slices(order@)),
            r@.len() > 0,
            forall|i: int| 0 <= i < r@.len() ==> #[trigger] r@[i] as u32 >= 0x20,
            self@ is Object ==> r@[0] == '{',
        decreases self@,
    {
        let ghost whole = self@;
        let ghost keys = text::slices(order@);
        proof {
            lemma_marks();
        }
        match self {
            Json::Array(a) => {
                let ghost parts = whole->Array_0;
                let mut texts: Vec<String> = Vec::new();
                let mut i: usize = 0;
                while i < a.len()
                    invariant
                        i <= a@.len(),
                        whole == self@,
                        whole == JsonView::Array(items(a@)),
                        parts == items(a@),
                        keys == text::slices(order@),
                        texts@.len() == i,
                        forall|k: int|
                            0 <= k < i ==> (#[trigger] texts@[k])@ == ordered_text(parts[k], keys),
                        no_controls(text::views(texts@)),
                    decreases a@.len() - i,
                {
                    let ghost before = text::views(texts@);
                    proof {
                        let inner = whole->Array_0;
                        assert(inner[i as int] == a@[i as int]@);
                        assert(decreases_to!(whole => inner));
                        assert(decreases_to!(inner => inner[i as int]));
                    }
                    let t = a[i].to_ordered_text(order);
                    texts.push(t);
                    proof {
                        assert(text::views(texts@) =~= before.push(t@));
                    }
                    i += 1;
                }
                proof {
                    assert(text::views(texts@) =~= ordered_items(parts, keys));
                }
                enclosed("[", &texts, "]")
            },
            Json::Object(m) => {
                let ghost map = members(m@);
                let mut texts: Vec<String> = Vec::new();
                let mut i: usize = 0;
                while i < order.len()
                    invariant
                        i <= order@.len(),
                        whole == self@,
                        whole == JsonView::Object(map),
                        map == members(m@),
                        keys == text::slices(order@),
                        texts@.len() == present(map, keys.take(i as int)).len(),
                        forall|k: int|
                            0 <= k < texts@.len() ==> is_member_text(
                                (#[trigger] texts@[k])@,
                                map,
                                present(map, keys.take(i as int))[k],
                                keys,
                            ),
                        no_controls(text::views(texts@)),
                    decreases order@.len() - i,
                {
                    let ghost before = text::views(texts@);
                    let key: &'static str = order[i];
                    proof {
                        lemma_marks();
                        assert(keys.take(i + 1).drop_last() =~= keys.take(i as int));
                        assert(keys.take(i + 1).last() == key@);
                    }
                    match self.get(key) {
                        Some(j) => {
                            proof {
                                let inner = whole->Object_0;
                                lemma_members_finite(m@);
                                assert(inner[key@] == j@);
                                assert(decreases_to!(whole => inner));
                                assert(decreases_to!(inner => inner[key@]));
                            }
                            let mut t = Json::text(key).to_text();
                            t.append(":");
                            let value = j.to_ordered_text(order);
                            t.append(value.as_str());
                            texts.push(t);
                            proof {
                                assert(is_member_text(t@, map, key@, keys));
                                assert(text::views(texts@) =~= before.push(t@));
                            }
                        },
                        None => {},
                    }
                    i += 1;
                }
                proof {
                    lemma_members_finite(m@);
                    assert(keys.take(i as int) =~= keys);
                    assert(text::views(texts@) =~= ordered_members(map, keys));
                }
                enclosed("{", &texts, "}")
            },
            _ => self.to_text(),
        }
    }

    /// The value read as a text.
    pub fn read_text(&self) -> (r: Result<String, String>)
        ensures
            match r {
                Ok(t) => as_text(self@) == Ok::<Seq<char>, Seq<char>>(t@),
                Err(m) => as_text(self@) == Err::<Seq<char>, Seq<char>>(m@),
            },
    {
        match value_as_text(self.to_value()) {
            Ok(t) => Ok(t),
            Err(e) => Err(error_message(&e)),
        }
    }

    /// The value read as a count that may be `null`.
    pub fn read_unsigned(&self) -> (r: Result<Option<u64>, String>)
        ensures
            match r {
                Ok(n) => as_unsigned(self@) == Ok::<Option<u64>, Seq<char>>(n),
                Err(m) => as_unsigned(self@) == Err::<Option<u64>, Seq<char>>(m@),
            },
    {
        match value_as_unsigned(self.to_value()) {
            Ok(n) => Ok(n),
            Err(e) => Err(error_message(&e)),
        }
    }

    /// The value read as a count that may be `null`.
    pub fn read_signed(&self) -> (r: Result<Option<i64>, String>)
        ensures
            match r {
                Ok(n) => as_signed(self@) == Ok::<Option<i64>, Seq<char>>(n),
                Err(m) => as_signed(self@) == Err::<Option<i64>, Seq<char>>(m@),
            },
    {
        match value_as_signed(self.to_value()) {
            Ok(n) => Ok(n),
            Err(e) => Err(error_message(&e)),
        }
    }

    /// The items of an array.
    pub fn as_array(&self) -> (r: Option<&Vec<Json>>)
        ensures
            match r {
                Some(a) => self@ == JsonView::Array(items(a@)),
                None => !(self@ is Array),
            },
    {
        match self {
            Json::Array(a) => Some(a),
            _ => None,
        }
    }
}

} // verus!
