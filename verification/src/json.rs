//! JSON values as the provider reads and writes them.
//!
//! [`Json`] is the library's own tree of plain values; its model is
//! [`JsonView`]. [`Json::from_value`] reads a `serde_json::Value` into it.

use crate::double::{
    law_at_least_is_by_the_whole_part, law_negative_numbers_survive, law_whole_numbers_survive,
    lemma_nearest_bits_bound, nearest_bits, Double, SIGN_BIT,
};
use crate::string_map::{ascending, Copied};
use crate::text::str_eq;
use vstd::prelude::*;

verus! {

/// A JSON number: an integer in one of the two 64-bit ranges, or a double.
#[derive(Clone, Copy, PartialEq, Eq, Structural, Debug)]
pub enum JsonNumber {
    /// Zero or a positive integer.
    PosInt(u64),
    /// A negative integer.
    NegInt(i64),
    /// A number written with a fraction or an exponent.
    Float(Double),
}

impl JsonNumber {
    /// The double nearest to the number.
    pub open spec fn double(self) -> Double {
        match self {
            JsonNumber::PosInt(n) => Double { bits: nearest_bits(n as nat) as u64 },
            JsonNumber::NegInt(n) => if n < 0 {
                Double { bits: (nearest_bits((-n) as nat) + SIGN_BIT) as u64 }
            } else {
                Double { bits: nearest_bits(n as nat) as u64 }
            },
            JsonNumber::Float(d) => d,
        }
    }

    /// The number as a signed 64-bit integer, where it is one.
    pub open spec fn signed(self) -> Option<i64> {
        match self {
            JsonNumber::PosInt(n) => if n <= i64::MAX {
                Some(n as i64)
            } else {
                None
            },
            JsonNumber::NegInt(n) => Some(n),
            JsonNumber::Float(_) => None,
        }
    }

    /// The double nearest to the number.
    pub fn to_double(&self) -> (d: Double)
        ensures
            d == self.double(),
    {
        match *self {
            JsonNumber::PosInt(n) => Double::from_u64(n),
            JsonNumber::NegInt(n) => if n < 0 {
                Double::from_negative(n)
            } else {
                Double::from_u64(n as u64)
            },
            JsonNumber::Float(d) => d,
        }
    }

    /// The number as a signed 64-bit integer, where it is one.
    pub fn as_i64(&self) -> (n: Option<i64>)
        ensures
            n == self.signed(),
    {
        match *self {
            JsonNumber::PosInt(n) => if n <= i64::MAX as u64 {
                Some(n as i64)
            } else {
                None
            },
            JsonNumber::NegInt(n) => Some(n),
            JsonNumber::Float(_) => None,
        }
    }
}

/// The model of a JSON value. The entries of an object stand in the order in
/// which they are walked.
pub enum JsonView {
    Null,
    Bool(bool),
    Number(JsonNumber),
    Text(Seq<char>),
    Array(Seq<JsonView>),
    Object(Seq<(Seq<char>, JsonView)>),
}

/// The value that the first entry under `key` holds.
pub open spec fn entry_under(entries: Seq<(Seq<char>, JsonView)>, key: Seq<char>) -> Option<
    JsonView,
>
    decreases entries.len(),
{
    if entries.len() == 0 {
        None
    } else if entries[0].0 == key {
        Some(entries[0].1)
    } else {
        entry_under(entries.skip(1), key)
    }
}

impl JsonView {
    /// The Boolean, where the value is one.
    pub open spec fn truth(self) -> Option<bool> {
        match self {
            JsonView::Bool(b) => Some(b),
            _ => None,
        }
    }

    /// The unsigned integer, where the value is one.
    pub open spec fn unsigned(self) -> Option<u64> {
        match self {
            JsonView::Number(JsonNumber::PosInt(n)) => Some(n),
            _ => None,
        }
    }

    /// The signed integer, where the value is one.
    pub open spec fn signed(self) -> Option<i64> {
        match self {
            JsonView::Number(n) => n.signed(),
            _ => None,
        }
    }

    /// The number as a double, where the value is a number.
    pub open spec fn double(self) -> Option<Double> {
        match self {
            JsonView::Number(n) => Some(n.double()),
            _ => None,
        }
    }

    /// The text, where the value is a string.
    pub open spec fn text(self) -> Option<Seq<char>> {
        match self {
            JsonView::Text(s) => Some(s),
            _ => None,
        }
    }

    /// The items, where the value is an array.
    pub open spec fn items(self) -> Option<Seq<JsonView>> {
        match self {
            JsonView::Array(items) => Some(items),
            _ => None,
        }
    }

    /// The entries, where the value is an object.
    pub open spec fn entries(self) -> Option<Seq<(Seq<char>, JsonView)>> {
        match self {
            JsonView::Object(entries) => Some(entries),
            _ => None,
        }
    }

    /// The value of the field `key`, where the value is an object that has it.
    pub open spec fn field(self, key: Seq<char>) -> Option<JsonView> {
        match self {
            JsonView::Object(entries) => entry_under(entries, key),
            _ => None,
        }
    }

    /// The text of the field `key`, where it is a string.
    pub open spec fn field_text(self, key: Seq<char>) -> Option<Seq<char>> {
        match self.field(key) {
            Some(v) => v.text(),
            None => None,
        }
    }

    /// The unsigned integer of the field `key`, where it is one.
    pub open spec fn field_unsigned(self, key: Seq<char>) -> Option<u64> {
        match self.field(key) {
            Some(v) => v.unsigned(),
            None => None,
        }
    }

    /// The signed integer of the field `key`, where it is one.
    pub open spec fn field_signed(self, key: Seq<char>) -> Option<i64> {
        match self.field(key) {
            Some(v) => v.signed(),
            None => None,
        }
    }

    /// The Boolean of the field `key`, where it is one.
    pub open spec fn field_truth(self, key: Seq<char>) -> Option<bool> {
        match self.field(key) {
            Some(v) => v.truth(),
            None => None,
        }
    }
}

/// The JSON number for a signed integer.
pub open spec fn integer_json(n: int) -> JsonView {
    if n >= 0 {
        JsonView::Number(JsonNumber::PosInt(n as u64))
    } else {
        JsonView::Number(JsonNumber::NegInt(n as i64))
    }
}

/// The JSON value for a double: a number, or null where it is not finite.
pub open spec fn double_json(d: Double) -> JsonView {
    if d.nan() || d.infinite() {
        JsonView::Null
    } else {
        JsonView::Number(JsonNumber::Float(d))
    }
}

/// A JSON value.
#[derive(Debug)]
pub enum Json {
    Null,
    Bool(bool),
    Number(JsonNumber),
    Text(String),
    Array(Vec<Json>),
    /// The entries of an object, in the order in which they are walked.
    Object(Vec<(String, Json)>),
}

/// The model of a JSON value.
pub open spec fn json_view(j: Json) -> JsonView
    decreases j,
{
    match j {
        Json::Null => JsonView::Null,
        Json::Bool(b) => JsonView::Bool(b),
        Json::Number(n) => JsonView::Number(n),
        Json::Text(s) => JsonView::Text(s@),
        Json::Array(items) => JsonView::Array(
            Seq::new(
                items@.len(),
                |i: int|
                    if 0 <= i < items@.len() {
                        json_view(items[i])
                    } else {
                        JsonView::Null
                    },
            ),
        ),
        Json::Object(entries) => JsonView::Object(
            Seq::new(
                entries@.len(),
                |i: int|
                    if 0 <= i < entries@.len() {
                        (entries[i].0@, json_view(entries[i].1))
                    } else {
                        (Seq::empty(), JsonView::Null)
                    },
            ),
        ),
    }
}

impl View for Json {
    type V = JsonView;

    open spec fn view(&self) -> JsonView {
        json_view(*self)
    }
}

impl Clone for Json {
    fn clone(&self) -> (copy: Json)
        ensures
            copy@ == self@,
        decreases self,
    {
        match self {
            Json::Null => Json::Null,
            Json::Bool(b) => Json::Bool(*b),
            Json::Number(n) => Json::Number(*n),
            Json::Text(s) => Json::Text(s.clone()),
            Json::Array(items) => {
                let mut out: Vec<Json> = Vec::new();
                let n: usize = items.len();
                let mut i: usize = 0;
                while i < n
                    invariant
                        i <= n,
                        n == items@.len(),
                        self == Json::Array(*items),
                        out@.len() == i,
                        forall|k: int|
                            0 <= k < i ==> json_view(#[trigger] out@[k]) == json_view(items@[k]),
                    decreases n - i,
                {
                    proof {
                        let whole = *self;
                        assert(decreases_to!(whole => whole->Array_0));
                        assert(decreases_to!(whole->Array_0 => whole->Array_0[i as int]));
                    }
                    out.push(items[i].clone());
                    i += 1;
                }
                let copy = Json::Array(out);
                assert(copy@->Array_0 =~= self@->Array_0);
                copy
            },
            Json::Object(entries) => {
                let mut out: Vec<(String, Json)> = Vec::new();
                let n: usize = entries.len();
                let mut i: usize = 0;
                while i < n
                    invariant
                        i <= n,
                        n == entries@.len(),
                        self == Json::Object(*entries),
                        out@.len() == i,
                        forall|k: int|
                            0 <= k < i ==> (#[trigger] out@[k]).0@ == entries@[k].0@ && json_view(
                                out@[k].1,
                            ) == json_view(entries@[k].1),
                    decreases n - i,
                {
                    proof {
                        let whole = *self;
                        assert(decreases_to!(whole => whole->Object_0));
                        assert(decreases_to!(whole->Object_0 => whole->Object_0[i as int]));
                        assert(decreases_to!(whole->Object_0 => whole->Object_0[i as int].1));
                    }
                    out.push((entries[i].0.clone(), entries[i].1.clone()));
                    i += 1;
                }
                let copy = Json::Object(out);
                assert(copy@->Object_0 =~= self@->Object_0);
                copy
            },
        }
    }
}

impl Json {
    /// A JSON string.
    pub fn from_text(s: &str) -> (j: Json)
        ensures
            j@ == JsonView::Text(s@),
    {
        Json::Text(s.to_owned())
    }

    /// A JSON number from a signed integer.
    pub fn from_i32(n: i32) -> (j: Json)
        ensures
            j@ == integer_json(n as int),
    {
        if n >= 0 {
            Json::Number(JsonNumber::PosInt(n as u64))
        } else {
            Json::Number(JsonNumber::NegInt(n as i64))
        }
    }

    /// A JSON value from a double: a number, or null where it is not finite.
    pub fn from_double(d: Double) -> (j: Json)
        ensures
            j@ == double_json(d),
    {
        if d.is_finite() {
            Json::Number(JsonNumber::Float(d))
        } else {
            Json::Null
        }
    }

    /// The Boolean, where the value is one.
    pub fn as_bool(&self) -> (b: Option<bool>)
        ensures
            b == self@.truth(),
    {
        match self {
            Json::Bool(b) => Some(*b),
            _ => None,
        }
    }

    /// The unsigned integer, where the value is one.
    pub fn as_u64(&self) -> (n: Option<u64>)
        ensures
            n == self@.unsigned(),
    {
        match self {
            Json::Number(JsonNumber::PosInt(n)) => Some(*n),
            _ => None,
        }
    }

    /// The signed integer, where the value is one.
    pub fn as_i64(&self) -> (n: Option<i64>)
        ensures
            n == self@.signed(),
    {
        match self {
            Json::Number(n) => n.as_i64(),
            _ => None,
        }
    }

    /// The number as a double, where the value is a number.
    pub fn as_double(&self) -> (d: Option<Double>)
        ensures
            d == self@.double(),
    {
        match self {
            Json::Number(n) => Some(n.to_double()),
            _ => None,
        }
    }

    /// The text, where the value is a string.
    pub fn as_str(&self) -> (s: Option<&str>)
        ensures
            s is Some <==> self@.text() is Some,
            s matches Some(t) ==> self@.text() == Some(t@),
    {
        match self {
            Json::Text(s) => Some(s.as_str()),
            _ => None,
        }
    }

    /// The items, where the value is an array.
    pub fn as_array(&self) -> (items: Option<&Vec<Json>>)
        ensures
            match items {
                Some(v) => self@.items() matches Some(s) && s.len() == v@.len() && forall|i: int|
                    0 <= i < v@.len() ==> s[i] == (#[trigger] v@[i])@,
                None => self@.items() is None,
            },
    {
        match self {
            Json::Array(items) => Some(items),
            _ => None,
        }
    }

    /// The entries, where the value is an object.
    pub fn as_object(&self) -> (entries: Option<&Vec<(String, Json)>>)
        ensures
            match entries {
                Some(v) => self@.entries() matches Some(s) && s.len() == v@.len() && forall|i: int|
                    0 <= i < v@.len() ==> s[i] == ((#[trigger] v@[i]).0@, v@[i].1@),
                None => self@.entries() is None,
            },
    {
        match self {
            Json::Object(entries) => Some(entries),
            _ => None,
        }
    }

    /// The value of the field `key`, where the value is an object that has it.
    pub fn get(&self, key: &str) -> (value: Option<&Json>)
        ensures
            match value {
                Some(v) => self@.field(key@) == Some(v@),
                None => self@.field(key@) is None,
            },
    {
        match self {
            Json::Object(entries) => {
                let ghost all = self@->Object_0;
                let n: usize = entries.len();
                let mut i: usize = 0;
                proof {
                    assert(all.skip(0) =~= all);
                }
                while i < n
                    invariant
                        i <= n,
                        n == entries@.len(),
                        self == Json::Object(*entries),
                        all == self@->Object_0,
                        entry_under(all, key@) == entry_under(all.skip(i as int), key@),
                    decreases n - i,
                {
                    assert(all[i as int] == (entries@[i as int].0@, entries@[i as int].1@));
                    assert(all.skip(i as int)[0] == all[i as int]);
                    if str_eq(entries[i].0.as_str(), key) {
                        return Some(&entries[i].1);
                    }
                    assert(all.skip(i as int).skip(1) =~= all.skip(i + 1));
                    i += 1;
                }
                None
            },
            _ => None,
        }
    }

    /// The text of the field `key`, where it is a string.
    pub fn get_str(&self, key: &str) -> (s: Option<&str>)
        ensures
            s is Some <==> self@.field_text(key@) is Some,
            s matches Some(t) ==> self@.field_text(key@) == Some(t@),
    {
        match self.get(key) {
            Some(v) => v.as_str(),
            None => None,
        }
    }

    /// The unsigned integer of the field `key`, where it is one.
    pub fn get_u64(&self, key: &str) -> (n: Option<u64>)
        ensures
            n == self@.field_unsigned(key@),
    {
        match self.get(key) {
            Some(v) => v.as_u64(),
            None => None,
        }
    }

    /// The signed integer of the field `key`, where it is one.
    pub fn get_i64(&self, key: &str) -> (n: Option<i64>)
        ensures
            n == self@.field_signed(key@),
    {
        match self.get(key) {
            Some(v) => v.as_i64(),
            None => None,
        }
    }

    /// The Boolean of the field `key`, where it is one.
    pub fn get_bool(&self, key: &str) -> (b: Option<bool>)
        ensures
            b == self@.field_truth(key@),
    {
        match self.get(key) {
            Some(v) => v.as_bool(),
            None => None,
        }
    }
}

/// `serde_json::Value`, carried as it is.
#[verifier::external_type_specification]
#[verifier::external_body]
pub struct ExValue(serde_json::Value);

/// What a `serde_json::Value` holds: its tree of plain values, the entries of
/// an object in the order in which its map is walked.
pub uninterp spec fn value_contents(v: serde_json::Value) -> JsonView;

/// `serde_json::Value::as_bool`: the Boolean, where the value is one.
pub assume_specification[ serde_json::Value::as_bool ](v: &serde_json::Value) -> (b: Option<bool>)
    ensures
        b == value_contents(*v).truth(),
;

/// `serde_json::Value::as_u64`: the unsigned integer, where the value is one.
/// A number with a fraction or an exponent is none.
pub assume_specification[ serde_json::Value::as_u64 ](v: &serde_json::Value) -> (n: Option<u64>)
    ensures
        n == value_contents(*v).unsigned(),
;

/// `serde_json::Value::as_i64`: the signed integer, where the value is one
/// that fits. A number with a fraction or an exponent is none.
pub assume_specification[ serde_json::Value::as_i64 ](v: &serde_json::Value) -> (n: Option<i64>)
    ensures
        n == value_contents(*v).signed(),
;

/// `serde_json::Value::as_str`: the text, where the value is a string.
pub assume_specification[ serde_json::Value::as_str ](v: &serde_json::Value) -> (s: Option<&str>)
    ensures
        s is Some <==> value_contents(*v).text() is Some,
        s matches Some(t) ==> value_contents(*v).text() == Some(t@),
;

/// `serde_json::Value::as_array`: the items, where the value is an array.
pub assume_specification[ serde_json::Value::as_array ](v: &serde_json::Value) -> (items: Option<
    &Vec<serde_json::Value>,
>)
    ensures
        match items {
            Some(a) => value_contents(*v).items() matches Some(s) && s.len() == a@.len()
                && forall|i: int|
                0 <= i < a@.len() ==> s[i] == value_contents(#[trigger] a@[i]),
            None => value_contents(*v).items() is None,
        },
;

/// `serde_json::Value::as_f64`, its result given by its bit pattern: the
/// number as a double, where the value is a number. An integer becomes the
/// double nearest to it.
#[verifier::external_body]
fn value_double_bits(v: &serde_json::Value) -> (bits: Option<u64>)
    ensures
        bits == match value_contents(*v).double() {
            Some(d) => Some(d.bits),
            None => None,
        },
{
    v.as_f64().map(|x| x.to_bits())
}

/// `serde_json::Value::as_object`, its map walked with `serde_json::Map::iter`:
/// the entries, where the value is an object.
#[verifier::external_body]
fn value_entries(v: &serde_json::Value) -> (entries: Option<Vec<(&String, &serde_json::Value)>>)
    ensures
        match entries {
            Some(a) => value_contents(*v).entries() matches Some(s) && s.len() == a@.len()
                && forall|i: int|
                0 <= i < a@.len() ==> s[i] == ((#[trigger] a@[i]).0@, value_contents(*a@[i].1)),
            None => value_contents(*v).entries() is None,
        },
{
    v.as_object().map(|m| m.iter().collect())
}

/// `serde_json::Value::from` on a text: the string.
#[verifier::external_body]
pub(crate) fn value_from_text(text: &str) -> (v: serde_json::Value)
    ensures
        value_contents(v) == JsonView::Text(text@),
{
    serde_json::Value::from(text)
}

/// `serde_json::Value::from` on an unsigned integer: the number.
#[verifier::external_body]
pub(crate) fn value_from_u32(n: u32) -> (v: serde_json::Value)
    ensures
        value_contents(v) == JsonView::Number(JsonNumber::PosInt(n as u64)),
{
    serde_json::Value::from(n)
}

/// `serde_json::Number::from_f64` on the default of its argument's type, which
/// is zero, made a value: the number with a fraction that is zero.
#[verifier::external_body]
pub(crate) fn value_zero() -> (v: serde_json::Value)
    ensures
        value_contents(v) == JsonView::Number(JsonNumber::Float(Double { bits: 0 })),
{
    serde_json::Value::from(serde_json::Number::from_f64(Default::default()))
}

/// `serde_json::Value::from` on a vector of values: the array of them.
#[verifier::external_body]
pub(crate) fn value_from_items(items: Vec<serde_json::Value>) -> (v: serde_json::Value)
    ensures
        value_contents(v) == JsonView::Array(
            items@.map_values(|item: serde_json::Value| value_contents(item)),
        ),
{
    serde_json::Value::from(items)
}

/// `serde_json::Value::from_iter` on keys and values: the object of them. Its
/// map is walked in the order of its keys, which is the order given where that
/// ascends.
#[verifier::external_body]
pub(crate) fn value_from_fields(fields: Vec<(String, serde_json::Value)>) -> (v: serde_json::Value)
    requires
        ascending(fields@),
    ensures
        value_contents(v) == JsonView::Object(
            fields@.map_values(|f: (String, serde_json::Value)| (f.0@, value_contents(f.1))),
        ),
{
    serde_json::Value::from_iter(fields)
}

/// `clone` of a `serde_json::Value`: a value with the same contents.
#[verifier::external_body]
pub(crate) fn value_copy(v: &serde_json::Value) -> (copy: serde_json::Value)
    ensures
        value_contents(copy) == value_contents(*v),
{
    v.clone()
}

/// What `serde_json::to_string` makes of a value with these contents: its JSON
/// text.
pub uninterp spec fn written_json(contents: JsonView) -> Seq<char>;

/// `serde_json::to_string` on a `serde_json::Value`: it succeeds, since a
/// value holds only what JSON can express and its keys are strings, and the
/// text, which is never empty, depends on what the value holds.
#[verifier::external_body]
pub(crate) fn value_to_string(v: &serde_json::Value) -> (text: Option<String>)
    ensures
        text is Some,
        text->0@ == written_json(value_contents(*v)),
        text->0@.len() > 0,
{
    serde_json::to_string(v).ok()
}

impl Copied for Json {
    fn copied(&self) -> (copy: Json) {
        self.clone()
    }
}

impl Json {
    /// Reads a `serde_json::Value` into a tree of the library's own.
    pub fn from_value(v: &serde_json::Value) -> (j: Json)
        ensures
            j@ == value_contents(*v),
        decreases value_contents(*v), 1nat,
    {
        if let Some(b) = v.as_bool() {
            return Json::Bool(b);
        }
        if let Some(n) = v.as_u64() {
            return Json::Number(JsonNumber::PosInt(n));
        }
        if let Some(n) = v.as_i64() {
            return Json::Number(JsonNumber::NegInt(n));
        }
        if let Some(bits) = value_double_bits(v) {
            return Json::Number(JsonNumber::Float(Double { bits }));
        }
        if let Some(s) = v.as_str() {
            return Json::Text(s.to_owned());
        }
        if let Some(items) = v.as_array() {
            return Json::from_values(v, items);
        }
        if let Some(entries) = value_entries(v) {
            return Json::from_entries(v, &entries);
        }
        Json::Null
    }

    fn from_values(v: &serde_json::Value, items: &Vec<serde_json::Value>) -> (j: Json)
        requires
            value_contents(*v).items() matches Some(s) && s.len() == items@.len() && forall|i: int|
                0 <= i < items@.len() ==> s[i] == value_contents(#[trigger] items@[i]),
        ensures
            j@ == value_contents(*v),
        decreases value_contents(*v), 0nat,
    {
        let ghost all = value_contents(*v)->Array_0;
        let mut out: Vec<Json> = Vec::new();
        let n: usize = items.len();
        let mut i: usize = 0;
        while i < n
            invariant
                i <= n,
                n == items@.len(),
                value_contents(*v) == JsonView::Array(all),
                all.len() == n,
                forall|k: int| 0 <= k < n ==> all[k] == value_contents(#[trigger] items@[k]),
                out@.len() == i,
                forall|k: int| 0 <= k < i ==> json_view(#[trigger] out@[k]) == all[k],
            decreases n - i,
        {
            proof {
                let whole = value_contents(*v);
                assert(decreases_to!(whole => whole->Array_0));
                assert(decreases_to!(whole => whole->Array_0[i as int]));
            }
            out.push(Json::from_value(&items[i]));
            i += 1;
        }
        let j = Json::Array(out);
        assert(j@->Array_0 =~= all);
        j
    }

    fn from_entries(v: &serde_json::Value, entries: &Vec<(&String, &serde_json::Value)>) -> (j:
        Json)
        requires
            value_contents(*v).entries() matches Some(s) && s.len() == entries@.len()
                && forall|i: int|
                0 <= i < entries@.len() ==> s[i] == (
                    (#[trigger] entries@[i]).0@,
                    value_contents(*entries@[i].1),
                ),
        ensures
            j@ == value_contents(*v),
        decreases value_contents(*v), 0nat,
    {
        let ghost all = value_contents(*v)->Object_0;
        let mut out: Vec<(String, Json)> = Vec::new();
        let n: usize = entries.len();
        let mut i: usize = 0;
        while i < n
            invariant
                i <= n,
                n == entries@.len(),
                value_contents(*v) == JsonView::Object(all),
                all.len() == n,
                forall|k: int|
                    0 <= k < n ==> all[k] == (
                        (#[trigger] entries@[k]).0@,
                        value_contents(*entries@[k].1),
                    ),
                out@.len() == i,
                forall|k: int|
                    0 <= k < i ==> ((#[trigger] out@[k]).0@, json_view(out@[k].1)) == all[k],
            decreases n - i,
        {
            proof {
                let whole = value_contents(*v);
                assert(decreases_to!(whole => whole->Object_0));
                assert(decreases_to!(whole => whole->Object_0[i as int]));
                assert(decreases_to!(whole => whole->Object_0[i as int].1));
            }
            out.push((entries[i].0.clone(), Json::from_value(entries[i].1)));
            i += 1;
        }
        let j = Json::Object(out);
        assert(j@->Object_0 =~= all);
        j
    }
}

// ---------------------------------------------------------------------------
// Laws
// ---------------------------------------------------------------------------

/// The value is an object, and under `key` it holds `v` and nothing else.
pub open spec fn holds(value: JsonView, key: Seq<char>, v: JsonView) -> bool {
    &&& value is Object
    &&& exists|k: int| 0 <= k < value->Object_0.len() && #[trigger] value->Object_0[k] == (key, v)
    &&& forall|k: int|
        0 <= k < value->Object_0.len() && (#[trigger] value->Object_0[k]).0 == key
            ==> value->Object_0[k].1 == v
}

/// The value holds nothing under `key`: it is no object, or has no such entry.
pub open spec fn lacks(value: JsonView, key: Seq<char>) -> bool {
    value is Object ==> forall|k: int|
        0 <= k < value->Object_0.len() ==> (#[trigger] value->Object_0[k]).0 != key
}

/// What an object holds under a key is read as its field, wherever the entry
/// stands; where it holds nothing there, there is no field.
pub proof fn law_fields(value: JsonView, key: Seq<char>)
    ensures
        forall|v: JsonView| #[trigger] holds(value, key, v) ==> value.field(key) == Some(v),
        lacks(value, key) ==> value.field(key) is None,
        value.field(key) is None ==> lacks(value, key),
{
    if value is Object {
        lemma_entry_under(value->Object_0, key);
    }
}

proof fn lemma_entry_under(entries: Seq<(Seq<char>, JsonView)>, key: Seq<char>)
    ensures
        entry_under(entries, key) is None <==> forall|k: int|
            0 <= k < entries.len() ==> (#[trigger] entries[k]).0 != key,
        entry_under(entries, key) matches Some(v) ==> exists|k: int|
            0 <= k < entries.len() && #[trigger] entries[k] == (key, v),
    decreases entries.len(),
{
    if entries.len() > 0 && entries[0].0 != key {
        let rest = entries.skip(1);
        lemma_entry_under(rest, key);
        assert forall|k: int| 0 <= k < rest.len() implies #[trigger] rest[k] == entries[k + 1] by {}
        if let Some(v) = entry_under(rest, key) {
            let k = choose|k: int| 0 <= k < rest.len() && #[trigger] rest[k] == (key, v);
            assert(entries[k + 1] == (key, v));
        } else {
            assert forall|k: int| 0 <= k < entries.len() implies (#[trigger] entries[k]).0
                != key by {
                if k > 0 {
                    assert(rest[k - 1] == entries[k]);
                }
            }
        }
    } else if entries.len() > 0 {
        assert(entries[0] == (key, entries[0].1));
    }
}

/// A field is read as what it is and as nothing else: a text as a text, a
/// Boolean as a Boolean, an integer that is not negative as an unsigned and as
/// a signed integer as far as each reaches, a negative integer as a signed one.
pub proof fn law_field_kinds(value: JsonView, key: Seq<char>, s: Seq<char>, b: bool, n: u64, m: i64)
    ensures
        holds(value, key, JsonView::Text(s)) ==> {
            &&& value.field_text(key) == Some(s)
            &&& value.field_truth(key) is None
            &&& value.field_unsigned(key) is None
            &&& value.field_signed(key) is None
        },
        holds(value, key, JsonView::Bool(b)) ==> {
            &&& value.field_text(key) is None
            &&& value.field_truth(key) == Some(b)
            &&& value.field_unsigned(key) is None
            &&& value.field_signed(key) is None
        },
        holds(value, key, JsonView::Number(JsonNumber::PosInt(n))) ==> {
            &&& value.field_text(key) is None
            &&& value.field_truth(key) is None
            &&& value.field_unsigned(key) == Some(n)
            &&& n <= 0x7fff_ffff_ffff_ffff ==> value.field_signed(key) == Some(n as i64)
            &&& n > 0x7fff_ffff_ffff_ffff ==> value.field_signed(key) is None
        },
        holds(value, key, JsonView::Number(JsonNumber::NegInt(m))) ==> {
            &&& value.field_text(key) is None
            &&& value.field_truth(key) is None
            &&& value.field_unsigned(key) is None
            &&& value.field_signed(key) == Some(m)
        },
        lacks(value, key) ==> {
            &&& value.field_text(key) is None
            &&& value.field_truth(key) is None
            &&& value.field_unsigned(key) is None
            &&& value.field_signed(key) is None
        },
{
    law_fields(value, key);
}

/// An integer that is written as a number is read back: as a signed integer
/// always, as an unsigned one where it is not negative, and as a double that
/// cut back is the integer, as far as `i32` reaches.
pub proof fn law_integers_are_read_back(n: i64)
    ensures
        integer_json(n as int).signed() == Some(n),
        n >= 0 ==> integer_json(n as int).unsigned() == Some(n as u64),
        n < 0 ==> integer_json(n as int).unsigned() is None,
        integer_json(n as int).truth() is None,
        integer_json(n as int).text() is None,
        integer_json(n as int).double() is Some,
        -0x7fff_ffff < n <= 0x7fff_ffff ==> integer_json(n as int).double()->0.truncated() == n,
        !integer_json(n as int).double()->0.nan(),
        !integer_json(n as int).double()->0.infinite(),
        integer_json(n as int).double()->0.zero() <==> n == 0,
        integer_json(n as int).double()->0.negative() <==> n < 0,
{
    let d = integer_json(n as int).double()->0;
    if n >= 0 {
        lemma_nearest_bits_bound(n as nat);
        law_whole_numbers_survive(n as u64, d);
    } else {
        lemma_nearest_bits_bound((-n) as nat);
        law_negative_numbers_survive(n, d);
    }
}

/// A double that is written as a number is read back as it was, where it is
/// finite; else it is written as null, which is no number.
pub proof fn law_doubles_are_read_back(d: Double)
    ensures
        !d.nan() && !d.infinite() ==> double_json(d).double() == Some(d),
        d.nan() || d.infinite() ==> double_json(d).double() is None && double_json(d) is Null,
        double_json(d).unsigned() is None,
        double_json(d).signed() is None,
{
}

/// A whole number taken as a double lies on the side of zero, and of a positive
/// integer, that the number lies on.
pub proof fn law_integer_sides(n: i64, k: i32)
    requires
        0 < k < 0x7fff_ffff,
        -0x8000_0000 <= n <= 0x7fff_ffff,
    ensures
        ({
            let d = integer_json(n as int).double()->0;
            &&& d.below_zero() <==> n < 0
            &&& d.at_most_zero() <==> n <= 0
            &&& d.at_least(k as int) <==> n >= k
        }),
{
    let d = integer_json(n as int).double()->0;
    law_integers_are_read_back(n);
    law_at_least_is_by_the_whole_part(d, k);
}

} // verus!
