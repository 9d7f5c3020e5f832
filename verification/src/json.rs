//! JSON values, and the binary64 numbers that texts denote.

use vstd::prelude::*;

use crate::double::Double;
use crate::numerals::{i64_text, u64_text};
use crate::table::position;
use crate::text::{chars_of, owned};

verus! {

// ---------------------------------------------------------------------------
// Numbers
// ---------------------------------------------------------------------------

/// A binary64 number with the shortest decimal text that denotes it, written
/// without an exponent.
#[derive(Debug, PartialEq)]
pub struct Real {
    pub value: Double,
    pub display: String,
}

/// What a `Real` stands for.
pub struct RealView {
    pub value: Double,
    pub display: Seq<char>,
}

impl View for Real {
    type V = RealView;

    open spec fn view(&self) -> RealView {
        RealView { value: self.value, display: self.display@ }
    }
}

impl Real {
    /// A copy of this number.
    pub fn copy(&self) -> (r: Real)
        ensures
            r@ == self@,
    {
        Real { value: self.value, display: owned(self.display.as_str()) }
    }
}

/// A JSON number. A `Float` carries its JSON text along.
#[derive(Debug, PartialEq)]
pub enum Number {
    PosInt(u64),
    NegInt(i64),
    Float { number: Real, json: String },
}

/// What a `Number` stands for.
pub enum Numeral {
    PosInt(u64),
    NegInt(i64),
    Float { number: RealView, json: Seq<char> },
}

impl View for Number {
    type V = Numeral;

    open spec fn view(&self) -> Numeral {
        match *self {
            Number::PosInt(n) => Numeral::PosInt(n),
            Number::NegInt(n) => Numeral::NegInt(n),
            Number::Float { number, json } => Numeral::Float { number: number@, json: json@ },
        }
    }
}

impl Numeral {
    /// The text of this number.
    pub open spec fn text(self) -> Seq<char> {
        match self {
            Numeral::PosInt(n) => crate::numerals::nat_text(n as nat),
            Numeral::NegInt(n) => crate::numerals::int_text(n as int),
            Numeral::Float { number, json } => json,
        }
    }

    /// This number as a binary64 number.
    pub open spec fn double(self) -> Double {
        match self {
            Numeral::PosInt(n) => Double::of_int(n as int),
            Numeral::NegInt(n) => Double::of_int(n as int),
            Numeral::Float { number, json } => number.value,
        }
    }

    /// This number as an `i64`, where it is an integer in that range.
    pub open spec fn integer(self) -> Option<i64> {
        match self {
            Numeral::PosInt(n) => if n <= i64::MAX {
                Some(n as i64)
            } else {
                None
            },
            Numeral::NegInt(n) => Some(n),
            Numeral::Float { number, json } => None,
        }
    }

    /// The number for the integer `i`.
    pub open spec fn of_int(i: i64) -> Numeral {
        if i < 0 {
            Numeral::NegInt(i)
        } else {
            Numeral::PosInt(i as u64)
        }
    }
}

impl Number {
    /// The text of this number.
    pub fn to_text(&self) -> (r: String)
        ensures
            r@ == self@.text(),
    {
        match self {
            Number::PosInt(n) => u64_text(*n),
            Number::NegInt(n) => i64_text(*n),
            Number::Float { number, json } => owned(json.as_str()),
        }
    }

    /// This number as a binary64 number.
    pub fn as_double(&self) -> (r: Double)
        ensures
            r == self@.double(),
    {
        match self {
            Number::PosInt(n) => Double::from_u64(*n),
            Number::NegInt(n) => Double::from_i64(*n),
            Number::Float { number, json } => number.value,
        }
    }

    /// This number as an `i64`, where it is an integer in that range.
    pub fn as_i64(&self) -> (r: Option<i64>)
        ensures
            r == self@.integer(),
    {
        match self {
            Number::PosInt(n) => if *n <= 0x7fff_ffff_ffff_ffff {
                Some(*n as i64)
            } else {
                None
            },
            Number::NegInt(n) => Some(*n),
            Number::Float { number, json } => None,
        }
    }

    /// The number for the integer `i`.
    pub fn from_i64(i: i64) -> (r: Number)
        ensures
            r@ == Numeral::of_int(i),
    {
        if i < 0 {
            Number::NegInt(i)
        } else {
            Number::PosInt(i as u64)
        }
    }

    /// A copy of this number.
    pub fn copy(&self) -> (r: Number)
        ensures
            r@ == self@,
    {
        match self {
            Number::PosInt(n) => Number::PosInt(*n),
            Number::NegInt(n) => Number::NegInt(*n),
            Number::Float { number, json } => Number::Float {
                number: number.copy(),
                json: owned(json.as_str()),
            },
        }
    }
}

/// The binary64 numbers that texts denote; a text that is not listed denotes
/// none.
#[derive(Debug)]
pub struct NumberTable {
    pub entries: Vec<(String, Real)>,
}

/// What the first entry for `text` holds.
pub open spec fn listed(entries: Seq<(String, Real)>, text: Seq<char>) -> Option<RealView> {
    match crate::table::index_of(crate::table::keys(entries), text) {
        Some(i) => Some(entries[i].1@),
        None => None,
    }
}

/// `numbers`, but that `text` denotes `number`.
pub open spec fn reading(
    numbers: spec_fn(Seq<char>) -> Option<RealView>,
    text: Seq<char>,
    number: RealView,
) -> spec_fn(Seq<char>) -> Option<RealView> {
    |t: Seq<char>|
        if t == text {
            Some(number)
        } else {
            numbers(t)
        }
}

impl View for NumberTable {
    type V = spec_fn(Seq<char>) -> Option<RealView>;

    open spec fn view(&self) -> spec_fn(Seq<char>) -> Option<RealView> {
        |text: Seq<char>| listed(self.entries@, text)
    }
}

impl NumberTable {
    /// A table without entries.
    pub fn new() -> (r: NumberTable)
        ensures
            forall|text: Seq<char>| #[trigger] (r@)(text) is None,
    {
        NumberTable { entries: Vec::new() }
    }

    /// Lists the number that `text` denotes, unless it is listed.
    pub fn list(&mut self, text: &str, number: Real)
        ensures
            forall|t: Seq<char>| #[trigger]
                (final(self)@)(t) == if t == text@ && (old(self)@)(t) is None {
                    Some(number@)
                } else {
                    (old(self)@)(t)
                },
    {
        let ghost before = self.entries@;
        self.entries.push((owned(text), number));
        proof {
            let was = crate::table::keys(before);
            let now = crate::table::keys(self.entries@);
            assert(now =~= was.push(text@));
            assert forall|t: Seq<char>| #[trigger]
                (self@)(t) == if t == text@ && listed(before, t) is None {
                    Some(number@)
                } else {
                    listed(before, t)
                } by {
                crate::table::lemma_index_from(was, t, 0);
                crate::table::lemma_index_from(now, t, 0);
                if t == text@ {
                    assert(now[was.len() as int] == t);
                }
                if let Some(i) = crate::table::index_of(was, t) {
                    assert(now[i] == t);
                    let j = crate::table::index_of(now, t)->0;
                    assert(j <= i);
                    assert(was[j] == now[j]);
                    assert(i == j);
                }
            }
        }
    }

    /// Lists the number that `text` denotes, in place of what is listed for it.
    pub fn relist(&mut self, text: &str, number: Real)
        ensures
            final(self)@ == reading(old(self)@, text@, number@),
    {
        let ghost before = self.entries@;
        let ghost was = crate::table::keys(before);
        match position(&self.entries, text) {
            Some(i) => {
                self.entries.set(i, (owned(text), number));
                proof {
                    crate::table::lemma_index_from(was, text@, 0);
                    let now = crate::table::keys(self.entries@);
                    assert(now =~= was);
                    assert forall|t: Seq<char>| #[trigger]
                        (self@)(t) == reading(old(self)@, text@, number@)(t) by {
                        crate::table::lemma_index_from(was, t, 0);
                    }
                }
            },
            None => {
                self.list(text, number);
            },
        }
        assert(self@ =~= reading(old(self)@, text@, number@));
    }

    /// A copy of this table.
    pub fn copy(&self) -> (r: NumberTable)
        ensures
            r@ == self@,
    {
        let mut entries: Vec<(String, Real)> = Vec::new();
        for i in 0..self.entries.len()
            invariant
                entries.len() == i,
                forall|j: int|
                    0 <= j < i ==> (#[trigger] entries@[j]).0@ == self.entries@[j].0@
                        && entries@[j].1@ == self.entries@[j].1@,
        {
            let e = &self.entries[i];
            entries.push((owned(e.0.as_str()), e.1.copy()));
        }
        let r = NumberTable { entries };
        proof {
            let keys = crate::table::keys(self.entries@);
            assert(crate::table::keys(r.entries@) =~= keys);
            assert forall|t: Seq<char>| #[trigger] (r@)(t) == (self@)(t) by {
                crate::table::lemma_index_from(keys, t, 0);
            }
            assert(r@ =~= self@);
        }
        r
    }

    /// The number that `text` denotes.
    pub fn get(&self, text: &str) -> (r: Option<&Real>)
        ensures
            match r {
                Some(n) => (self@)(text@) == Some(n@),
                None => (self@)(text@) is None,
            },
    {
        match position(&self.entries, text) {
            Some(i) => Some(&self.entries[i].1),
            None => None,
        }
    }
}

// ---------------------------------------------------------------------------
// Values
// ---------------------------------------------------------------------------

/// A JSON value. The keys of an object are distinct.
#[derive(Debug, PartialEq)]
pub enum Value {
    Null,
    Bool(bool),
    Number(Number),
    String(String),
    Array(Vec<Value>),
    Object(Vec<(String, Value)>),
}

/// What a `Value` stands for.
#[verifier::ext_equal]
pub enum Json {
    Null,
    Bool(bool),
    Number(Numeral),
    Text(Seq<char>),
    List(Seq<Json>),
    Record(Seq<(Seq<char>, Json)>),
}

/// What `v` stands for.
pub open spec fn json_of(v: Value) -> Json
    decreases v,
{
    match v {
        Value::Null => Json::Null,
        Value::Bool(b) => Json::Bool(b),
        Value::Number(n) => Json::Number(n@),
        Value::String(s) => Json::Text(s@),
        Value::Array(a) => Json::List(
            Seq::new(
                a@.len(),
                |i: int|
                    if 0 <= i < a@.len() {
                        json_of(a@[i])
                    } else {
                        Json::Null
                    },
            ),
        ),
        Value::Object(o) => Json::Record(
            Seq::new(
                o@.len(),
                |i: int|
                    if 0 <= i < o@.len() {
                        (o@[i].0@, json_of(o@[i].1))
                    } else {
                        (Seq::empty(), Json::Null)
                    },
            ),
        ),
    }
}

impl View for Value {
    type V = Json;

    open spec fn view(&self) -> Json {
        json_of(*self)
    }
}

/// The views of a list of values.
pub open spec fn jsons(v: Seq<Value>) -> Seq<Json> {
    v.map_values(|x: Value| x@)
}

/// The keys of an object.
pub open spec fn record_keys(fields: Seq<(Seq<char>, Json)>) -> Seq<Seq<char>> {
    fields.map_values(|f: (Seq<char>, Json)| f.0)
}

impl Json {
    /// The text, where this is one.
    pub open spec fn text(self) -> Option<Seq<char>> {
        match self {
            Json::Text(s) => Some(s),
            _ => None,
        }
    }

    /// The items, where this is a list.
    pub open spec fn items(self) -> Option<Seq<Json>> {
        match self {
            Json::List(a) => Some(a),
            _ => None,
        }
    }

    /// What stands under `key`, where this is an object that has the key.
    pub open spec fn field(self, key: Seq<char>) -> Option<Json> {
        match self {
            Json::Record(o) => match crate::table::index_of(record_keys(o), key) {
                Some(i) => Some(o[i].1),
                None => None,
            },
            _ => None,
        }
    }

    /// This number as an `i64`, where it is an integer in that range.
    pub open spec fn integer(self) -> Option<i64> {
        match self {
            Json::Number(n) => n.integer(),
            _ => None,
        }
    }

    /// This number as a binary64 number, where it is a number.
    pub open spec fn double(self) -> Option<Double> {
        match self {
            Json::Number(n) => Some(n.double()),
            _ => None,
        }
    }

    /// The object without fields.
    pub open spec fn empty() -> Json {
        Json::Record(Seq::empty())
    }

    /// This object with one more field.
    pub open spec fn with(self, key: Seq<char>, value: Json) -> Json {
        match self {
            Json::Record(o) => Json::Record(o.push((key, value))),
            _ => self,
        }
    }

    /// The texts in this list, in their order; none where this is no list.
    pub open spec fn text_items(self) -> Seq<Seq<char>> {
        match self {
            Json::List(a) => texts_among(a),
            _ => Seq::empty(),
        }
    }
}

/// The texts among the items, in their order.
pub open spec fn texts_among(items: Seq<Json>) -> Seq<Seq<char>>
    decreases items.len(),
{
    if items.len() == 0 {
        Seq::empty()
    } else {
        match items.last() {
            Json::Text(s) => texts_among(items.drop_last()).push(s),
            _ => texts_among(items.drop_last()),
        }
    }
}

impl Value {
    /// The text, where this is one.
    pub fn as_str(&self) -> (r: Option<&str>)
        ensures
            match r {
                Some(s) => self@.text() == Some(s@),
                None => self@.text() is None,
            },
    {
        match self {
            Value::String(s) => Some(s.as_str()),
            _ => None,
        }
    }

    /// The text, or an empty one where this is none.
    pub fn str_or_empty(&self) -> (r: &str)
        ensures
            r@ == (match self@.text() {
                Some(s) => s,
                None => Seq::empty(),
            }),
    {
        match self {
            Value::String(s) => s.as_str(),
            _ => {
                proof {
                    reveal_strlit("");
                }
                assert(""@ =~= Seq::<char>::empty());
                ""
            },
        }
    }

    /// The items, where this is a list.
    pub fn as_array(&self) -> (r: Option<&Vec<Value>>)
        ensures
            match r {
                Some(a) => self@.items() == Some(jsons(a@)),
                None => self@.items() is None,
            },
    {
        match self {
            Value::Array(a) => {
                assert(self@->List_0 =~= jsons(a@));
                Some(a)
            },
            _ => None,
        }
    }

    /// Whether this is an object.
    pub fn is_object(&self) -> (r: bool)
        ensures
            r == (self@ is Record),
    {
        match self {
            Value::Object(_) => true,
            _ => false,
        }
    }

    /// Whether this is null.
    pub fn is_null(&self) -> (r: bool)
        ensures
            r == (self@ is Null),
    {
        match self {
            Value::Null => true,
            _ => false,
        }
    }

    /// What stands under `key`, where this is an object that has the key.
    pub fn get(&self, key: &str) -> (r: Option<&Value>)
        ensures
            match r {
                Some(v) => self@.field(key@) == Some(v@),
                None => self@.field(key@) is None,
            },
    {
        match self {
            Value::Object(o) => {
                assert(record_keys(self@->Record_0) =~= crate::table::keys(o@));
                match position(o, key) {
                    Some(i) => Some(&o[i].1),
                    None => None,
                }
            },
            _ => None,
        }
    }

    /// This number as an `i64`, where it is an integer in that range.
    pub fn as_i64(&self) -> (r: Option<i64>)
        ensures
            r == self@.integer(),
    {
        match self {
            Value::Number(n) => n.as_i64(),
            _ => None,
        }
    }

    /// This number as a binary64 number, where it is a number.
    pub fn as_double(&self) -> (r: Option<Double>)
        ensures
            r == self@.double(),
    {
        match self {
            Value::Number(n) => Some(n.as_double()),
            _ => None,
        }
    }

    /// The texts in this list, in their order; none where this is no list.
    pub fn strings(&self) -> (r: Vec<String>)
        ensures
            crate::text::texts(r@) == self@.text_items(),
    {
        let mut out: Vec<String> = Vec::new();
        match self {
            Value::Array(a) => {
                let ghost items = self@->List_0;
                assert(items =~= jsons(a@));
                for i in 0..a.len()
                    invariant
                        items == jsons(a@),
                        crate::text::texts(out@) == texts_among(items.take(i as int)),
                {
                    assert(items.take(i + 1).drop_last() =~= items.take(i as int));
                    assert(items.take(i + 1).last() == a@[i as int]@);
                    let ghost before = out@;
                    match &a[i] {
                        Value::String(s) => {
                            out.push(owned(s.as_str()));
                            assert(crate::text::texts(out@) =~= crate::text::texts(before).push(s@));
                        },
                        _ => {},
                    }
                }
                assert(items.take(items.len() as int) =~= items);
            },
            _ => {
                assert(crate::text::texts(out@) =~= Seq::empty());
            },
        }
        out
    }

    /// A copy of this value.
    pub fn copy(&self) -> (r: Value)
        ensures
            r@ == self@,
        decreases self,
    {
        match self {
            Value::Null => Value::Null,
            Value::Bool(b) => Value::Bool(*b),
            Value::Number(n) => Value::Number(n.copy()),
            Value::String(s) => Value::String(owned(s.as_str())),
            Value::Array(a) => {
                let mut out: Vec<Value> = Vec::new();
                for i in 0..a.len()
                    invariant
                        *self == Value::Array(*a),
                        out.len() == i,
                        forall|j: int| 0 <= j < i ==> (#[trigger] out@[j])@ == a@[j]@,
                {
                    assert(decreases_to!(*self => self->Array_0@[i as int]));
                    out.push(a[i].copy());
                }
                let r = Value::Array(out);
                assert(r@->List_0 =~= self@->List_0);
                r
            },
            Value::Object(o) => {
                let mut out: Vec<(String, Value)> = Vec::new();
                for i in 0..o.len()
                    invariant
                        *self == Value::Object(*o),
                        out.len() == i,
                        forall|j: int| 0 <= j < i ==> (#[trigger] out@[j]).0@ == o@[j].0@,
                        forall|j: int| 0 <= j < i ==> (#[trigger] out@[j]).1@ == o@[j].1@,
                {
                    assert(decreases_to!(*self => self->Object_0@[i as int].1));
                    out.push((owned(o[i].0.as_str()), o[i].1.copy()));
                }
                let r = Value::Object(out);
                assert(r@->Record_0 =~= self@->Record_0);
                r
            },
        }
    }
}

// ---------------------------------------------------------------------------
// Building
// ---------------------------------------------------------------------------

/// The views of the fields of an object.
pub open spec fn fields(v: Seq<(String, Value)>) -> Seq<(Seq<char>, Json)> {
    v.map_values(|f: (String, Value)| (f.0@, f.1@))
}

/// The fields of an object before the first is added.
pub fn no_fields() -> (r: Vec<(String, Value)>)
    ensures
        fields(r@) == Seq::<(Seq<char>, Json)>::empty(),
{
    let r: Vec<(String, Value)> = Vec::new();
    assert(fields(r@) =~= Seq::empty());
    r
}

/// Adds a field to those of an object.
pub fn push_field(v: &mut Vec<(String, Value)>, key: &str, value: Value)
    ensures
        fields(final(v)@) == fields(old(v)@).push((key@, value@)),
{
    let ghost before = v@;
    v.push((owned(key), value));
    assert(fields(v@) =~= fields(before).push((key@, value@)));
}

/// The object with the fields.
pub fn object(v: Vec<(String, Value)>) -> (r: Value)
    ensures
        r@ == Json::Record(fields(v@)),
{
    let r = Value::Object(v);
    assert(r@->Record_0 =~= fields(v@));
    r
}

/// The list of the items.
pub fn list(v: Vec<Value>) -> (r: Value)
    ensures
        r@ == Json::List(jsons(v@)),
{
    let r = Value::Array(v);
    assert(r@->List_0 =~= jsons(v@));
    r
}

/// Adds an item to those of a list.
pub fn push_item(v: &mut Vec<Value>, item: Value)
    ensures
        jsons(final(v)@) == jsons(old(v)@).push(item@),
{
    let ghost before = v@;
    v.push(item);
    assert(jsons(v@) =~= jsons(before).push(item@));
}

/// The items of a list before the first is added.
pub fn no_items() -> (r: Vec<Value>)
    ensures
        jsons(r@) == Seq::<Json>::empty(),
{
    let r: Vec<Value> = Vec::new();
    assert(jsons(r@) =~= Seq::empty());
    r
}

/// The text `s`.
pub fn text(s: &str) -> (r: Value)
    ensures
        r@ == Json::Text(s@),
{
    Value::String(owned(s))
}

/// The integer `i`.
pub fn integer(i: i64) -> (r: Value)
    ensures
        r@ == Json::Number(Numeral::of_int(i)),
{
    Value::Number(Number::from_i64(i))
}

/// The texts as a list.
pub open spec fn texts_json(texts: Seq<Seq<char>>) -> Json {
    Json::List(texts.map_values(|s: Seq<char>| Json::Text(s)))
}

/// The texts as a list.
pub fn text_array(texts: &Vec<String>) -> (r: Value)
    ensures
        r@ == texts_json(crate::text::texts(texts@)),
{
    let ghost all = crate::text::texts(texts@);
    let ghost f = |s: Seq<char>| Json::Text(s);
    let mut v = no_items();
    for i in 0..texts.len()
        invariant
            all == crate::text::texts(texts@),
            f == |s: Seq<char>| Json::Text(s),
            jsons(v@) == all.take(i as int).map_values(f),
    {
        assert(all[i as int] == texts@[i as int]@);
        push_item(&mut v, text(texts[i].as_str()));
        assert(all.take(i + 1).map_values(f) =~= all.take(i as int).map_values(f).push(
            f(all[i as int]),
        ));
    }
    assert(all.take(all.len() as int) =~= all);
    list(v)
}

/// The object with one field.
pub fn object1(key: &str, value: Value) -> (r: Value)
    ensures
        r@ == Json::empty().with(key@, value@),
{
    let mut v = no_fields();
    push_field(&mut v, key, value);
    object(v)
}

// ---------------------------------------------------------------------------
// Writing
// ---------------------------------------------------------------------------

/// The hexadecimal digit for `n`, in lower case.
pub open spec fn hex_digit(n: int) -> char
    recommends
        0 <= n < 16,
{
    if n < 10 {
        (48 + n) as char
    } else {
        (87 + n) as char
    }
}

/// The character as it stands in a JSON string.
pub open spec fn json_escape(c: char) -> Seq<char> {
    if c == '"' {
        seq!['\\', '"']
    } else if c == '\\' {
        seq!['\\', '\\']
    } else if c == '\u{8}' {
        seq!['\\', 'b']
    } else if c == '\u{c}' {
        seq!['\\', 'f']
    } else if c == '\n' {
        seq!['\\', 'n']
    } else if c == '\r' {
        seq!['\\', 'r']
    } else if c == '\t' {
        seq!['\\', 't']
    } else if (c as u32) < 32 {
        seq!['\\', 'u', '0', '0', hex_digit(c as int / 16), hex_digit(c as int % 16)]
    } else {
        seq![c]
    }
}

/// `s` as a JSON string.
pub open spec fn quoted(s: Seq<char>) -> Seq<char> {
    seq!['"'] + crate::text::spelled(s, |c: char| json_escape(c)) + seq!['"']
}

/// The compact JSON text of `j`.
pub open spec fn json_text(j: Json) -> Seq<char>
    decreases j,
{
    match j {
        Json::Null => "null"@,
        Json::Bool(b) => if b {
            "true"@
        } else {
            "false"@
        },
        Json::Number(n) => n.text(),
        Json::Text(s) => quoted(s),
        Json::List(a) => seq!['['] + crate::text::joined(item_texts(a), seq![',']) + seq![']'],
        Json::Record(o) => seq!['{'] + crate::text::joined(field_texts(o), seq![',']) + seq!['}'],
    }
}

/// The compact JSON texts of the items of a list.
pub open spec fn item_texts(items: Seq<Json>) -> Seq<Seq<char>>
    decreases items,
{
    Seq::new(
        items.len(),
        |i: int|
            if 0 <= i < items.len() {
                json_text(items[i])
            } else {
                Seq::empty()
            },
    )
}

/// The compact JSON texts of the fields of an object.
pub open spec fn field_texts(fields: Seq<(Seq<char>, Json)>) -> Seq<Seq<char>>
    decreases fields,
{
    Seq::new(
        fields.len(),
        |i: int|
            if 0 <= i < fields.len() {
                quoted(fields[i].0) + seq![':'] + json_text(fields[i].1)
            } else {
                Seq::empty()
            },
    )
}

fn hex(n: u8) -> (r: char)
    requires
        n < 16,
    ensures
        r == hex_digit(n as int),
{
    if n < 10 {
        (48 + n) as char
    } else {
        (87 + n) as char
    }
}

fn push_escaped(out: &mut String, c: char)
    ensures
        final(out)@ == old(out)@ + json_escape(c),
{
    let ghost before = out@;
    if c == '"' || c == '\\' {
        out.push('\\');
        out.push(c);
    } else if c == '\u{8}' {
        out.push('\\');
        out.push('b');
    } else if c == '\u{c}' {
        out.push('\\');
        out.push('f');
    } else if c == '\n' {
        out.push('\\');
        out.push('n');
    } else if c == '\r' {
        out.push('\\');
        out.push('r');
    } else if c == '\t' {
        out.push('\\');
        out.push('t');
    } else if (c as u32) < 32 {
        let n: u8 = c as u8;
        out.push('\\');
        out.push('u');
        out.push('0');
        out.push('0');
        out.push(hex(n / 16));
        out.push(hex(n % 16));
    } else {
        out.push(c);
    }
    assert(out@ =~= before + json_escape(c));
}

/// `s` as a JSON string.
pub fn quote(s: &str) -> (r: String)
    ensures
        r@ == quoted(s@),
{
    let v = chars_of(s);
    let ghost f = |c: char| json_escape(c);
    let mut out: String = String::new();
    out.push('"');
    assert(out@ =~= seq!['"'] + crate::text::spelled(s@.take(0), f));
    for i in 0..v.len()
        invariant
            v@ == s@,
            f == |c: char| json_escape(c),
            out@ == seq!['"'] + crate::text::spelled(s@.take(i as int), f),
    {
        push_escaped(&mut out, v[i]);
        proof {
            assert(s@.take(i + 1).drop_last() =~= s@.take(i as int));
            assert(out@ =~= seq!['"'] + crate::text::spelled(s@.take(i + 1), f));
        }
    }
    assert(s@.take(s@.len() as int) =~= s@);
    out.push('"');
    assert(out@ =~= quoted(s@));
    out
}

impl Value {
    /// The compact JSON text of this value.
    pub fn to_text(&self) -> (r: String)
        ensures
            r@ == json_text(self@),
        decreases self,
    {
        match self {
            Value::Null => owned("null"),
            Value::Bool(b) => if *b {
                owned("true")
            } else {
                owned("false")
            },
            Value::Number(n) => n.to_text(),
            Value::String(s) => quote(s.as_str()),
            Value::Array(a) => {
                let mut parts: Vec<String> = Vec::new();
                let ghost items = self@->List_0;
                for i in 0..a.len()
                    invariant
                        *self == Value::Array(*a),
                        items == self@->List_0,
                        parts.len() == i,
                        forall|j: int| 0 <= j < i ==> (#[trigger] parts@[j])@ == json_text(items[j]),
                {
                    assert(decreases_to!(*self => self->Array_0@[i as int]));
                    parts.push(a[i].to_text());
                }
                let ghost wanted = item_texts(items);
                assert(crate::text::texts(parts@) =~= wanted);
                let mut out: String = String::new();
                out.push('[');
                proof {
                    reveal_strlit(",");
                }
                assert(","@ =~= seq![',']);
                out.append(crate::text::join(&parts, ",").as_str());
                out.push(']');
                assert(out@ =~= seq!['['] + crate::text::joined(wanted, seq![',']) + seq![']']);
                out
            },
            Value::Object(o) => {
                let mut parts: Vec<String> = Vec::new();
                let ghost fields = self@->Record_0;
                for i in 0..o.len()
                    invariant
                        *self == Value::Object(*o),
                        fields == self@->Record_0,
                        parts.len() == i,
                        forall|j: int|
                            0 <= j < i ==> (#[trigger] parts@[j])@ == quoted(fields[j].0) + seq![':']
                                + json_text(fields[j].1),
                {
                    assert(decreases_to!(*self => self->Object_0@[i as int].1));
                    let mut part: String = quote(o[i].0.as_str());
                    part.push(':');
                    part.append(o[i].1.to_text().as_str());
                    assert(part@ =~= quoted(fields[i as int].0) + seq![':'] + json_text(
                        fields[i as int].1,
                    ));
                    parts.push(part);
                }
                let ghost wanted = field_texts(fields);
                assert(crate::text::texts(parts@) =~= wanted);
                let mut out: String = String::new();
                out.push('{');
                proof {
                    reveal_strlit(",");
                }
                assert(","@ =~= seq![',']);
                out.append(crate::text::join(&parts, ",").as_str());
                out.push('}');
                assert(out@ =~= seq!['{'] + crate::text::joined(wanted, seq![',']) + seq!['}']);
                out
            },
        }
    }
}

} // verus!
