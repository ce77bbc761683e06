//! JSON values: the mathematical model, the values themselves, and how they are
//! read and built.

use vstd::prelude::*;

use crate::text::{decimal, i64_text, same, u64_text, view_all, view_opt};

verus! {

/// A JSON number. The library computes with unsigned numbers only; of a number
/// with a fraction or an exponent it keeps the text.
#[derive(Debug, PartialEq, Eq)]
pub enum Number {
    PosInt(u64),
    NegInt(i64),
    Float(String),
}

/// A JSON value. The entries of an object keep their order, and the first entry
/// of a name is the one that counts.
#[derive(Debug, PartialEq, Eq)]
pub enum Value {
    Null,
    Bool(bool),
    Number(Number),
    String(String),
    Array(Vec<Value>),
    Object(Vec<(String, Value)>),
}

/// The model of a JSON value.
pub enum Json {
    Null,
    Bool(bool),
    Unsigned(nat),
    Negative(int),
    Fraction(Seq<char>),
    Text(Seq<char>),
    Array(Seq<Json>),
    Object(Seq<(Seq<char>, Json)>),
}

pub open spec fn number_model(n: Number) -> Json {
    match n {
        Number::PosInt(n) => Json::Unsigned(n as nat),
        Number::NegInt(n) => Json::Negative(n as int),
        Number::Float(s) => Json::Fraction(s@),
    }
}

pub open spec fn model(v: Value) -> Json
    decreases v,
{
    match v {
        Value::Null => Json::Null,
        Value::Bool(b) => Json::Bool(b),
        Value::Number(n) => number_model(n),
        Value::String(s) => Json::Text(s@),
        Value::Array(items) => Json::Array(
            Seq::new(
                items@.len(),
                |i: int|
                    if 0 <= i < items@.len() {
                        model(items@[i])
                    } else {
                        Json::Null
                    },
            ),
        ),
        Value::Object(entries) => Json::Object(
            Seq::new(
                entries@.len(),
                |i: int|
                    if 0 <= i < entries@.len() {
                        (entries@[i].0@, model(entries@[i].1))
                    } else {
                        (Seq::empty(), Json::Null)
                    },
            ),
        ),
    }
}

impl View for Value {
    type V = Json;

    open spec fn view(&self) -> Json {
        model(*self)
    }
}

// ---------------------------------------------------------------------------
// Reading
// ---------------------------------------------------------------------------

/// The value of the first entry called `name`.
pub open spec fn first_entry(entries: Seq<(Seq<char>, Json)>, name: Seq<char>) -> Option<Json>
    decreases entries.len(),
{
    if entries.len() == 0 {
        None
    } else if entries[0].0 == name {
        Some(entries[0].1)
    } else {
        first_entry(entries.skip(1), name)
    }
}

/// The member `name` of an object; nothing for any other value.
pub open spec fn member(j: Json, name: Seq<char>) -> Option<Json> {
    match j {
        Json::Object(entries) => first_entry(entries, name),
        _ => None,
    }
}

/// The member of a value that may be absent.
pub open spec fn member_of(j: Option<Json>, name: Seq<char>) -> Option<Json> {
    match j {
        Some(j) => member(j, name),
        None => None,
    }
}

/// The characters of a string.
pub open spec fn text(j: Json) -> Option<Seq<char>> {
    match j {
        Json::Text(s) => Some(s),
        _ => None,
    }
}

pub open spec fn text_of(j: Option<Json>) -> Option<Seq<char>> {
    match j {
        Some(j) => text(j),
        None => None,
    }
}

/// The elements of an array.
pub open spec fn elements(j: Json) -> Option<Seq<Json>> {
    match j {
        Json::Array(items) => Some(items),
        _ => None,
    }
}

/// An owned copy of a borrowed string that may be absent.
pub fn owned(s: Option<&str>) -> (r: Option<String>)
    ensures
        view_opt(r) == view_opt(s),
{
    match s {
        Some(s) => Some(s.to_owned()),
        None => None,
    }
}

/// The decimal text of a number.
pub open spec fn number_text(j: Json) -> Option<Seq<char>> {
    match j {
        Json::Unsigned(n) => Some(decimal(n as int)),
        Json::Negative(n) => Some(decimal(n)),
        Json::Fraction(s) => Some(s),
        _ => None,
    }
}

/// The entries of an object value, in the model.
pub open spec fn entries_model(entries: Seq<(String, Value)>) -> Seq<(Seq<char>, Json)> {
    Seq::new(entries.len(), |i: int| (entries[i].0@, entries[i].1@))
}

proof fn lemma_object_model(entries: Vec<(String, Value)>)
    ensures
        model(Value::Object(entries)) == Json::Object(entries_model(entries@)),
{
    let m = model(Value::Object(entries));
    assert(m->Object_0 =~= entries_model(entries@));
}

proof fn lemma_array_model(items: Vec<Value>)
    ensures
        model(Value::Array(items)) == Json::Array(view_all(items@)),
{
    let m = model(Value::Array(items));
    assert(m->Array_0 =~= view_all(items@));
}

impl Number {
    /// The number in decimal.
    pub fn to_text(&self) -> (r: String)
        ensures
            number_text(number_model(*self)) == Some(r@),
    {
        match self {
            Number::PosInt(n) => u64_text(*n),
            Number::NegInt(n) => i64_text(*n),
            Number::Float(s) => s.clone(),
        }
    }

    /// A copy of the number.
    pub fn copy(&self) -> (r: Number)
        ensures
            number_model(r) == number_model(*self),
    {
        match self {
            Number::PosInt(n) => Number::PosInt(*n),
            Number::NegInt(n) => Number::NegInt(*n),
            Number::Float(s) => Number::Float(s.clone()),
        }
    }
}

impl Value {
    /// The member `name` of an object.
    pub fn get(&self, name: &str) -> (r: Option<&Value>)
        ensures
            view_opt(r) == member(self@, name@),
    {
        match self {
            Value::Object(entries) => {
                proof {
                    lemma_object_model(*entries);
                }
                let ghost all = entries_model(entries@);
                let mut i: usize = 0;
                assert(all.skip(0) =~= all);
                while i < entries.len()
                    invariant
                        i <= entries@.len(),
                        all == entries_model(entries@),
                        self@ == Json::Object(all),
                        first_entry(all, name@) == first_entry(all.skip(i as int), name@),
                    decreases entries@.len() - i,
                {
                    if same(entries[i].0.as_str(), name) {
                        return Some(&entries[i].1);
                    }
                    assert(all.skip(i as int).skip(1) =~= all.skip(i + 1));
                    i = i + 1;
                }
                None
            },
            _ => None,
        }
    }

    /// The characters of a string.
    pub fn as_str(&self) -> (r: Option<&str>)
        ensures
            view_opt(r) == text(self@),
    {
        match self {
            Value::String(s) => Some(s.as_str()),
            _ => None,
        }
    }

    /// The member `name`, if it is a string.
    pub fn get_str(&self, name: &str) -> (r: Option<&str>)
        ensures
            view_opt(r) == text_of(member(self@, name@)),
    {
        match self.get(name) {
            Some(v) => v.as_str(),
            None => None,
        }
    }

    /// The member `inner` of the member `outer`.
    pub fn get2(&self, outer: &str, inner: &str) -> (r: Option<&Value>)
        ensures
            view_opt(r) == member_of(member(self@, outer@), inner@),
    {
        match self.get(outer) {
            Some(v) => v.get(inner),
            None => None,
        }
    }

    pub fn as_bool(&self) -> (r: Option<bool>)
        ensures
            r == match self@ {
                Json::Bool(b) => Some(b),
                _ => None,
            },
    {
        match self {
            Value::Bool(b) => Some(*b),
            _ => None,
        }
    }

    /// The elements of an array.
    pub fn as_array(&self) -> (r: Option<&Vec<Value>>)
        ensures
            r matches Some(items) ==> elements(self@) == Some(view_all(items@)),
            r is None ==> elements(self@) is None,
    {
        match self {
            Value::Array(items) => {
                proof {
                    lemma_array_model(*items);
                }
                Some(items)
            },
            _ => None,
        }
    }

    /// A copy of the value.
    pub fn copy(&self) -> (r: Value)
        ensures
            r@ == self@,
        decreases self,
    {
        match self {
            Value::Null => Value::Null,
            Value::Bool(b) => Value::Bool(*b),
            Value::Number(n) => Value::Number(n.copy()),
            Value::String(s) => Value::String(s.clone()),
            Value::Array(items) => {
                let mut out: Vec<Value> = Vec::new();
                let mut i: usize = 0;
                while i < items.len()
                    invariant
                        i <= items@.len(),
                        view_all(out@) =~= view_all(items@).take(i as int),
                        *self == Value::Array(*items),
                    decreases items@.len() - i,
                {
                    let ghost before = out@;
                    assert(decreases_to!(*self => self->Array_0));
                    assert(decreases_to!(self->Array_0 => items@[i as int]));
                    let item = items[i].copy();
                    out.push(item);
                    assert(view_all(out@) =~= view_all(before).push(items@[i as int]@));
                    i = i + 1;
                }
                proof {
                    lemma_array_model(*items);
                    lemma_array_model(out);
                    assert(view_all(out@) =~= view_all(items@));
                }
                Value::Array(out)
            },
            Value::Object(entries) => {
                let mut out: Vec<(String, Value)> = Vec::new();
                let mut i: usize = 0;
                while i < entries.len()
                    invariant
                        i <= entries@.len(),
                        entries_model(out@) =~= entries_model(entries@).take(i as int),
                        *self == Value::Object(*entries),
                    decreases entries@.len() - i,
                {
                    let ghost before = out@;
                    let ghost from = entries@[i as int];
                    assert(decreases_to!(*self => self->Object_0));
                    assert(decreases_to!(self->Object_0 => from));
                    assert(decreases_to!(from => from.1));
                    let entry = (entries[i].0.clone(), entries[i].1.copy());
                    out.push(entry);
                    assert(entries_model(out@) =~= entries_model(before).push((from.0@, from.1@)));
                    i = i + 1;
                }
                proof {
                    lemma_object_model(*entries);
                    lemma_object_model(out);
                    assert(entries_model(out@) =~= entries_model(entries@));
                }
                Value::Object(out)
            },
        }
    }
}

// ---------------------------------------------------------------------------
// Building
// ---------------------------------------------------------------------------

pub open spec fn json_text(s: Seq<char>) -> Json {
    Json::Text(s)
}

/// A number, as an integer.
pub open spec fn json_int(n: int) -> Json {
    if n < 0 {
        Json::Negative(n)
    } else {
        Json::Unsigned(n as nat)
    }
}

/// A number written as a string, which keeps every digit.
pub open spec fn json_decimal(n: int) -> Json {
    Json::Text(decimal(n))
}

pub open spec fn json_opt_text(s: Option<Seq<char>>) -> Json {
    match s {
        Some(s) => Json::Text(s),
        None => Json::Null,
    }
}

pub open spec fn json_opt(j: Option<Json>) -> Json {
    match j {
        Some(j) => j,
        None => Json::Null,
    }
}

impl Value {
    pub fn text(s: &str) -> (r: Value)
        ensures
            r@ == json_text(s@),
    {
        Value::String(s.to_owned())
    }

    pub fn opt_text(s: &Option<String>) -> (r: Value)
        ensures
            r@ == json_opt_text(view_opt(*s)),
    {
        match s {
            Some(s) => Value::String(s.clone()),
            None => Value::Null,
        }
    }

    pub fn unsigned(n: u64) -> (r: Value)
        ensures
            r@ == json_int(n as int),
    {
        Value::Number(Number::PosInt(n))
    }

    pub fn signed(n: i64) -> (r: Value)
        ensures
            r@ == json_int(n as int),
    {
        if n < 0 {
            Value::Number(Number::NegInt(n))
        } else {
            Value::Number(Number::PosInt(n as u64))
        }
    }

    pub fn opt_signed(n: Option<i64>) -> (r: Value)
        ensures
            r@ == match n {
                Some(n) => json_int(n as int),
                None => Json::Null,
            },
    {
        match n {
            Some(n) => Value::signed(n),
            None => Value::Null,
        }
    }

    /// An unsigned number as a string.
    pub fn decimal(n: u64) -> (r: Value)
        ensures
            r@ == json_decimal(n as int),
    {
        Value::String(u64_text(n))
    }

    /// A signed number as a string.
    pub fn signed_decimal(n: i64) -> (r: Value)
        ensures
            r@ == json_decimal(n as int),
    {
        Value::String(i64_text(n))
    }

    pub fn opt_decimal(n: Option<i64>) -> (r: Value)
        ensures
            r@ == match n {
                Some(n) => json_decimal(n as int),
                None => Json::Null,
            },
    {
        match n {
            Some(n) => Value::signed_decimal(n),
            None => Value::Null,
        }
    }

    /// A copy of a value that may be absent; `null` when it is.
    pub fn opt_copy(v: &Option<Value>) -> (r: Value)
        ensures
            r@ == json_opt(view_opt(*v)),
    {
        match v {
            Some(v) => v.copy(),
            None => Value::Null,
        }
    }

    pub fn array(items: Vec<Value>) -> (r: Value)
        ensures
            r@ == Json::Array(view_all(items@)),
    {
        proof {
            lemma_array_model(items);
        }
        Value::Array(items)
    }

    /// An array of strings.
    pub fn text_array(items: &Vec<String>) -> (r: Value)
        ensures
            r@ == json_texts(view_all(items@)),
    {
        let mut out: Vec<Value> = Vec::new();
        let mut i: usize = 0;
        while i < items.len()
            invariant
                i <= items@.len(),
                view_all(out@) =~= Seq::new(i as nat, |k: int| json_text(items@[k]@)),
            decreases items@.len() - i,
        {
            let ghost before = out@;
            out.push(Value::text(items[i].as_str()));
            assert(view_all(out@) =~= view_all(before).push(json_text(items@[i as int]@)));
            i = i + 1;
        }
        assert(view_all(out@) =~= json_texts(view_all(items@))->Array_0);
        Value::array(out)
    }

    /// An array of unsigned numbers, each as a string.
    pub fn decimal_array(items: &Vec<u64>) -> (r: Value)
        ensures
            r@ == json_decimals(items@),
    {
        let mut out: Vec<Value> = Vec::new();
        let mut i: usize = 0;
        while i < items.len()
            invariant
                i <= items@.len(),
                view_all(out@) =~= Seq::new(i as nat, |k: int| json_decimal(items@[k] as int)),
            decreases items@.len() - i,
        {
            let ghost before = out@;
            out.push(Value::decimal(items[i]));
            assert(view_all(out@) =~= view_all(before).push(
                json_decimal(items@[i as int] as int),
            ));
            i = i + 1;
        }
        assert(view_all(out@) =~= json_decimals(items@)->Array_0);
        Value::array(out)
    }
}

/// An array of strings.
pub open spec fn json_texts(items: Seq<Seq<char>>) -> Json {
    Json::Array(Seq::new(items.len(), |i: int| json_text(items[i])))
}

/// An array of numbers, each as a string.
pub open spec fn json_decimals(items: Seq<u64>) -> Json {
    Json::Array(Seq::new(items.len(), |i: int| json_decimal(items[i] as int)))
}

/// A copy of a value that may be absent.
pub fn copy_opt(v: &Option<Value>) -> (r: Option<Value>)
    ensures
        view_opt(r) == view_opt(*v),
{
    match v {
        Some(v) => Some(v.copy()),
        None => None,
    }
}

/// An object under construction.
pub struct Fields {
    entries: Vec<(String, Value)>,
}

impl View for Fields {
    type V = Seq<(Seq<char>, Json)>;

    closed spec fn view(&self) -> Seq<(Seq<char>, Json)> {
        entries_model(self.entries@)
    }
}

impl Fields {
    pub fn new() -> (r: Fields)
        ensures
            r@ == Seq::<(Seq<char>, Json)>::empty(),
    {
        let r = Fields { entries: Vec::new() };
        assert(r@ =~= Seq::<(Seq<char>, Json)>::empty());
        r
    }

    /// Adds the entry `name`.
    pub fn put(&mut self, name: &str, v: Value)
        ensures
            final(self)@ == old(self)@.push((name@, v@)),
    {
        let ghost before = self@;
        let ghost entry = (name@, v@);
        self.entries.push((name.to_owned(), v));
        assert(self@ =~= before.push(entry));
    }

    pub fn put_text(&mut self, name: &str, s: &str)
        ensures
            final(self)@ == old(self)@.push((name@, json_text(s@))),
    {
        self.put(name, Value::text(s));
    }

    /// The finished object.
    pub fn build(self) -> (r: Value)
        ensures
            r@ == Json::Object(self@),
    {
        proof {
            lemma_object_model(self.entries);
        }
        Value::Object(self.entries)
    }
}

// ---------------------------------------------------------------------------
// What the readers mean
// ---------------------------------------------------------------------------

/// The member of a name is the value of its first entry; a name without an entry, and a
/// value that is no object, have none.
pub proof fn law_member_is_the_first_entry(
    entries: Seq<(Seq<char>, Json)>,
    name: Seq<char>,
    i: int,
)
    requires
        0 <= i <= entries.len(),
        i < entries.len() ==> entries[i].0 == name,
        forall|k: int| 0 <= k < i ==> (#[trigger] entries[k]).0 != name,
    ensures
        i < entries.len() ==> member(Json::Object(entries), name) == Some(entries[i].1),
        i == entries.len() ==> member(Json::Object(entries), name) is None,
    decreases entries.len(),
{
    if entries.len() > 0 && i > 0 {
        let rest = entries.skip(1);
        assert(entries[0].0 != name);
        assert forall|k: int| 0 <= k < i - 1 implies (#[trigger] rest[k]).0 != name by {
            assert(rest[k] == entries[k + 1]);
        }
        if i < entries.len() {
            assert(rest[i - 1] == entries[i]);
        }
        law_member_is_the_first_entry(rest, name, i - 1);
    }
}

/// Only objects have members, only strings have characters, only arrays have elements.
pub proof fn law_other_values_have_none(j: Json, name: Seq<char>)
    ensures
        !(j is Object) ==> member(j, name) is None,
        text(j) is Some <==> j is Text,
        elements(j) is Some <==> j is Array,
        member_of(None, name) is None,
        text_of(None) is None,
{
}

/// A text is read as it was written; a number is written as a number, or as the text of
/// its digits.
pub proof fn law_values_are_read_as_written(s: Seq<char>, n: nat, m: nat)
    ensures
        text(json_text(s)) == Some(s),
        json_int(n as int) == Json::Unsigned(n),
        m > 0 ==> json_int(-m) == Json::Negative(-m),
        text(json_decimal(n as int)) == Some(decimal(n as int)),
        number_text(json_int(n as int)) == Some(decimal(n as int)),
        m > 0 ==> number_text(json_int(-m)) == Some(decimal(-m)),
        number_text(json_text(s)) is None,
{
}

/// An absent value is written `null`, one that is there as it is.
pub proof fn law_absent_is_null(s: Seq<char>, j: Json)
    ensures
        json_opt_text(None) == Json::Null,
        json_opt_text(Some(s)) == Json::Text(s),
        json_opt(None) == Json::Null,
        json_opt(Some(j)) == j,
{
}

/// The model of a value is the value: numbers keep their sign and their digits, lists and
/// objects their elements in order.
pub proof fn law_models_are_the_values(
    b: bool,
    n: u64,
    m: i64,
    s: String,
    items: Vec<Value>,
    entries: Vec<(String, Value)>,
    i: int,
)
    ensures
        Value::Null@ == Json::Null,
        Value::Bool(b)@ == Json::Bool(b),
        Value::Number(Number::PosInt(n))@ == Json::Unsigned(n as nat),
        Value::Number(Number::NegInt(m))@ == Json::Negative(m as int),
        Value::Number(Number::Float(s))@ == Json::Fraction(s@),
        Value::String(s)@ == Json::Text(s@),
        Value::Array(items)@ matches Json::Array(all) && all.len() == items@.len() && (0 <= i
            < items@.len() ==> all[i] == items@[i]@),
        Value::Object(entries)@ matches Json::Object(all) && all.len() == entries@.len() && (0 <= i
            < entries@.len() ==> all[i].0 == entries@[i].0@ && all[i].1 == entries@[i].1@),
{
}

/// A list of texts, or of numbers in decimal, has them in order.
pub proof fn law_lists_are_written_in_order(texts: Seq<Seq<char>>, numbers: Seq<u64>, i: int)
    ensures
        elements(json_texts(texts)) matches Some(all) && all.len() == texts.len() && (0 <= i
            < texts.len() ==> all[i] == Json::Text(texts[i])),
        elements(json_decimals(numbers)) matches Some(all) && all.len() == numbers.len() && (0 <= i
            < numbers.len() ==> all[i] == Json::Text(decimal(numbers[i] as int))),
{
}

} // verus!
