//! JSON documents.

use crate::double::{finite, of_integer, Double};
use crate::text::same;
use vstd::prelude::*;

verus! {

/// A JSON number: an integer where it was written as one, a double otherwise.
#[derive(Clone, Copy, Debug, PartialEq, Eq, Structural)]
pub enum Number {
    /// An integer from zero up.
    Unsigned(u64),
    /// An integer below zero.
    Signed(i64),
    /// A number with a fraction or an exponent.
    Float(Double),
}

/// A JSON value.
#[derive(Debug, PartialEq, Eq)]
pub enum Value {
    /// `null`.
    Null,
    /// `true` or `false`.
    Bool(bool),
    /// A number.
    Number(Number),
    /// A string.
    Text(String),
    /// An array.
    Array(Vec<Value>),
    /// An object.
    Object(Object),
}

/// The members of a JSON object. No key stands twice.
#[derive(Debug, PartialEq, Eq)]
pub struct Object {
    entries: Vec<(String, Value)>,
}

/// What a JSON value says, whatever its representation.
pub enum Json {
    /// `null`.
    Null,
    /// `true` or `false`.
    Bool(bool),
    /// A number.
    Number(Number),
    /// A string.
    Text(Seq<char>),
    /// An array.
    Array(Seq<Json>),
    /// An object.
    Object(Map<Seq<char>, Json>),
}

/// What a value says.
pub open spec fn json(value: Value) -> Json
    decreases value,
{
    match value {
        Value::Null => Json::Null,
        Value::Bool(b) => Json::Bool(b),
        Value::Number(n) => Json::Number(n),
        Value::Text(s) => Json::Text(s@),
        Value::Array(items) => Json::Array(elements(items@)),
        Value::Object(object) => Json::Object(members(object.rows())),
    }
}

/// What the items of an array say.
pub open spec fn elements(items: Seq<Value>) -> Seq<Json>
    decreases items,
{
    if items.len() == 0 {
        Seq::empty()
    } else {
        elements(items.drop_last()).push(json(items.last()))
    }
}

/// What the entries of an object say.
pub open spec fn members(entries: Seq<(String, Value)>) -> Map<Seq<char>, Json>
    decreases entries,
{
    if entries.len() == 0 {
        Map::empty()
    } else {
        members(entries.drop_last()).insert(entries.last().0@, json(entries.last().1))
    }
}

impl Object {
    /// Keys and values, in the order in which the keys came.
    pub closed spec fn rows(self) -> Seq<(String, Value)> {
        self.entries@
    }

    #[verifier::type_invariant]
    spec fn well_formed(self) -> bool {
        distinct(self.entries@)
    }
}

impl View for Value {
    type V = Json;

    open spec fn view(&self) -> Json {
        json(*self)
    }
}

impl View for Object {
    type V = Map<Seq<char>, Json>;

    open spec fn view(&self) -> Map<Seq<char>, Json> {
        members(self.rows())
    }
}

impl Json {
    /// The value under a key of an object.
    pub open spec fn get(self, key: Seq<char>) -> Option<Json> {
        match self {
            Json::Object(m) => member(m, key),
            _ => None,
        }
    }

    /// The value at a place of an array.
    pub open spec fn at(self, index: int) -> Option<Json> {
        match self {
            Json::Array(items) => if 0 <= index < items.len() {
                Some(items[index])
            } else {
                None
            },
            _ => None,
        }
    }

    /// A string.
    pub open spec fn text(self) -> Option<Seq<char>> {
        match self {
            Json::Text(s) => Some(s),
            _ => None,
        }
    }

    /// An integer from zero up.
    pub open spec fn unsigned(self) -> Option<u64> {
        match self {
            Json::Number(Number::Unsigned(n)) => Some(n),
            _ => None,
        }
    }

    /// A number, as the double closest to it.
    pub open spec fn double(self) -> Option<Double> {
        match self {
            Json::Number(n) => Some(number_double(n)),
            _ => None,
        }
    }

    /// `true` or `false`.
    pub open spec fn boolean(self) -> Option<bool> {
        match self {
            Json::Bool(b) => Some(b),
            _ => None,
        }
    }

    /// The string under a key.
    pub open spec fn text_at(self, key: Seq<char>) -> Option<Seq<char>> {
        match self.get(key) {
            Some(v) => v.text(),
            None => None,
        }
    }

    /// The integer from zero up under a key.
    pub open spec fn unsigned_at(self, key: Seq<char>) -> Option<u64> {
        match self.get(key) {
            Some(v) => v.unsigned(),
            None => None,
        }
    }

    /// The items of the array under a key; none where there is no such array.
    pub open spec fn items_at(self, key: Seq<char>) -> Seq<Json> {
        match self.get(key) {
            Some(Json::Array(items)) => items,
            _ => Seq::empty(),
        }
    }
}

/// The value under a key.
pub open spec fn member(m: Map<Seq<char>, Json>, key: Seq<char>) -> Option<Json> {
    if m.dom().contains(key) {
        Some(m[key])
    } else {
        None
    }
}

/// A number as the double closest to it.
pub open spec fn number_double(n: Number) -> Double {
    match n {
        Number::Unsigned(u) => Double { bits: of_integer(u as int) },
        Number::Signed(i) => Double { bits: of_integer(i as int) },
        Number::Float(d) => d,
    }
}

/// A double as a JSON value. There is no number for one that is not finite.
pub open spec fn double_json(d: Double) -> Json {
    if finite(d.bits) {
        Json::Number(Number::Float(d))
    } else {
        Json::Null
    }
}

/// What a value says, where there is one.
pub open spec fn seen(v: Option<&Value>) -> Option<Json> {
    match v {
        Some(v) => Some(v@),
        None => None,
    }
}

/// What a string says, where there is one.
pub open spec fn said(s: Option<&str>) -> Option<Seq<char>> {
    match s {
        Some(s) => Some(s@),
        None => None,
    }
}

/// What a list of values says.
pub open spec fn all_seen(vs: Seq<&Value>) -> Seq<Json> {
    vs.map_values(|v: &Value| v@)
}

/// No key stands twice.
pub open spec fn distinct(entries: Seq<(String, Value)>) -> bool {
    forall|i: int, j: int|
        0 <= i < j < entries.len() ==> (#[trigger] entries[i]).0@ != (#[trigger] entries[j]).0@
}

/// What an array says is what its items say, one by one.
pub proof fn lemma_elements(items: Seq<Value>)
    ensures
        elements(items).len() == items.len(),
        forall|i: int| 0 <= i < items.len() ==> elements(items)[i] == #[trigger] json(items[i]),
    decreases items.len(),
{
    if items.len() > 0 {
        let front = items.drop_last();
        lemma_elements(front);
        assert forall|i: int| 0 <= i < items.len() implies elements(items)[i] == #[trigger] json(
            items[i],
        ) by {
            if i < front.len() {
                assert(front[i] == items[i]);
                assert(elements(front)[i] == json(front[i]));
            }
        }
    }
}

/// Writing over the last entry of a key is inserting under that key.
proof fn lemma_members_update(entries: Seq<(String, Value)>, i: int, new: (String, Value))
    requires
        0 <= i < entries.len(),
        entries[i].0@ == new.0@,
        forall|j: int| i < j < entries.len() ==> (#[trigger] entries[j]).0@ != new.0@,
    ensures
        members(entries.update(i, new)) == members(entries).insert(new.0@, json(new.1)),
    decreases entries.len(),
{
    let front = entries.drop_last();
    let changed = entries.update(i, new);
    if i == entries.len() - 1 {
        assert(changed.drop_last() == front);
        assert(members(changed) =~= members(entries).insert(new.0@, json(new.1)));
    } else {
        assert(changed.drop_last() == front.update(i, new));
        lemma_members_update(front, i, new);
        assert(changed.last() == entries.last());
        assert(entries[entries.len() - 1].0@ != new.0@);
        assert(members(changed) =~= members(entries).insert(new.0@, json(new.1)));
    }
}

/// The entries after a place do not matter to a key that none of them has.
proof fn lemma_members_prefix(entries: Seq<(String, Value)>, n: int, key: Seq<char>)
    requires
        0 <= n <= entries.len(),
        forall|j: int| n <= j < entries.len() ==> (#[trigger] entries[j]).0@ != key,
    ensures
        member(members(entries), key) == member(members(entries.take(n)), key),
    decreases entries.len(),
{
    if n == entries.len() {
        assert(entries.take(n) == entries);
    } else {
        let front = entries.drop_last();
        lemma_members_prefix(front, n, key);
        assert(front.take(n) == entries.take(n));
        assert(entries[entries.len() - 1].0@ != key);
    }
}

impl Number {
    /// This number as the double closest to it.
    pub fn double(self) -> (d: Double)
        ensures
            d == number_double(self),
    {
        match self {
            Number::Unsigned(u) => Double::from_unsigned(u),
            Number::Signed(i) => Double::from_signed(i),
            Number::Float(d) => d,
        }
    }
}

impl Object {
    /// An object without members.
    pub fn new() -> (o: Object)
        ensures
            o@ == Map::<Seq<char>, Json>::empty(),
    {
        Object { entries: Vec::new() }
    }

    /// The place of the entry that counts for a key.
    fn place(&self, key: &str) -> (r: Option<usize>)
        ensures
            match r {
                Some(i) => {
                    &&& i < self.entries@.len()
                    &&& self.entries@[i as int].0@ == key@
                    &&& forall|j: int|
                        i < j < self.entries@.len() ==> (#[trigger] self.entries@[j]).0@ != key@
                    &&& member(self@, key@) == Some(self.entries@[i as int].1@)
                },
                None => {
                    &&& forall|j: int|
                        0 <= j < self.entries@.len() ==> (#[trigger] self.entries@[j]).0@ != key@
                    &&& member(self@, key@) is None
                },
            },
    {
        let mut n: usize = self.entries.len();
        while n > 0
            invariant
                n <= self.entries@.len(),
                forall|j: int|
                    n <= j < self.entries@.len() ==> (#[trigger] self.entries@[j]).0@ != key@,
            decreases n,
        {
            if same(self.entries[n - 1].0.as_str(), key) {
                proof {
                    lemma_members_prefix(self.entries@, n as int, key@);
                    assert(self.entries@.take(n as int).last() == self.entries@[n - 1]);
                }
                return Some(n - 1);
            }
            n = n - 1;
        }
        proof {
            lemma_members_prefix(self.entries@, 0, key@);
        }
        None
    }

    /// The value under a key.
    pub fn get(&self, key: &str) -> (r: Option<&Value>)
        ensures
            seen(r) == member(self@, key@),
    {
        match self.place(key) {
            Some(i) => Some(&self.entries[i].1),
            None => None,
        }
    }

    /// Put a value under a key, in place of any value that stood there.
    pub fn insert(&mut self, key: &str, value: Value)
        ensures
            final(self)@ == old(self)@.insert(key@, value@),
    {
        proof {
            use_type_invariant(&*self);
        }
        let ghost before = self.entries@;
        let place: Option<usize> = self.place(key);
        let mut entries: Vec<(String, Value)> = Vec::new();
        std::mem::swap(&mut entries, &mut self.entries);
        match place {
            Some(i) => {
                let entry: (String, Value) = (key.to_owned(), value);
                proof {
                    lemma_members_update(before, i as int, entry);
                }
                entries.set(i, entry);
            },
            None => {
                entries.push((key.to_owned(), value));
                assert(entries@.drop_last() == before);
            },
        }
        self.entries = entries;
    }

    /// Keys and values, each key once.
    pub fn entries(&self) -> (r: &Vec<(String, Value)>)
        ensures
            r@ == self.rows(),
            distinct(r@),
    {
        proof {
            use_type_invariant(self);
        }
        &self.entries
    }

    /// A second object with the same members.
    pub fn copy(&self) -> (o: Object)
        ensures
            o@ == self@,
        decreases self,
    {
        proof {
            use_type_invariant(self);
        }
        let mut entries: Vec<(String, Value)> = Vec::new();
        let n: usize = self.entries.len();
        let mut i: usize = 0;
        assert(self.entries@.take(0) == Seq::<(String, Value)>::empty());
        while i < n
            invariant
                i <= n == self.entries@.len(),
                entries@.len() == i,
                forall|j: int| 0 <= j < i ==> (#[trigger] entries@[j]).0@ == self.entries@[j].0@,
                members(entries@) == members(self.entries@.take(i as int)),
            decreases n - i,
        {
            let ghost before = entries@;
            let (key, value) = (&self.entries[i].0, &self.entries[i].1);
            entries.push((key.clone(), value.copy()));
            proof {
                assert(entries@.drop_last() == before);
                assert(self.entries@.take(i + 1).drop_last() == self.entries@.take(i as int));
                assert(self.entries@.take(i + 1).last() == self.entries@[i as int]);
            }
            i = i + 1;
        }
        assert(self.entries@.take(n as int) == self.entries@);
        Object { entries }
    }
}

impl Value {
    /// A second value that says the same.
    pub fn copy(&self) -> (v: Value)
        ensures
            v@ == self@,
        decreases self,
    {
        match self {
            Value::Null => Value::Null,
            Value::Bool(b) => Value::Bool(*b),
            Value::Number(n) => Value::Number(*n),
            Value::Text(s) => Value::Text(s.clone()),
            Value::Array(items) => {
                let mut copies: Vec<Value> = Vec::new();
                let n: usize = items.len();
                let mut i: usize = 0;
                assert(items@.take(0) == Seq::<Value>::empty());
                while i < n
                    invariant
                        i <= n == items@.len(),
                        elements(copies@) == elements(items@.take(i as int)),
                        decreases_to!(self => items),
                    decreases n - i,
                {
                    let ghost before = copies@;
                    copies.push(items[i].copy());
                    proof {
                        assert(copies@.drop_last() == before);
                        assert(items@.take(i + 1).drop_last() == items@.take(i as int));
                        assert(items@.take(i + 1).last() == items@[i as int]);
                    }
                    i = i + 1;
                }
                assert(items@.take(n as int) == items@);
                Value::Array(copies)
            },
            Value::Object(object) => Value::Object(object.copy()),
        }
    }

    /// The value under a key, where this is an object.
    pub fn get(&self, key: &str) -> (r: Option<&Value>)
        ensures
            seen(r) == self@.get(key@),
    {
        match self {
            Value::Object(object) => object.get(key),
            _ => None,
        }
    }

    /// The value at a place, where this is an array.
    pub fn at(&self, index: usize) -> (r: Option<&Value>)
        ensures
            seen(r) == self@.at(index as int),
    {
        match self {
            Value::Array(items) => {
                proof {
                    lemma_elements(items@);
                }
                if index < items.len() {
                    Some(&items[index])
                } else {
                    None
                }
            },
            _ => None,
        }
    }

    /// The string, where this is one.
    pub fn as_str(&self) -> (r: Option<&str>)
        ensures
            said(r) == self@.text(),
    {
        match self {
            Value::Text(s) => Some(s.as_str()),
            _ => None,
        }
    }

    /// The integer, where this is one from zero up.
    pub fn as_u64(&self) -> (r: Option<u64>)
        ensures
            r == self@.unsigned(),
    {
        match self {
            Value::Number(Number::Unsigned(n)) => Some(*n),
            _ => None,
        }
    }

    /// The number as a double, where this is a number.
    pub fn as_double(&self) -> (r: Option<Double>)
        ensures
            r == self@.double(),
    {
        match self {
            Value::Number(n) => Some(n.double()),
            _ => None,
        }
    }

    /// The truth value, where this is one.
    pub fn as_bool(&self) -> (r: Option<bool>)
        ensures
            r == self@.boolean(),
    {
        match self {
            Value::Bool(b) => Some(*b),
            _ => None,
        }
    }

    /// The string under a key.
    pub fn text_at(&self, key: &str) -> (r: Option<&str>)
        ensures
            said(r) == self@.text_at(key@),
    {
        match self.get(key) {
            Some(v) => v.as_str(),
            None => None,
        }
    }

    /// The integer from zero up under a key.
    pub fn unsigned_at(&self, key: &str) -> (r: Option<u64>)
        ensures
            r == self@.unsigned_at(key@),
    {
        match self.get(key) {
            Some(v) => v.as_u64(),
            None => None,
        }
    }

    /// The items of the array under a key; none where there is no such array.
    pub fn items_at(&self, key: &str) -> (r: Vec<&Value>)
        ensures
            all_seen(r@) == self@.items_at(key@),
    {
        let mut r: Vec<&Value> = Vec::new();
        match self.get(key) {
            Some(Value::Array(items)) => {
                let n: usize = items.len();
                let mut i: usize = 0;
                while i < n
                    invariant
                        i <= n == items@.len(),
                        r@.len() == i,
                        forall|j: int| 0 <= j < i ==> *(#[trigger] r@[j]) == items@[j],
                    decreases n - i,
                {
                    r.push(&items[i]);
                    i = i + 1;
                }
                proof {
                    lemma_elements(items@);
                    assert(all_seen(r@) =~= elements(items@));
                }
            },
            _ => {
                assert(all_seen(r@) =~= Seq::<Json>::empty());
            },
        }
        r
    }

    /// A string.
    pub fn text(s: &str) -> (v: Value)
        ensures
            v@ == Json::Text(s@),
    {
        Value::Text(s.to_owned())
    }

    /// An integer.
    pub fn unsigned(n: u64) -> (v: Value)
        ensures
            v@ == Json::Number(Number::Unsigned(n)),
    {
        Value::Number(Number::Unsigned(n))
    }

    /// A double; `null` for one that is not finite.
    pub fn float(d: Double) -> (v: Value)
        ensures
            v@ == double_json(d),
    {
        if d.is_finite() {
            Value::Number(Number::Float(d))
        } else {
            Value::Null
        }
    }
}

} // verus!
