//! The part of a JSON document that the settings logic reads.
//!
//! Settings are stored as one JSON object whose top-level fields are read one by
//! one.  A value is kept as what the logic asks of it: a string, a boolean, a
//! number (with the integer it denotes, if any, and the bits of its `f64` image),
//! or a nested array/object, carried through unchanged as its JSON text.

use vstd::prelude::*;

verus! {

/// How a JSON number was written: a non-negative integer, a negative integer, or
/// a number with a fraction or exponent.
pub enum NumRepr {
    PosInt(u64),
    NegInt(i64),
    Float,
}

/// A JSON number: its written form and the bit pattern of its `f64` value.
pub struct JsonNumber {
    pub repr: NumRepr,
    pub float_bits: u64,
}

/// A JSON value as the settings logic sees it.
pub enum JsonValue {
    Null,
    Bool(bool),
    Number(JsonNumber),
    Str(String),
    /// An array or an object, as its JSON text.
    Nested(String),
}

impl JsonNumber {
    pub fn copy(&self) -> (r: Self)
        ensures
            r == *self,
    {
        let repr = match &self.repr {
            NumRepr::PosInt(n) => NumRepr::PosInt(*n),
            NumRepr::NegInt(n) => NumRepr::NegInt(*n),
            NumRepr::Float => NumRepr::Float,
        };
        JsonNumber { repr, float_bits: self.float_bits }
    }
}

impl JsonValue {
    /// `Value::as_str`.
    pub open spec fn str_view(self) -> Option<Seq<char>> {
        match self {
            JsonValue::Str(s) => Some(s@),
            _ => None,
        }
    }

    /// `Value::as_bool`.
    pub open spec fn bool_view(self) -> Option<bool> {
        match self {
            JsonValue::Bool(b) => Some(b),
            _ => None,
        }
    }

    /// `Value::as_u64`: only non-negative integers.
    pub open spec fn u64_view(self) -> Option<u64> {
        match self {
            JsonValue::Number(n) => match n.repr {
                NumRepr::PosInt(v) => Some(v),
                _ => None,
            },
            _ => None,
        }
    }

    /// `Value::as_f64`, as the bits of the `f64`: every number has one.
    pub open spec fn float_view(self) -> Option<u64> {
        match self {
            JsonValue::Number(n) => Some(n.float_bits),
            _ => None,
        }
    }

    pub fn as_str(&self) -> (r: Option<&String>)
        ensures
            match r {
                Some(s) => self.str_view() == Some(s@),
                None => self.str_view() is None,
            },
    {
        match self {
            JsonValue::Str(s) => Some(s),
            _ => None,
        }
    }

    pub fn as_bool(&self) -> (r: Option<bool>)
        ensures
            r == self.bool_view(),
    {
        match self {
            JsonValue::Bool(b) => Some(*b),
            _ => None,
        }
    }

    pub fn as_u64(&self) -> (r: Option<u64>)
        ensures
            r == self.u64_view(),
    {
        match self {
            JsonValue::Number(n) => match n.repr {
                NumRepr::PosInt(v) => Some(v),
                _ => None,
            },
            _ => None,
        }
    }

    pub fn as_float_bits(&self) -> (r: Option<u64>)
        ensures
            r == self.float_view(),
    {
        match self {
            JsonValue::Number(n) => Some(n.float_bits),
            _ => None,
        }
    }

    pub fn copy(&self) -> (r: Self)
        ensures
            r == *self,
    {
        match self {
            JsonValue::Null => JsonValue::Null,
            JsonValue::Bool(b) => JsonValue::Bool(*b),
            JsonValue::Number(n) => JsonValue::Number(n.copy()),
            JsonValue::Str(s) => JsonValue::Str(s.clone()),
            JsonValue::Nested(s) => JsonValue::Nested(s.clone()),
        }
    }
}

/// The value stored under `k` in a list of entries: the first entry with that key.
pub open spec fn lookup(es: Seq<(String, JsonValue)>, k: Seq<char>) -> Option<JsonValue>
    decreases es.len(),
{
    if es.len() == 0 {
        None
    } else {
        match lookup(es.drop_last(), k) {
            Some(v) => Some(v),
            None => if es.last().0@ == k {
                Some(es.last().1)
            } else {
                None
            },
        }
    }
}

/// No two entries share a key.
pub open spec fn keys_unique(es: Seq<(String, JsonValue)>) -> bool {
    forall|i: int, j: int| 0 <= i < j < es.len() ==> es[i].0@ != es[j].0@
}

pub proof fn lemma_lookup_some(es: Seq<(String, JsonValue)>, k: Seq<char>, i: int)
    requires
        keys_unique(es),
        0 <= i < es.len(),
        es[i].0@ == k,
    ensures
        lookup(es, k) == Some(es[i].1),
    decreases es.len(),
{
    if i < es.len() - 1 {
        lemma_lookup_some(es.drop_last(), k, i);
    } else {
        lemma_lookup_none(es.drop_last(), k);
    }
}

pub proof fn lemma_lookup_none(es: Seq<(String, JsonValue)>, k: Seq<char>)
    requires
        forall|i: int| 0 <= i < es.len() ==> es[i].0@ != k,
    ensures
        lookup(es, k) is None,
    decreases es.len(),
{
    if es.len() > 0 {
        lemma_lookup_none(es.drop_last(), k);
    }
}

pub proof fn lemma_lookup_found(es: Seq<(String, JsonValue)>, k: Seq<char>)
    ensures
        lookup(es, k) is Some ==> exists|i: int| 0 <= i < es.len() && es[i].0@ == k && lookup(es, k)
            == Some(es[i].1),
    decreases es.len(),
{
    if es.len() > 0 {
        lemma_lookup_found(es.drop_last(), k);
        if lookup(es.drop_last(), k) is Some {
            let i = choose|i: int|
                0 <= i < es.drop_last().len() && es.drop_last()[i].0@ == k && lookup(
                    es.drop_last(),
                    k,
                ) == Some(es.drop_last()[i].1);
            assert(es[i] == es.drop_last()[i]);
        } else if es.last().0@ == k {
            assert(es[es.len() - 1] == es.last());
        }
    }
}

/// A JSON object: its entries, with distinct keys.
pub struct JsonObject {
    entries: Vec<(String, JsonValue)>,
}

impl View for JsonObject {
    type V = Seq<(String, JsonValue)>;

    closed spec fn view(&self) -> Seq<(String, JsonValue)> {
        self.entries@
    }
}

impl JsonObject {
    #[verifier::type_invariant]
    closed spec fn inv(self) -> bool {
        keys_unique(self.entries@)
    }

    /// The value stored under `k`.
    pub open spec fn get_spec(self, k: Seq<char>) -> Option<JsonValue> {
        lookup(self@, k)
    }

    pub open spec fn get_str_spec(self, k: Seq<char>) -> Option<Seq<char>> {
        match self.get_spec(k) {
            Some(v) => v.str_view(),
            None => None,
        }
    }

    pub open spec fn get_bool_spec(self, k: Seq<char>) -> Option<bool> {
        match self.get_spec(k) {
            Some(v) => v.bool_view(),
            None => None,
        }
    }

    pub open spec fn get_u64_spec(self, k: Seq<char>) -> Option<u64> {
        match self.get_spec(k) {
            Some(v) => v.u64_view(),
            None => None,
        }
    }

    pub open spec fn get_float_spec(self, k: Seq<char>) -> Option<u64> {
        match self.get_spec(k) {
            Some(v) => v.float_view(),
            None => None,
        }
    }

    /// An empty object.
    pub fn new() -> (r: Self)
        ensures
            r@ == Seq::<(String, JsonValue)>::empty(),
    {
        JsonObject { entries: Vec::new() }
    }

    /// The entries, in order.
    pub fn entries(&self) -> (r: &Vec<(String, JsonValue)>)
        ensures
            r@ == self@,
            keys_unique(self@),
    {
        proof {
            use_type_invariant(self);
        }
        &self.entries
    }

    pub fn len(&self) -> (r: usize)
        ensures
            r == self@.len(),
    {
        self.entries.len()
    }

    fn index_of(&self, key: &str) -> (r: Option<usize>)
        ensures
            match r {
                Some(i) => i < self@.len() && self@[i as int].0@ == key@,
                None => forall|i: int| 0 <= i < self@.len() ==> self@[i].0@ != key@,
            },
    {
        let mut i: usize = 0;
        while i < self.entries.len()
            invariant
                i <= self.entries@.len(),
                forall|j: int| 0 <= j < i ==> self.entries@[j].0@ != key@,
            decreases self.entries.len() - i,
        {
            if crate::text::str_eq(self.entries[i].0.as_str(), key) {
                return Some(i);
            }
            i = i + 1;
        }
        None
    }

    /// `Map::get`.
    pub fn get(&self, key: &str) -> (r: Option<&JsonValue>)
        ensures
            match r {
                Some(v) => self.get_spec(key@) == Some(*v),
                None => self.get_spec(key@) is None,
            },
    {
        proof {
            use_type_invariant(self);
        }
        match self.index_of(key) {
            Some(i) => {
                proof {
                    lemma_lookup_some(self@, key@, i as int);
                }
                Some(&self.entries[i].1)
            },
            None => {
                proof {
                    lemma_lookup_none(self@, key@);
                }
                None
            },
        }
    }

    pub fn get_str(&self, key: &str) -> (r: Option<&String>)
        ensures
            match r {
                Some(s) => self.get_str_spec(key@) == Some(s@),
                None => self.get_str_spec(key@) is None,
            },
    {
        match self.get(key) {
            Some(v) => v.as_str(),
            None => None,
        }
    }

    pub fn get_bool(&self, key: &str) -> (r: Option<bool>)
        ensures
            r == self.get_bool_spec(key@),
    {
        match self.get(key) {
            Some(v) => v.as_bool(),
            None => None,
        }
    }

    pub fn get_u64(&self, key: &str) -> (r: Option<u64>)
        ensures
            r == self.get_u64_spec(key@),
    {
        match self.get(key) {
            Some(v) => v.as_u64(),
            None => None,
        }
    }

    pub fn get_float_bits(&self, key: &str) -> (r: Option<u64>)
        ensures
            r == self.get_float_spec(key@),
    {
        match self.get(key) {
            Some(v) => v.as_float_bits(),
            None => None,
        }
    }

    /// `Map::insert`: `key` now maps to `value`; every other key keeps its value.
    pub fn insert(&mut self, key: String, value: JsonValue)
        ensures
            forall|k: Seq<char>| #[trigger]
                final(self).get_spec(k) == if k == key@ {
                    Some(value)
                } else {
                    old(self).get_spec(k)
                },
            (exists|i: int| 0 <= i < old(self)@.len() && old(self)@[i].0@ == key@)
                ==> final(self)@.len() == old(self)@.len(),
            (forall|i: int| 0 <= i < old(self)@.len() ==> old(self)@[i].0@ != key@)
                ==> final(self)@.len() == old(self)@.len() + 1,
    {
        proof {
            use_type_invariant(&*self);
        }
        let ghost old_es = self.entries@;
        let ghost kv = key@;
        match self.index_of(key.as_str()) {
            Some(i) => {
                let mut entries: Vec<(String, JsonValue)> = Vec::new();
                std::mem::swap(&mut entries, &mut self.entries);
                entries.set(i, (key, value));
                let ghost new_es = entries@;
                assert(keys_unique(new_es)) by {
                    assert forall|a: int, b: int| 0 <= a < b < new_es.len() implies new_es[a].0@
                        != new_es[b].0@ by {
                        if a != i && b != i {
                            assert(new_es[a] == old_es[a] && new_es[b] == old_es[b]);
                        } else if a == i {
                            assert(new_es[b] == old_es[b]);
                        } else {
                            assert(new_es[a] == old_es[a]);
                        }
                    }
                }
                assert forall|k: Seq<char>| #[trigger]
                    lookup(new_es, k) == if k == kv {
                        Some(value)
                    } else {
                        lookup(old_es, k)
                    } by {
                    if k == kv {
                        lemma_lookup_some(new_es, k, i as int);
                    } else {
                        lemma_lookup_found(old_es, k);
                        if lookup(old_es, k) is Some {
                            let j = choose|j: int|
                                0 <= j < old_es.len() && old_es[j].0@ == k && lookup(old_es, k)
                                    == Some(old_es[j].1);
                            assert(j != i);
                            assert(new_es[j] == old_es[j]);
                            lemma_lookup_some(new_es, k, j);
                        } else {
                            assert forall|j: int| 0 <= j < new_es.len() implies new_es[j].0@
                                != k by {
                                if j != i {
                                    assert(new_es[j] == old_es[j]);
                                    if old_es[j].0@ == k {
                                        lemma_lookup_some(old_es, k, j);
                                    }
                                }
                            }
                            lemma_lookup_none(new_es, k);
                        }
                    }
                }
                self.entries = entries;
            },
            None => {
                let mut entries: Vec<(String, JsonValue)> = Vec::new();
                std::mem::swap(&mut entries, &mut self.entries);
                entries.push((key, value));
                let ghost new_es = entries@;
                assert(new_es.drop_last() =~= old_es);
                assert(keys_unique(new_es)) by {
                    assert forall|a: int, b: int| 0 <= a < b < new_es.len() implies new_es[a].0@
                        != new_es[b].0@ by {
                        assert(new_es[a] == old_es[a]);
                        if b < old_es.len() {
                            assert(new_es[b] == old_es[b]);
                        }
                    }
                }
                proof {
                    lemma_lookup_none(old_es, kv);
                }
                self.entries = entries;
            },
        }
    }
}

} // verus!
