use vstd::prelude::*;
use crate::strings::str_eq;

verus! {

/// Mathematical model of a JSON-like value: the view of `JsonValue`.
///
/// An object is modelled as a sequence of key/value pairs in insertion
/// order.
#[verifier::ext_equal]
pub enum JVal {
    Null,
    Bool(bool),
    UInt(u64),
    Float(Seq<char>),
    Str(Seq<char>),
    Arr(Seq<JVal>),
    Obj(Seq<(Seq<char>, JVal)>),
}

/// A JSON-like value tree: null, boolean, unsigned integer, finite
/// floating-point number (kept as its decimal text), string, array, or
/// insertion-ordered object.
#[derive(Debug, PartialEq)]
pub enum JsonValue {
    Null,
    Bool(bool),
    UInt(u64),
    Float(String),
    Str(String),
    Array(Vec<JsonValue>),
    Object(JsonMap),
}

/// An insertion-ordered, string-keyed mapping of `JsonValue`s.
#[derive(Debug, PartialEq)]
pub struct JsonMap {
    pub entries: Vec<(String, JsonValue)>,
}

/// The model of a `JsonValue`.
pub open spec fn jval_of(v: JsonValue) -> JVal
    decreases v,
{
    match v {
        JsonValue::Null => JVal::Null,
        JsonValue::Bool(b) => JVal::Bool(b),
        JsonValue::UInt(n) => JVal::UInt(n),
        JsonValue::Float(s) => JVal::Float(s@),
        JsonValue::Str(s) => JVal::Str(s@),
        JsonValue::Array(vs) => JVal::Arr(jarr_elems(vs@)),
        JsonValue::Object(m) => JVal::Obj(jobj_of(m)),
    }
}

/// The models of an array's elements, in order.
pub open spec fn jarr_elems(vs: Seq<JsonValue>) -> Seq<JVal>
    decreases vs,
{
    Seq::new(
        vs.len(),
        |i: int|
            if 0 <= i < vs.len() {
                jval_of(vs[i])
            } else {
                JVal::Null
            },
    )
}

/// The model of a `JsonMap`: its entries in insertion order.
pub open spec fn jobj_of(m: JsonMap) -> Seq<(Seq<char>, JVal)>
    decreases m,
{
    Seq::new(
        m.entries@.len(),
        |i: int|
            if 0 <= i < m.entries@.len() {
                (m.entries@[i].0@, jval_of(m.entries@[i].1))
            } else {
                (Seq::<char>::empty(), JVal::Null)
            },
    )
}

impl DeepView for JsonValue {
    type V = JVal;

    open spec fn deep_view(&self) -> JVal {
        jval_of(*self)
    }
}

impl View for JsonMap {
    type V = Seq<(Seq<char>, JVal)>;

    open spec fn view(&self) -> Seq<(Seq<char>, JVal)> {
        jobj_of(*self)
    }
}

/// Index of the first entry with the given key; the sequence's length when
/// the key is absent.
pub open spec fn key_idx<T>(entries: Seq<(Seq<char>, T)>, k: Seq<char>) -> int
    decreases entries.len(),
{
    if entries.len() == 0 {
        0
    } else if entries[0].0 == k {
        0
    } else {
        1 + key_idx(entries.drop_first(), k)
    }
}

pub open spec fn has_key<T>(entries: Seq<(Seq<char>, T)>, k: Seq<char>) -> bool {
    key_idx(entries, k) < entries.len()
}

/// Replaces the value under the first entry with the given key, keeping its
/// position, or appends a new entry when the key is absent.
pub open spec fn assoc_set<T>(entries: Seq<(Seq<char>, T)>, k: Seq<char>, v: T) -> Seq<
    (Seq<char>, T),
> {
    let i = key_idx(entries, k);
    if i < entries.len() {
        entries.update(i, (k, v))
    } else {
        entries.push((k, v))
    }
}

/// `key_idx` is at most the length, the entry found carries the key, and no
/// earlier entry does.
pub proof fn lemma_key_idx<T>(entries: Seq<(Seq<char>, T)>, k: Seq<char>)
    ensures
        0 <= key_idx(entries, k) <= entries.len(),
        key_idx(entries, k) < entries.len() ==> entries[key_idx(entries, k)].0 == k,
        forall|j: int| 0 <= j < key_idx(entries, k) ==> entries[j].0 != k,
    decreases entries.len(),
{
    if entries.len() > 0 && entries[0].0 != k {
        lemma_key_idx(entries.drop_first(), k);
        assert forall|j: int| 0 <= j < key_idx(entries, k) implies entries[j].0 != k by {
            if j > 0 {
                assert(entries.drop_first()[j - 1] == entries[j]);
            }
        }
    }
}

/// A scan that finds no match up to `i`, and a match or the end at `i`,
/// pins `key_idx` down to `i`.
pub proof fn lemma_key_idx_from_scan<T>(entries: Seq<(Seq<char>, T)>, k: Seq<char>, i: int)
    requires
        0 <= i <= entries.len(),
        forall|j: int| 0 <= j < i ==> entries[j].0 != k,
        i < entries.len() ==> entries[i].0 == k,
    ensures
        key_idx(entries, k) == i,
    decreases entries.len(),
{
    if entries.len() > 0 && i > 0 {
        lemma_key_idx_from_scan(entries.drop_first(), k, i - 1);
    }
}

impl JsonMap {
    pub fn new() -> (m: JsonMap)
        ensures
            m@ =~= Seq::<(Seq<char>, JVal)>::empty(),
    {
        JsonMap { entries: Vec::new() }
    }

    pub fn len(&self) -> (r: usize)
        ensures
            r == self@.len(),
    {
        self.entries.len()
    }

    pub fn is_empty(&self) -> (r: bool)
        ensures
            r == (self@.len() == 0),
    {
        self.entries.len() == 0
    }

    /// Index of the first entry with the given key; `self.len()` when absent.
    pub fn index_of(&self, key: &str) -> (r: usize)
        ensures
            r == key_idx(self@, key@),
    {
        let n = self.entries.len();
        let mut i: usize = 0;
        while i < n
            invariant
                0 <= i <= n,
                n == self@.len(),
                forall|j: int| 0 <= j < i ==> self@[j].0 != key@,
            decreases n - i,
        {
            if str_eq(self.entries[i].0.as_str(), key) {
                proof {
                    lemma_key_idx_from_scan(self@, key@, i as int);
                }
                return i;
            }
            i = i + 1;
        }
        proof {
            lemma_key_idx_from_scan(self@, key@, n as int);
        }
        n
    }

    pub fn contains_key(&self, key: &str) -> (r: bool)
        ensures
            r == has_key(self@, key@),
    {
        proof {
            lemma_key_idx(self@, key@);
        }
        self.index_of(key) < self.entries.len()
    }

    /// The value under the first entry with the given key, if any.
    pub fn get(&self, key: &str) -> (r: Option<&JsonValue>)
        ensures
            match r {
                Some(v) => has_key(self@, key@) && v.deep_view() == self@[key_idx(
                    self@,
                    key@,
                )].1,
                None => !has_key(self@, key@),
            },
    {
        let i = self.index_of(key);
        proof {
            lemma_key_idx(self@, key@);
        }
        if i < self.entries.len() {
            Some(&self.entries[i].1)
        } else {
            None
        }
    }

    /// The entry at a position, in insertion order.
    pub fn entry_at(&self, i: usize) -> (r: (&String, &JsonValue))
        requires
            i < self@.len(),
        ensures
            r.0@ == self@[i as int].0,
            r.1.deep_view() == self@[i as int].1,
    {
        (&self.entries[i].0, &self.entries[i].1)
    }

    /// Removes and returns the entry at a position.
    pub fn remove_at(&mut self, i: usize) -> (r: (String, JsonValue))
        requires
            i < old(self)@.len(),
        ensures
            r.0@ == old(self)@[i as int].0,
            r.1.deep_view() == old(self)@[i as int].1,
            final(self)@ =~= old(self)@.remove(i as int),
    {
        self.entries.remove(i)
    }

    /// Inserts an entry at a position, shifting later entries.
    pub fn insert_at(&mut self, i: usize, key: String, v: JsonValue)
        requires
            i <= old(self)@.len(),
        ensures
            final(self)@ =~= old(self)@.insert(i as int, (key@, v.deep_view())),
    {
        self.entries.insert(i, (key, v));
    }

    /// Appends an entry at the end.
    pub fn push_entry(&mut self, key: String, v: JsonValue)
        ensures
            final(self)@ =~= old(self)@.push((key@, v.deep_view())),
    {
        self.entries.push((key, v));
    }

    /// Replaces the value under the first entry with the given key, keeping
    /// its position, or appends a new entry when the key is absent.
    pub fn set(&mut self, key: String, v: JsonValue)
        ensures
            final(self)@ =~= assoc_set(old(self)@, key@, v.deep_view()),
    {
        let i = self.index_of(key.as_str());
        proof {
            lemma_key_idx(self@, key@);
        }
        if i < self.entries.len() {
            let _ = self.entries.remove(i);
            self.entries.insert(i, (key, v));
        } else {
            self.entries.push((key, v));
        }
    }
}

} // verus!
