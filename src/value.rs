//! The decoded value tree that is validated.
use vstd::prelude::*;

verus! {

/// A number as a JSON decoder holds it.
pub enum Number {
    /// A non-negative integer.
    PosInt(u64),
    /// A negative integer.
    NegInt(i64),
    /// A number with a fraction or an exponent, held as its IEEE-754 binary64 bit pattern.
    Float(u64),
}

/// One key/value pair of an object.
pub struct Member {
    pub key: String,
    pub value: Value,
}

/// A decoded value.
pub enum Value {
    Null,
    Bool(bool),
    Number(Number),
    String(String),
    Array(Vec<Value>),
    /// Key/value pairs in their order; keys are unique.
    Object(Vec<Member>),
}

/// Whether no two members share a key.
pub open spec fn keys_unique(ms: Seq<Member>) -> bool {
    forall|i: int, j: int| 0 <= i < j < ms.len() ==> ms[i].key@ != ms[j].key@
}

impl Value {
    /// The validity of a decoded value: negative integers are held as `NegInt`, the keys of
    /// every object are unique, and so throughout the tree.
    pub open spec fn is_valid(&self) -> bool
        decreases self,
    {
        match self {
            Value::Number(Number::NegInt(i)) => *i < 0,
            Value::Array(vs) => forall|k: int| 0 <= k < vs@.len() ==> (#[trigger] vs@[k]).is_valid(),
            Value::Object(ms) => keys_unique(ms@) && forall|k: int|
                0 <= k < ms@.len() ==> (#[trigger] ms@[k]).value.is_valid(),
            _ => true,
        }
    }
}

/// In an object with unique keys, looking a member's key up finds that member's value.
pub proof fn lemma_lookup_unique(ms: Seq<Member>, k: int)
    requires
        keys_unique(ms),
        0 <= k < ms.len(),
    ensures
        spec_lookup(ms, ms[k].key@) == Some(ms[k].value),
{
    lemma_member_index_upto(ms, ms[k].key@, 0, k);
}

proof fn lemma_member_index_upto(ms: Seq<Member>, key: Seq<char>, i: int, k: int)
    requires
        keys_unique(ms),
        0 <= i <= k < ms.len(),
        ms[k].key@ == key,
    ensures
        member_index(ms, key, i) == k,
    decreases k - i,
{
    if i < k {
        assert(ms[i].key@ != ms[k].key@);
        lemma_member_index_upto(ms, key, i + 1, k);
    }
}

impl Number {
    /// The number as a `u64`, when it is an integer that fits.
    pub open spec fn spec_as_u64(self) -> Option<u64> {
        match self {
            Number::PosInt(u) => Some(u),
            Number::NegInt(i) => if i >= 0 {
                Some(i as u64)
            } else {
                None
            },
            Number::Float(_) => None,
        }
    }

    /// The number as an `i64`, when it is an integer that fits.
    pub open spec fn spec_as_i64(self) -> Option<i64> {
        match self {
            Number::PosInt(u) => if u <= i64::MAX {
                Some(u as i64)
            } else {
                None
            },
            Number::NegInt(i) => Some(i),
            Number::Float(_) => None,
        }
    }

    pub fn as_u64(&self) -> (r: Option<u64>)
        ensures
            r == self.spec_as_u64(),
    {
        match self {
            Number::PosInt(u) => Some(*u),
            Number::NegInt(i) => if *i >= 0 {
                Some(*i as u64)
            } else {
                None
            },
            Number::Float(_) => None,
        }
    }

    pub fn as_i64(&self) -> (r: Option<i64>)
        ensures
            r == self.spec_as_i64(),
    {
        match self {
            Number::PosInt(u) => if *u <= 9223372036854775807u64 {
                Some(*u as i64)
            } else {
                None
            },
            Number::NegInt(i) => Some(*i),
            Number::Float(_) => None,
        }
    }

    /// The integer `i`, as a decoder would hold it.
    pub fn from_i64(i: i64) -> (r: Number)
        ensures
            r.spec_as_i64() == Some(i),
            i >= 0 ==> r == Number::PosInt(i as u64),
            i < 0 ==> r == Number::NegInt(i),
    {
        if i >= 0 {
            Number::PosInt(i as u64)
        } else {
            Number::NegInt(i)
        }
    }
}

/// The index of the first member whose key is `key`, at or after `i`; -1 where there is none.
pub open spec fn member_index(ms: Seq<Member>, key: Seq<char>, i: int) -> int
    decreases ms.len() - i,
{
    if i < 0 || i >= ms.len() {
        -1
    } else if ms[i].key@ == key {
        i
    } else {
        member_index(ms, key, i + 1)
    }
}

/// The value stored under `key`.
pub open spec fn spec_lookup(ms: Seq<Member>, key: Seq<char>) -> Option<Value> {
    let i = member_index(ms, key, 0);
    if i < 0 {
        None
    } else {
        Some(ms[i].value)
    }
}

proof fn lemma_member_index_range(ms: Seq<Member>, key: Seq<char>, i: int)
    requires
        0 <= i,
    ensures
        member_index(ms, key, i) == -1 || (i <= member_index(ms, key, i) < ms.len()),
    decreases ms.len() - i,
{
    if i < ms.len() && ms[i].key@ != key {
        lemma_member_index_range(ms, key, i + 1);
    }
}

/// Looks up `key` among the members of an object.
pub fn lookup<'a>(ms: &'a Vec<Member>, key: &String) -> (r: Option<&'a Value>)
    ensures
        match r {
            Some(v) => spec_lookup(ms@, key@) == Some(*v),
            None => spec_lookup(ms@, key@).is_none(),
        },
{
    let mut i: usize = 0;
    while i < ms.len()
        invariant
            i <= ms@.len(),
            member_index(ms@, key@, 0) == member_index(ms@, key@, i as int),
        decreases ms.len() - i,
    {
        if ms[i].key == *key {
            return Some(&ms[i].value);
        }
        i += 1;
    }
    None
}

} // verus!
