use vstd::prelude::*;

use crate::strutil::str_equal;

verus! {

/// A dynamically typed record value: the closed set of shapes a field of a
/// record can take. A number is carried as the bit pattern of its IEEE-754
/// binary64 representation, so the tree itself holds only plain values; the
/// host turns its numbers into bit patterns and back at the boundary.
#[derive(PartialEq, Debug)]
pub enum Value {
    Null,
    Bool(bool),
    Number(u64),
    Text(String),
    Array(Vec<Value>),
    Object(Vec<(String, Value)>),
}

/// The value stored under `key` in a sequence of field pairs: the first
/// pair whose name matches wins.
pub open spec fn spec_lookup(pairs: Seq<(String, Value)>, key: Seq<char>) -> Option<Value>
    decreases pairs.len(),
{
    if pairs.len() == 0 {
        None
    } else if pairs[0].0@ == key {
        Some(pairs[0].1)
    } else {
        spec_lookup(pairs.drop_first(), key)
    }
}

/// Reading a field of a record: only an object has fields.
pub open spec fn spec_get(v: Value, key: Seq<char>) -> Option<Value> {
    match v {
        Value::Object(pairs) => spec_lookup(pairs@, key),
        _ => None,
    }
}

/// Storing `val` under `key`: the first pair with a matching name has its
/// value replaced (the stored name is kept, as an insertion into a JSON
/// object keeps the original key); a fresh name is appended at the end.
pub open spec fn spec_store(pairs: Seq<(String, Value)>, key: String, val: Value) -> Seq<
    (String, Value),
>
    decreases pairs.len(),
{
    if pairs.len() == 0 {
        seq![(key, val)]
    } else if pairs[0].0@ == key@ {
        seq![(pairs[0].0, val)] + pairs.drop_first()
    } else {
        seq![pairs[0]] + spec_store(pairs.drop_first(), key, val)
    }
}

/// If none of the first `i` pairs matches `key`, the lookup is decided by
/// the remaining pairs alone.
proof fn lemma_lookup_skip(pairs: Seq<(String, Value)>, key: Seq<char>, i: int)
    requires
        0 <= i <= pairs.len(),
        forall|j: int| 0 <= j < i ==> pairs[j].0@ != key,
    ensures
        spec_lookup(pairs, key) == spec_lookup(pairs.skip(i), key),
    decreases i,
{
    if i > 0 {
        lemma_lookup_skip(pairs, key, i - 1);
        assert(pairs.skip(i - 1).drop_first() =~= pairs.skip(i));
        assert(pairs.skip(i - 1)[0] == pairs[i - 1]);
    } else {
        assert(pairs.skip(0) =~= pairs);
    }
}

/// If none of the first `i` pairs matches `key`, storing under `key` keeps
/// that prefix and rewrites only the remainder.
proof fn lemma_store_skip(pairs: Seq<(String, Value)>, key: String, val: Value, i: int)
    requires
        0 <= i <= pairs.len(),
        forall|j: int| 0 <= j < i ==> pairs[j].0@ != key@,
    ensures
        spec_store(pairs, key, val) == pairs.take(i) + spec_store(pairs.skip(i), key, val),
    decreases i,
{
    if i > 0 {
        lemma_store_skip(pairs, key, val, i - 1);
        assert(pairs.skip(i - 1).drop_first() =~= pairs.skip(i));
        assert(pairs.skip(i - 1)[0] == pairs[i - 1]);
        assert(spec_store(pairs.skip(i - 1), key, val) == seq![pairs[i - 1]] + spec_store(
            pairs.skip(i),
            key,
            val,
        ));
        assert(pairs.take(i - 1) + seq![pairs[i - 1]] =~= pairs.take(i));
        assert(pairs.take(i - 1) + (seq![pairs[i - 1]] + spec_store(pairs.skip(i), key, val))
            =~= pairs.take(i) + spec_store(pairs.skip(i), key, val));
    } else {
        assert(pairs.skip(0) =~= pairs);
        assert(pairs.take(0) + spec_store(pairs, key, val) =~= spec_store(pairs, key, val));
    }
}

/// After a store, the stored key reads back the stored value, and every
/// other key reads exactly what it read before.
pub proof fn lemma_lookup_after_store(pairs: Seq<(String, Value)>, key: String, val: Value)
    ensures
        spec_lookup(spec_store(pairs, key, val), key@) == Some(val),
        forall|k: Seq<char>|
            k != key@ ==> spec_lookup(spec_store(pairs, key, val), k) == spec_lookup(pairs, k),
    decreases pairs.len(),
{
    let stored = spec_store(pairs, key, val);
    if pairs.len() == 0 {
        assert(stored == seq![(key, val)]);
        assert(stored[0] == (key, val));
        assert forall|k: Seq<char>| k != key@ implies spec_lookup(stored, k) == spec_lookup(
            pairs,
            k,
        ) by {
            assert(stored.drop_first() =~= Seq::<(String, Value)>::empty());
            assert(spec_lookup(stored, k) == spec_lookup(stored.drop_first(), k));
            assert(spec_lookup(stored.drop_first(), k) is None);
            assert(spec_lookup(pairs, k) is None);
        }
    } else if pairs[0].0@ == key@ {
        assert(stored == seq![(pairs[0].0, val)] + pairs.drop_first());
        assert(stored[0] == (pairs[0].0, val));
        assert(stored.drop_first() =~= pairs.drop_first());
        assert(spec_lookup(stored, key@) == Some(val));
        assert forall|k: Seq<char>| k != key@ implies spec_lookup(stored, k) == spec_lookup(
            pairs,
            k,
        ) by {
            assert(spec_lookup(stored, k) == spec_lookup(stored.drop_first(), k));
            assert(spec_lookup(pairs, k) == spec_lookup(pairs.drop_first(), k));
        }
    } else {
        lemma_lookup_after_store(pairs.drop_first(), key, val);
        assert(stored == seq![pairs[0]] + spec_store(pairs.drop_first(), key, val));
        assert(stored[0] == pairs[0]);
        assert(stored.drop_first() =~= spec_store(pairs.drop_first(), key, val));
        assert(spec_lookup(stored, key@) == spec_lookup(stored.drop_first(), key@));
        assert forall|k: Seq<char>| k != key@ implies spec_lookup(stored, k) == spec_lookup(
            pairs,
            k,
        ) by {
            if k == pairs[0].0@ {
                assert(spec_lookup(stored, k) == Some(pairs[0].1));
                assert(spec_lookup(pairs, k) == Some(pairs[0].1));
            } else {
                assert(spec_lookup(stored, k) == spec_lookup(stored.drop_first(), k));
                assert(spec_lookup(pairs, k) == spec_lookup(pairs.drop_first(), k));
            }
        }
    }
}

impl Value {
    /// Reads the field named `key`; `None` when the value is not an object
    /// or no field of that name is present.
    pub fn get<'a>(&'a self, key: &str) -> (r: Option<&'a Value>)
        ensures
            match r {
                Some(v) => spec_get(*self, key@) == Some(*v),
                None => spec_get(*self, key@) is None,
            },
    {
        match self {
            Value::Object(pairs) => {
                let n = pairs.len();
                let mut i: usize = 0;
                #[verifier::loop_isolation(false)]
                while i < n
                    invariant
                        n == pairs@.len(),
                        0 <= i <= n,
                        forall|j: int| 0 <= j < i ==> pairs@[j].0@ != key@,
                    decreases n - i,
                {
                    if str_equal(pairs[i].0.as_str(), key) {
                        proof {
                            lemma_lookup_skip(pairs@, key@, i as int);
                            assert(pairs@.skip(i as int)[0] == pairs@[i as int]);
                            assert(spec_lookup(pairs@.skip(i as int), key@) == Some(
                                pairs@[i as int].1,
                            ));
                            assert(spec_get(*self, key@) == Some(pairs@[i as int].1));
                        }
                        let entry: &(String, Value) = &pairs[i];
                        return Some(&entry.1);
                    }
                    i += 1;
                }
                proof {
                    lemma_lookup_skip(pairs@, key@, n as int);
                    assert(pairs@.skip(n as int) =~= Seq::<(String, Value)>::empty());
                }
                None
            },
            _ => None,
        }
    }

    /// True exactly when reading `key` yields a field.
    pub fn has_field(&self, key: &str) -> (r: bool)
        ensures
            r == (spec_get(*self, key@) is Some),
    {
        self.get(key).is_some()
    }
}

/// Writes `val` under `key`. On an object the first pair of that name has
/// its value replaced and keeps its stored name; a fresh name is appended.
/// Any other shape of value is returned untouched, as a write into a
/// non-object record is a silent no-op.
pub fn set_field(v: Value, key: String, val: Value) -> (r: Value)
    ensures
        match v {
            Value::Object(pairs) => r matches Value::Object(rp) && rp@ == spec_store(
                pairs@,
                key,
                val,
            ),
            _ => r == v,
        },
{
    match v {
        Value::Object(mut pairs) => {
            let ghost orig = pairs@;
            let n = pairs.len();
            let mut i: usize = 0;
            #[verifier::loop_isolation(false)]
            while i < n
                invariant
                    pairs@ == orig,
                    n == orig.len(),
                    0 <= i <= n,
                    forall|j: int| 0 <= j < i ==> orig[j].0@ != key@,
                decreases n - i,
            {
                if str_equal(pairs[i].0.as_str(), key.as_str()) {
                    let (name, _prior) = pairs.remove(i);
                    pairs.insert(i, (name, val));
                    proof {
                        lemma_store_skip(orig, key, val, i as int);
                        assert(orig.skip(i as int)[0] == orig[i as int]);
                        assert(spec_store(orig.skip(i as int), key, val) == seq![
                            (orig[i as int].0, val),
                        ] + orig.skip(i as int).drop_first());
                        assert(orig.skip(i as int).drop_first() =~= orig.skip(i as int + 1));
                        assert(pairs@ =~= orig.take(i as int) + (seq![(orig[i as int].0, val)]
                            + orig.skip(i as int + 1)));
                        assert(pairs@ =~= spec_store(orig, key, val));
                    }
                    return Value::Object(pairs);
                }
                i += 1;
            }
            pairs.push((key, val));
            proof {
                lemma_store_skip(orig, key, val, n as int);
                assert(orig.skip(n as int) =~= Seq::<(String, Value)>::empty());
                assert(pairs@ =~= orig.take(n as int) + spec_store(orig.skip(n as int), key, val));
            }
            Value::Object(pairs)
        },
        other => other,
    }
}

} // verus!
