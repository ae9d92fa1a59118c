//! Association lists: the maps of the knowledge base.
//!
//! Every map in the knowledge base is a vector of key-value pairs with a
//! first-match lookup; insertion replaces the value of an existing key,
//! so maps built through these functions keep one entry per key and keep
//! insertion order, which makes validation output deterministic. Keys are
//! symbols (compared by name), strings (compared by characters) or
//! numeric IDs.

use vstd::prelude::*;

use crate::terms::Symbol;

verus! {

// ---------------------------------------------------------------------
// Symbol-keyed maps
// ---------------------------------------------------------------------

/// First-match lookup by symbol name.
pub open spec fn skey_find<V>(m: Seq<(Symbol, V)>, k: Seq<char>) -> Option<V>
    decreases m.len(),
{
    if m.len() == 0 {
        None
    } else if m[0].0@ == k {
        Some(m[0].1)
    } else {
        skey_find(m.drop_first(), k)
    }
}

/// If the first `i` keys differ from `k` and key `i` equals `k`, the
/// lookup returns entry `i`'s value.
pub proof fn lemma_skey_find_at<V>(m: Seq<(Symbol, V)>, k: Seq<char>, i: int)
    requires
        0 <= i < m.len(),
        forall|j: int| 0 <= j < i ==> m[j].0@ != k,
        m[i].0@ == k,
    ensures
        skey_find(m, k) == Some(m[i].1),
    decreases i,
{
    if i > 0 {
        lemma_skey_find_at(m.drop_first(), k, i - 1);
    }
}

/// If no key equals `k`, the lookup returns `None`.
pub proof fn lemma_skey_find_none<V>(m: Seq<(Symbol, V)>, k: Seq<char>)
    requires
        forall|j: int| 0 <= j < m.len() ==> m[j].0@ != k,
    ensures
        skey_find(m, k) is None,
    decreases m.len(),
{
    if m.len() > 0 {
        lemma_skey_find_none(m.drop_first(), k);
    }
}

/// Updating entry `i` (whose key stays `k`) changes the lookup of `k`
/// alone, provided no earlier entry has key `k`.
pub proof fn lemma_skey_find_update<V>(m: Seq<(Symbol, V)>, i: int, p: (Symbol, V), k2: Seq<char>)
    requires
        0 <= i < m.len(),
        forall|j: int| 0 <= j < i ==> m[j].0@ != p.0@,
        m[i].0@ == p.0@,
    ensures
        skey_find(m.update(i, p), k2) == if k2 == p.0@ {
            Some(p.1)
        } else {
            skey_find(m, k2)
        },
    decreases i,
{
    let out = m.update(i, p);
    if i == 0 {
        assert(out.drop_first() =~= m.drop_first());
        if k2 == p.0@ {
        } else {
            if m[0].0@ == k2 {
            }
        }
    } else {
        lemma_skey_find_update(m.drop_first(), i - 1, p, k2);
        assert(out.drop_first() =~= m.drop_first().update(i - 1, p));
    }
}

/// Appending an entry whose key is absent changes the lookup of that key
/// alone.
pub proof fn lemma_skey_find_push<V>(m: Seq<(Symbol, V)>, p: (Symbol, V), k2: Seq<char>)
    requires
        forall|j: int| 0 <= j < m.len() ==> m[j].0@ != p.0@,
    ensures
        skey_find(m.push(p), k2) == if k2 == p.0@ {
            Some(p.1)
        } else {
            skey_find(m, k2)
        },
    decreases m.len(),
{
    let out = m.push(p);
    if m.len() == 0 {
        assert(out.drop_first() =~= m);
    } else {
        lemma_skey_find_push(m.drop_first(), p, k2);
        assert(out.drop_first() =~= m.drop_first().push(p));
    }
}

/// A found value is one of the stored values.
pub proof fn lemma_skey_find_member<V>(m: Seq<(Symbol, V)>, k: Seq<char>)
    ensures
        skey_find(m, k) matches Some(v) ==> exists|i: int|
            0 <= i < m.len() && #[trigger] m[i].1 == v,
    decreases m.len(),
{
    if m.len() > 0 {
        if m[0].0@ == k {
            assert(m[0].1 == skey_find(m, k)->0);
        } else {
            lemma_skey_find_member(m.drop_first(), k);
            if skey_find(m, k) is Some {
                let i = choose|i: int|
                    0 <= i < m.drop_first().len() && #[trigger] m.drop_first()[i].1 == skey_find(
                        m,
                        k,
                    )->0;
                assert(m[i + 1].1 == skey_find(m, k)->0);
            }
        }
    }
}

/// Look a key up, returning a reference to its value.
pub fn skey_get<'a, V>(m: &'a Vec<(Symbol, V)>, k: &Symbol) -> (r: Option<&'a V>)
    ensures
        match r {
            Some(v) => skey_find(m@, k@) == Some(*v),
            None => skey_find(m@, k@) is None,
        },
{
    let n = m.len();
    let mut i: usize = 0;
    #[verifier::loop_isolation(false)]
    while i < n
        invariant
            n == m.len(),
            i <= n,
            forall|j: int| 0 <= j < i ==> m@[j].0@ != k@,
        decreases n - i,
    {
        if m[i].0.eq_name(k) {
            proof {
                lemma_skey_find_at(m@, k@, i as int);
            }
            return Some(&m[i].1);
        }
        i = i + 1;
    }
    proof {
        lemma_skey_find_none(m@, k@);
    }
    None
}

/// Whether a key is present.
pub fn skey_contains<V>(m: &Vec<(Symbol, V)>, k: &Symbol) -> (r: bool)
    ensures
        r == (skey_find(m@, k@) is Some),
{
    skey_get(m, k).is_some()
}

/// Store `v` under `k`, replacing the value of an existing key.
pub fn skey_set<V>(m: &mut Vec<(Symbol, V)>, k: Symbol, v: V)
    ensures
        skey_find(final(m)@, k@) == Some(v),
        forall|k2: Seq<char>| k2 != k@ ==> skey_find(final(m)@, k2) == skey_find(old(m)@, k2),
        final(m)@.len() <= old(m)@.len() + 1,
{
    let n = m.len();
    let mut i: usize = 0;
    #[verifier::loop_isolation(false)]
    while i < n
        invariant
            n == m.len(),
            i <= n,
            m@ == old(m)@,
            forall|j: int| 0 <= j < i ==> m@[j].0@ != k@,
        decreases n - i,
    {
        if m[i].0.eq_name(&k) {
            proof {
                let ghost kv = k@;
                assert forall|k2: Seq<char>| true implies skey_find(
                    m@.update(i as int, (k, v)),
                    k2,
                ) == if k2 == kv {
                    Some(v)
                } else {
                    skey_find(m@, k2)
                } by {
                    lemma_skey_find_update(m@, i as int, (k, v), k2);
                }
            }
            m.set(i, (k, v));
            return ;
        }
        i = i + 1;
    }
    proof {
        let ghost kv = k@;
        assert forall|k2: Seq<char>| true implies skey_find(m@.push((k, v)), k2) == if k2 == kv {
            Some(v)
        } else {
            skey_find(m@, k2)
        } by {
            lemma_skey_find_push(m@, (k, v), k2);
        }
    }
    m.push((k, v));
}

// ---------------------------------------------------------------------
// String-keyed maps
// ---------------------------------------------------------------------

/// First-match lookup by string key.
pub open spec fn strkey_find<V>(m: Seq<(String, V)>, k: Seq<char>) -> Option<V>
    decreases m.len(),
{
    if m.len() == 0 {
        None
    } else if m[0].0@ == k {
        Some(m[0].1)
    } else {
        strkey_find(m.drop_first(), k)
    }
}

pub proof fn lemma_strkey_find_at<V>(m: Seq<(String, V)>, k: Seq<char>, i: int)
    requires
        0 <= i < m.len(),
        forall|j: int| 0 <= j < i ==> m[j].0@ != k,
        m[i].0@ == k,
    ensures
        strkey_find(m, k) == Some(m[i].1),
    decreases i,
{
    if i > 0 {
        lemma_strkey_find_at(m.drop_first(), k, i - 1);
    }
}

pub proof fn lemma_strkey_find_none<V>(m: Seq<(String, V)>, k: Seq<char>)
    requires
        forall|j: int| 0 <= j < m.len() ==> m[j].0@ != k,
    ensures
        strkey_find(m, k) is None,
    decreases m.len(),
{
    if m.len() > 0 {
        lemma_strkey_find_none(m.drop_first(), k);
    }
}

pub proof fn lemma_strkey_find_update<V>(m: Seq<(String, V)>, i: int, p: (String, V), k2: Seq<char>)
    requires
        0 <= i < m.len(),
        forall|j: int| 0 <= j < i ==> m[j].0@ != p.0@,
        m[i].0@ == p.0@,
    ensures
        strkey_find(m.update(i, p), k2) == if k2 == p.0@ {
            Some(p.1)
        } else {
            strkey_find(m, k2)
        },
    decreases i,
{
    let out = m.update(i, p);
    if i == 0 {
        assert(out.drop_first() =~= m.drop_first());
        if k2 == p.0@ {
        } else {
            if m[0].0@ == k2 {
            }
        }
    } else {
        lemma_strkey_find_update(m.drop_first(), i - 1, p, k2);
        assert(out.drop_first() =~= m.drop_first().update(i - 1, p));
    }
}

pub proof fn lemma_strkey_find_push<V>(m: Seq<(String, V)>, p: (String, V), k2: Seq<char>)
    requires
        forall|j: int| 0 <= j < m.len() ==> m[j].0@ != p.0@,
    ensures
        strkey_find(m.push(p), k2) == if k2 == p.0@ {
            Some(p.1)
        } else {
            strkey_find(m, k2)
        },
    decreases m.len(),
{
    let out = m.push(p);
    if m.len() == 0 {
        assert(out.drop_first() =~= m);
    } else {
        lemma_strkey_find_push(m.drop_first(), p, k2);
        assert(out.drop_first() =~= m.drop_first().push(p));
    }
}

/// Look a string key up, returning a reference to its value.
pub fn strkey_get<'a, V>(m: &'a Vec<(String, V)>, k: &str) -> (r: Option<&'a V>)
    ensures
        match r {
            Some(v) => strkey_find(m@, k@) == Some(*v),
            None => strkey_find(m@, k@) is None,
        },
{
    let n = m.len();
    let mut i: usize = 0;
    #[verifier::loop_isolation(false)]
    while i < n
        invariant
            n == m.len(),
            i <= n,
            forall|j: int| 0 <= j < i ==> m@[j].0@ != k@,
        decreases n - i,
    {
        if crate::terms::str_eq(m[i].0.as_str(), k) {
            proof {
                lemma_strkey_find_at(m@, k@, i as int);
            }
            return Some(&m[i].1);
        }
        i = i + 1;
    }
    proof {
        lemma_strkey_find_none(m@, k@);
    }
    None
}

/// Whether a string key is present.
pub fn strkey_contains<V>(m: &Vec<(String, V)>, k: &str) -> (r: bool)
    ensures
        r == (strkey_find(m@, k@) is Some),
{
    strkey_get(m, k).is_some()
}

/// Store `v` under string key `k`, replacing the value of an existing key.
pub fn strkey_set<V>(m: &mut Vec<(String, V)>, k: String, v: V)
    ensures
        strkey_find(final(m)@, k@) == Some(v),
        forall|k2: Seq<char>| k2 != k@ ==> strkey_find(final(m)@, k2) == strkey_find(old(m)@, k2),
        final(m)@.len() <= old(m)@.len() + 1,
{
    let n = m.len();
    let mut i: usize = 0;
    #[verifier::loop_isolation(false)]
    while i < n
        invariant
            n == m.len(),
            i <= n,
            m@ == old(m)@,
            forall|j: int| 0 <= j < i ==> m@[j].0@ != k@,
        decreases n - i,
    {
        if crate::terms::str_eq(m[i].0.as_str(), k.as_str()) {
            proof {
                let ghost kv = k@;
                assert forall|k2: Seq<char>| true implies strkey_find(
                    m@.update(i as int, (k, v)),
                    k2,
                ) == if k2 == kv {
                    Some(v)
                } else {
                    strkey_find(m@, k2)
                } by {
                    lemma_strkey_find_update(m@, i as int, (k, v), k2);
                }
            }
            m.set(i, (k, v));
            return ;
        }
        i = i + 1;
    }
    proof {
        let ghost kv = k@;
        assert forall|k2: Seq<char>| true implies strkey_find(m@.push((k, v)), k2) == if k2 == kv {
            Some(v)
        } else {
            strkey_find(m@, k2)
        } by {
            lemma_strkey_find_push(m@, (k, v), k2);
        }
    }
    m.push((k, v));
}

// ---------------------------------------------------------------------
// ID-keyed maps
// ---------------------------------------------------------------------

/// First-match lookup by numeric ID.
pub open spec fn idkey_find<V>(m: Seq<(u64, V)>, k: u64) -> Option<V>
    decreases m.len(),
{
    if m.len() == 0 {
        None
    } else if m[0].0 == k {
        Some(m[0].1)
    } else {
        idkey_find(m.drop_first(), k)
    }
}

pub proof fn lemma_idkey_find_at<V>(m: Seq<(u64, V)>, k: u64, i: int)
    requires
        0 <= i < m.len(),
        forall|j: int| 0 <= j < i ==> m[j].0 != k,
        m[i].0 == k,
    ensures
        idkey_find(m, k) == Some(m[i].1),
    decreases i,
{
    if i > 0 {
        lemma_idkey_find_at(m.drop_first(), k, i - 1);
    }
}

pub proof fn lemma_idkey_find_none<V>(m: Seq<(u64, V)>, k: u64)
    requires
        forall|j: int| 0 <= j < m.len() ==> m[j].0 != k,
    ensures
        idkey_find(m, k) is None,
    decreases m.len(),
{
    if m.len() > 0 {
        lemma_idkey_find_none(m.drop_first(), k);
    }
}

/// Look an ID up, returning a reference to its value.
pub fn idkey_get<'a, V>(m: &'a Vec<(u64, V)>, k: u64) -> (r: Option<&'a V>)
    ensures
        match r {
            Some(v) => idkey_find(m@, k) == Some(*v),
            None => idkey_find(m@, k) is None,
        },
{
    let n = m.len();
    let mut i: usize = 0;
    #[verifier::loop_isolation(false)]
    while i < n
        invariant
            n == m.len(),
            i <= n,
            forall|j: int| 0 <= j < i ==> m@[j].0 != k,
        decreases n - i,
    {
        if m[i].0 == k {
            proof {
                lemma_idkey_find_at(m@, k, i as int);
            }
            return Some(&m[i].1);
        }
        i = i + 1;
    }
    proof {
        lemma_idkey_find_none(m@, k);
    }
    None
}

} // verus!
