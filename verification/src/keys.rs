//! Text keys: their lexicographic order and lookups in sequences of keys
//! that hold each key at most once.

use vstd::prelude::*;

verus! {

/// `a` comes strictly before `b` when both are compared character by
/// character by code point (a proper prefix comes first). This is the order
/// of the UTF-8 bytes as well.
pub open spec fn lex_lt(a: Seq<char>, b: Seq<char>) -> bool
    decreases a.len(),
{
    if b.len() == 0 {
        false
    } else if a.len() == 0 {
        true
    } else if a[0] != b[0] {
        (a[0] as int) < (b[0] as int)
    } else {
        lex_lt(a.drop_first(), b.drop_first())
    }
}

pub proof fn lemma_lex_irreflexive(a: Seq<char>)
    ensures
        !lex_lt(a, a),
    decreases a.len(),
{
    if a.len() > 0 {
        lemma_lex_irreflexive(a.drop_first());
    }
}

pub proof fn lemma_lex_transitive(a: Seq<char>, b: Seq<char>, c: Seq<char>)
    requires
        lex_lt(a, b),
        lex_lt(b, c),
    ensures
        lex_lt(a, c),
    decreases a.len(),
{
    if a.len() > 0 && b.len() > 0 && c.len() > 0 && a[0] == b[0] && b[0] == c[0] {
        lemma_lex_transitive(a.drop_first(), b.drop_first(), c.drop_first());
    }
}

pub proof fn lemma_lex_total(a: Seq<char>, b: Seq<char>)
    ensures
        a == b || lex_lt(a, b) || lex_lt(b, a),
    decreases a.len(),
{
    if a.len() > 0 && b.len() > 0 && a[0] == b[0] {
        lemma_lex_total(a.drop_first(), b.drop_first());
        if a.drop_first() == b.drop_first() {
            assert(a =~= seq![a[0]] + a.drop_first());
            assert(b =~= seq![b[0]] + b.drop_first());
        }
    } else if a.len() == 0 && b.len() == 0 {
        assert(a =~= b);
    }
}

/// Whether `a` comes strictly before `b` in the order of `lex_lt`.
pub fn str_lt(a: &str, b: &str) -> (r: bool)
    ensures
        r == lex_lt(a@, b@),
{
    let av = crate::text::chars_of(a);
    let bv = crate::text::chars_of(b);
    let mut i: usize = 0;
    let n = av.len();
    let m = bv.len();
    assert(a@.skip(0) =~= a@);
    assert(b@.skip(0) =~= b@);
    while i < n && i < m && av[i] == bv[i]
        invariant
            n == av@.len(),
            m == bv@.len(),
            av@ == a@,
            bv@ == b@,
            i <= n,
            i <= m,
            av@.take(i as int) == bv@.take(i as int),
            lex_lt(a@, b@) == lex_lt(a@.skip(i as int), b@.skip(i as int)),
        decreases n - i,
    {
        proof {
            let x = a@.skip(i as int);
            let y = b@.skip(i as int);
            assert(x.drop_first() =~= a@.skip(i + 1));
            assert(y.drop_first() =~= b@.skip(i + 1));
            assert(av@.take(i + 1) =~= av@.take(i as int).push(av@[i as int]));
            assert(bv@.take(i + 1) =~= bv@.take(i as int).push(bv@[i as int]));
        }
        i += 1;
    }
    proof {
        let x = a@.skip(i as int);
        let y = b@.skip(i as int);
        if i < n && i < m {
            assert(x[0] == av@[i as int]);
            assert(y[0] == bv@[i as int]);
        }
    }
    if i == m {
        false
    } else if i == n {
        true
    } else {
        av[i] < bv[i]
    }
}

/// Strictly increasing in the order of `lex_lt`.
pub open spec fn sorted_keys(keys: Seq<Seq<char>>) -> bool {
    forall|i: int, j: int| 0 <= i < j < keys.len() ==> lex_lt(#[trigger] keys[i], #[trigger] keys[j])
}

pub open spec fn distinct(keys: Seq<Seq<char>>) -> bool {
    forall|i: int, j: int|
        0 <= i < keys.len() && 0 <= j < keys.len() && i != j ==> #[trigger] keys[i]
            != #[trigger] keys[j]
}

pub open spec fn has_key(keys: Seq<Seq<char>>, k: Seq<char>) -> bool {
    exists|i: int| 0 <= i < keys.len() && #[trigger] keys[i] == k
}

/// Where `k` stands in `keys` (meaningful when `has_key(keys, k)`).
pub open spec fn key_index(keys: Seq<Seq<char>>, k: Seq<char>) -> int {
    choose|i: int| 0 <= i < keys.len() && #[trigger] keys[i] == k
}

pub proof fn lemma_sorted_distinct(keys: Seq<Seq<char>>)
    requires
        sorted_keys(keys),
    ensures
        distinct(keys),
{
    assert forall|i: int, j: int|
        0 <= i < keys.len() && 0 <= j < keys.len() && i != j implies #[trigger] keys[i]
        != #[trigger] keys[j] by {
        if i < j {
            lemma_lex_irreflexive(keys[i]);
        } else {
            lemma_lex_irreflexive(keys[j]);
        }
    }
}

pub proof fn lemma_key_index(keys: Seq<Seq<char>>, i: int)
    requires
        distinct(keys),
        0 <= i < keys.len(),
    ensures
        has_key(keys, keys[i]),
        key_index(keys, keys[i]) == i,
{
    assert(keys[i] == keys[i]);
}

pub proof fn lemma_key_index_found(keys: Seq<Seq<char>>, k: Seq<char>)
    requires
        has_key(keys, k),
    ensures
        0 <= key_index(keys, k) < keys.len(),
        keys[key_index(keys, k)] == k,
{
}

/// Inserting a new key at `p` keeps the keys distinct and shifts the
/// positions at and after `p` by one.
pub proof fn lemma_insert_key(keys: Seq<Seq<char>>, p: int, key: Seq<char>)
    requires
        distinct(keys),
        !has_key(keys, key),
        0 <= p <= keys.len(),
    ensures
        distinct(keys.insert(p, key)),
        has_key(keys.insert(p, key), key),
        key_index(keys.insert(p, key), key) == p,
        forall|k: Seq<char>|
            k != key ==> (#[trigger] has_key(keys.insert(p, key), k) == has_key(keys, k)),
        forall|k: Seq<char>|
            k != key && has_key(keys, k) ==> #[trigger] key_index(keys.insert(p, key), k) == (if key_index(keys, k) < p {
                key_index(keys, k)
            } else {
                key_index(keys, k) + 1
            }),
{
    let n = keys.insert(p, key);
    assert forall|i: int, j: int|
        0 <= i < n.len() && 0 <= j < n.len() && i != j implies #[trigger] n[i] != #[trigger] n[j] by {
        if i == p {
            if j < p {
                assert(keys[j] == n[j]);
            } else {
                assert(keys[j - 1] == n[j]);
            }
        } else if j == p {
            if i < p {
                assert(keys[i] == n[i]);
            } else {
                assert(keys[i - 1] == n[i]);
            }
        }
    }
    lemma_key_index(n, p);
    assert forall|k: Seq<char>| k != key implies (#[trigger] has_key(n, k) == has_key(keys, k)) by {
        if has_key(keys, k) {
            let i = key_index(keys, k);
            if i < p {
                assert(n[i] == k);
            } else {
                assert(n[i + 1] == k);
            }
        }
        if has_key(n, k) {
            let i = key_index(n, k);
            if i < p {
                assert(keys[i] == k);
            } else {
                assert(keys[i - 1] == k);
            }
        }
    }
    assert forall|k: Seq<char>| k != key && has_key(keys, k) implies #[trigger] key_index(n, k) == (
    if key_index(keys, k) < p {
        key_index(keys, k)
    } else {
        key_index(keys, k) + 1
    }) by {
        let i = key_index(keys, k);
        if i < p {
            assert(n[i] == k);
            lemma_key_index(n, i);
        } else {
            assert(n[i + 1] == k);
            lemma_key_index(n, i + 1);
        }
    }
}

/// Inserting `key` at `p` keeps the keys sorted when everything before `p`
/// is smaller and everything from `p` on is larger.
pub proof fn lemma_insert_sorted(keys: Seq<Seq<char>>, p: int, key: Seq<char>)
    requires
        sorted_keys(keys),
        0 <= p <= keys.len(),
        forall|i: int| 0 <= i < p ==> lex_lt(#[trigger] keys[i], key),
        p < keys.len() ==> lex_lt(key, keys[p]),
    ensures
        sorted_keys(keys.insert(p, key)),
{
    let n = keys.insert(p, key);
    assert forall|i: int, j: int| 0 <= i < j < n.len() implies lex_lt(#[trigger] n[i], #[trigger] n[j]) by {
        if j < p {
            assert(n[i] == keys[i] && n[j] == keys[j]);
        } else if j == p {
            assert(n[i] == keys[i]);
        } else if i == p {
            assert(n[j] == keys[j - 1]);
            if j - 1 > p {
                lemma_lex_transitive(key, keys[p], keys[j - 1]);
            }
        } else if i < p {
            assert(n[i] == keys[i] && n[j] == keys[j - 1]);
        } else {
            assert(n[i] == keys[i - 1] && n[j] == keys[j - 1]);
        }
    }
}

} // verus!
