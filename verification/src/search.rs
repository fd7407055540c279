//! First-match search in sequences.

use vstd::prelude::*;

verus! {

/// The index of the first element of `s` that satisfies `p`.
pub open spec fn first_where<A>(s: Seq<A>, p: spec_fn(A) -> bool) -> Option<int>
    decreases s.len(),
{
    if s.len() == 0 {
        None
    } else if p(s[0]) {
        Some(0)
    } else {
        match first_where(s.skip(1), p) {
            Some(i) => Some(i + 1),
            None => None,
        }
    }
}

/// What `first_where` finds satisfies `p` and nothing before it does; where it
/// finds nothing, nothing satisfies `p`.
pub proof fn lemma_first_where<A>(s: Seq<A>, p: spec_fn(A) -> bool)
    ensures
        match first_where(s, p) {
            Some(i) => 0 <= i < s.len() && p(s[i]) && forall|j: int| 0 <= j < i ==> !p(s[j]),
            None => forall|j: int| 0 <= j < s.len() ==> !p(s[j]),
        },
    decreases s.len(),
{
    if s.len() > 0 && !p(s[0]) {
        let rest = s.skip(1);
        lemma_first_where(rest, p);
        match first_where(rest, p) {
            Some(i) => {
                assert(rest[i] == s[i + 1]);
                assert forall|j: int| 0 <= j < i + 1 implies !p(s[j]) by {
                    if j > 0 {
                        assert(rest[j - 1] == s[j]);
                    }
                }
            },
            None => {
                assert forall|j: int| 0 <= j < s.len() implies !p(s[j]) by {
                    if j > 0 {
                        assert(rest[j - 1] == s[j]);
                    }
                }
            },
        }
    }
}

/// An element that satisfies `p` and has none before it that does is the one
/// that `first_where` finds.
pub proof fn lemma_first_where_found<A>(s: Seq<A>, p: spec_fn(A) -> bool, i: int)
    requires
        0 <= i < s.len(),
        p(s[i]),
        forall|j: int| 0 <= j < i ==> !p(s[j]),
    ensures
        first_where(s, p) == Some(i),
{
    lemma_first_where(s, p);
}

/// Where nothing satisfies `p`, `first_where` finds nothing.
pub proof fn lemma_first_where_absent<A>(s: Seq<A>, p: spec_fn(A) -> bool)
    requires
        forall|j: int| 0 <= j < s.len() ==> !p(s[j]),
    ensures
        first_where(s, p) is None,
{
    lemma_first_where(s, p);
}

/// The index of the first of `arms` whose key equals `key`.
pub open spec fn position_of<K, V>(arms: Seq<(K, V)>, key: K) -> Option<int> {
    first_where(arms, |arm: (K, V)| arm.0 == key)
}

/// The value paired with the first key of `arms` that equals `key`.
pub open spec fn looked_up<K, V>(arms: Seq<(K, V)>, key: K) -> Option<V> {
    match position_of(arms, key) {
        Some(i) => Some(arms[i].1),
        None => None,
    }
}

/// What `position_of` finds has the key and nothing before it has; where it
/// finds nothing, nothing has the key.
pub proof fn lemma_position_of<K, V>(arms: Seq<(K, V)>, key: K)
    ensures
        match position_of(arms, key) {
            Some(i) => 0 <= i < arms.len() && arms[i].0 == key && forall|j: int|
                0 <= j < i ==> arms[j].0 != key,
            None => forall|j: int| 0 <= j < arms.len() ==> arms[j].0 != key,
        },
{
    lemma_first_where(arms, |arm: (K, V)| arm.0 == key);
}

/// A search in a sequence with one more element at its end finds what the
/// search in the sequence finds, and else that element if it satisfies `p`.
pub proof fn lemma_first_where_push<A>(s: Seq<A>, a: A, p: spec_fn(A) -> bool)
    ensures
        first_where(s.push(a), p) == match first_where(s, p) {
            Some(i) => Some(i),
            None => if p(a) {
                Some(s.len() as int)
            } else {
                None
            },
        },
{
    let longer = s.push(a);
    lemma_first_where(s, p);
    match first_where(s, p) {
        Some(i) => {
            assert(longer[i] == s[i]);
            assert forall|j: int| 0 <= j < i implies !p(longer[j]) by {
                assert(longer[j] == s[j]);
            }
            lemma_first_where_found(longer, p, i);
        },
        None => {
            assert forall|j: int| 0 <= j < s.len() implies !p(longer[j]) by {
                assert(longer[j] == s[j]);
            }
            if p(a) {
                lemma_first_where_found(longer, p, s.len() as int);
            } else {
                lemma_first_where_absent(longer, p);
            }
        },
    }
}

/// A lookup among arms with one more arm at their end finds what the lookup
/// among the arms finds, and else the value of that arm if its key is the one
/// looked for.
pub proof fn lemma_looked_up_push<K, V>(arms: Seq<(K, V)>, arm: (K, V), key: K)
    ensures
        looked_up(arms.push(arm), key) == match looked_up(arms, key) {
            Some(v) => Some(v),
            None => if arm.0 == key {
                Some(arm.1)
            } else {
                None
            },
        },
{
    let p = |arm: (K, V)| arm.0 == key;
    lemma_first_where_push(arms, arm, p);
    lemma_first_where(arms, p);
}

} // verus!
