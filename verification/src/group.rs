//! Grouping of names by the key that each comes with.

use crate::artifact::{same_key, Rendered};
use crate::search::{lemma_first_where, looked_up};
use vstd::prelude::*;
use vstd::string::*;

verus! {

/// The keys that occur in `keys`, each once, in the order in which they first
/// occur.
pub open spec fn distinct<K>(keys: Seq<K>) -> Seq<K>
    decreases keys.len(),
{
    if keys.len() == 0 {
        Seq::empty()
    } else {
        let before = distinct(keys.drop_last());
        if before.contains(keys.last()) {
            before
        } else {
            before.push(keys.last())
        }
    }
}

/// The names that come with `key`: `names[i]` for each `i` with
/// `keys[i] == key`, in order.
pub open spec fn members<K, N>(keys: Seq<K>, names: Seq<N>, key: K) -> Seq<N>
    decreases keys.len(),
{
    if keys.len() == 0 || names.len() == 0 {
        Seq::empty()
    } else {
        let before = members(keys.drop_last(), names.drop_last(), key);
        if keys.last() == key {
            before.push(names.last())
        } else {
            before
        }
    }
}

/// The names grouped by their keys: one bucket for each key that occurs, in
/// the order in which the keys first occur, each with the names that come
/// with its key, in order.
pub open spec fn grouped<K, N>(keys: Seq<K>, names: Seq<N>) -> Seq<(K, Seq<N>)> {
    distinct(keys).map_values(|key: K| (key, members(keys, names, key)))
}

/// `distinct` keeps exactly the keys that occur.
pub proof fn lemma_distinct_contains<K>(keys: Seq<K>, key: K)
    ensures
        distinct(keys).contains(key) <==> keys.contains(key),
    decreases keys.len(),
{
    if keys.len() > 0 {
        let rest = keys.drop_last();
        let before = distinct(rest);
        lemma_distinct_contains(rest, key);
        lemma_distinct_contains(rest, keys.last());
        assert(keys =~= rest.push(keys.last()));
        vstd::seq_lib::lemma_seq_contains_after_push(rest, keys.last(), key);
        vstd::seq_lib::lemma_seq_contains_after_push(before, keys.last(), key);
    }
}

/// `distinct` keeps each key once.
pub proof fn lemma_distinct_no_duplicates<K>(keys: Seq<K>)
    ensures
        distinct(keys).no_duplicates(),
    decreases keys.len(),
{
    if keys.len() > 0 {
        lemma_distinct_no_duplicates(keys.drop_last());
    }
}

/// A key that does not occur has no members.
pub proof fn lemma_members_absent<K, N>(keys: Seq<K>, names: Seq<N>, key: K)
    requires
        !keys.contains(key),
    ensures
        members(keys, names, key) == Seq::<N>::empty(),
    decreases keys.len(),
{
    if keys.len() > 0 && names.len() > 0 {
        let rest = keys.drop_last();
        assert(keys[keys.len() - 1] != key);
        assert forall|i: int| 0 <= i < rest.len() implies rest[i] != key by {
            assert(keys[i] != key);
        }
        lemma_members_absent(rest, names.drop_last(), key);
    }
}

/// A lookup among the buckets finds the members of a key that occurs, and
/// nothing for a key that does not.
pub proof fn lemma_grouped_lookup<K, N>(keys: Seq<K>, names: Seq<N>, key: K)
    ensures
        looked_up(grouped(keys, names), key) == if keys.contains(key) {
            Some(members(keys, names, key))
        } else {
            None
        },
{
    let buckets = grouped(keys, names);
    let known = distinct(keys);
    let p = |bucket: (K, Seq<N>)| bucket.0 == key;
    lemma_distinct_contains(keys, key);
    lemma_first_where(buckets, p);
    if keys.contains(key) {
        let i = known.index_of(key);
        assert(p(buckets[i]));
    } else {
        assert forall|j: int| 0 <= j < buckets.len() implies !p(buckets[j]) by {
            assert(known[j] == buckets[j].0);
            assert(known.contains(known[j]));
        }
    }
}

/// The members of a key among items, each with the key and the name that two
/// functions give it, are the names of the items whose key it is, in order.
pub proof fn lemma_members_filter<A, K, N>(
    items: Seq<A>,
    key_of: spec_fn(A) -> K,
    name_of: spec_fn(A) -> N,
    key: K,
    holds: spec_fn(A) -> bool,
)
    requires
        forall|item: A| #[trigger] holds(item) == (key_of(item) == key),
    ensures
        members(items.map_values(key_of), items.map_values(name_of), key) == items.filter(
            holds,
        ).map_values(name_of),
    decreases items.len(),
{
    reveal(Seq::filter);
    if items.len() > 0 {
        let rest = items.drop_last();
        lemma_members_filter(rest, key_of, name_of, key, holds);
        assert(items.map_values(key_of).drop_last() =~= rest.map_values(key_of));
        assert(items.map_values(name_of).drop_last() =~= rest.map_values(name_of));
        if holds(items.last()) {
            assert(items.filter(holds).map_values(name_of) =~= rest.filter(holds).map_values(
                name_of,
            ).push(name_of(items.last())));
        }
    } else {
        assert(items.filter(holds).map_values(name_of) =~= Seq::<N>::empty());
    }
}

/// A copy of `key`.
fn copied_key(key: &Vec<Rendered>) -> (r: Vec<Rendered>)
    ensures
        r.deep_view() == key.deep_view(),
{
    let mut out: Vec<Rendered> = Vec::new();
    let mut i: usize = 0;
    while i < key.len()
        invariant
            i <= key.len(),
            out.len() == i,
            forall|j: int| 0 <= j < i ==> out[j]@ == key[j]@,
        decreases key.len() - i,
    {
        out.push(key[i].clone());
        i += 1;
    }
    assert(out.deep_view() =~= key.deep_view());
    out
}

/// Groups `names` by the key that each comes with: `names[i]` comes with
/// `keys[i]`.
pub fn group(keys: &Vec<Vec<Rendered>>, names: &Vec<String>) -> (r: Vec<
    (Vec<Rendered>, Vec<String>),
>)
    requires
        keys.len() == names.len(),
    ensures
        r.deep_view() == grouped(keys.deep_view(), names.deep_view()),
{
    let ghost all_keys = keys.deep_view();
    let ghost all_names = names.deep_view();
    let mut out: Vec<(Vec<Rendered>, Vec<String>)> = Vec::new();
    let mut r: usize = 0;
    assert(out.deep_view() =~= grouped(all_keys.take(0), all_names.take(0)));
    while r < keys.len()
        invariant
            r <= keys.len(),
            keys.len() == names.len(),
            all_keys == keys.deep_view(),
            all_names == names.deep_view(),
            out.deep_view() == grouped(all_keys.take(r as int), all_names.take(r as int)),
        decreases keys.len() - r,
    {
        let key = &keys[r];
        let ghost seen_keys = all_keys.take(r as int);
        let ghost seen_names = all_names.take(r as int);
        let ghost next_keys = all_keys.take(r + 1);
        let ghost next_names = all_names.take(r + 1);
        let ghost before = out.deep_view();
        let ghost known = distinct(seen_keys);
        proof {
            assert(next_keys.drop_last() == seen_keys);
            assert(next_names.drop_last() == seen_names);
            assert(next_keys.last() == key.deep_view());
            assert(next_names.last() == names[r as int]@);
            lemma_distinct_no_duplicates(seen_keys);
            lemma_distinct_contains(seen_keys, key.deep_view());
            assert(before.len() == known.len());
            assert forall|j: int| 0 <= j < known.len() implies (#[trigger] before[j]).0
                == known[j] by {}
        }
        let mut b: usize = 0;
        let mut found = false;
        while b < out.len()
            invariant_except_break
                !found,
                forall|j: int| 0 <= j < b ==> (#[trigger] out.deep_view()[j]).0 != key.deep_view(),
            invariant
                b <= out.len(),
            ensures
                b <= out.len(),
                found ==> b < out.len() && out.deep_view()[b as int].0 == key.deep_view(),
                !found ==> forall|j: int|
                    0 <= j < out.len() ==> (#[trigger] out.deep_view()[j]).0 != key.deep_view(),
            decreases out.len() - b,
        {
            if same_key(&out[b].0, key) {
                found = true;
                break ;
            }
            b += 1;
        }
        if found {
            out[b].1.push(names[r].clone());
            proof {
                let after = out.deep_view();
                assert(known.contains(key.deep_view()));
                assert(distinct(next_keys) == known);
                assert(after.len() == known.len());
                assert forall|j: int| 0 <= j < known.len() implies after[j] == grouped(
                    next_keys,
                    next_names,
                )[j] by {
                    if j == b {
                        assert(after[j].1 =~= before[j].1.push(names[r as int]@));
                    } else {
                        assert(after[j] == before[j]);
                        assert(known[j] != known[b as int]);
                    }
                }
                assert(after =~= grouped(next_keys, next_names));
            }
        } else {
            let mut first: Vec<String> = Vec::new();
            first.push(names[r].clone());
            let fresh = copied_key(key);
            out.push((fresh, first));
            proof {
                let after = out.deep_view();
                assert(!known.contains(key.deep_view())) by {
                    if known.contains(key.deep_view()) {
                        let j = choose|j: int| 0 <= j < known.len() && known[j] == key.deep_view();
                        assert(before[j].0 == known[j]);
                    }
                }
                lemma_members_absent(seen_keys, seen_names, key.deep_view());
                assert(distinct(next_keys) == known.push(key.deep_view()));
                assert(first.deep_view() =~= Seq::<Seq<char>>::empty().push(names[r as int]@));
                assert forall|j: int| 0 <= j < after.len() implies after[j] == grouped(
                    next_keys,
                    next_names,
                )[j] by {
                    if j < known.len() {
                        assert(after[j] == before[j]);
                        assert(known[j] != key.deep_view());
                    }
                }
                assert(after =~= grouped(next_keys, next_names));
            }
        }
        r += 1;
    }
    assert(all_keys.take(keys.len() as int) == all_keys);
    assert(all_names.take(names.len() as int) == all_names);
    out
}

} // verus!
