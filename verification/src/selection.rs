//! Selections of indices, and their listing in the lexicographic order.

use crate::schema::MAX_KEY_COLUMNS;
use vstd::arithmetic::power2::{lemma2_to64, lemma_pow2_unfold, pow2};
use vstd::prelude::*;

verus! {

/// Whether `s` selects `k` of the indices below `n`, in increasing order.
pub open spec fn is_selection(s: Seq<usize>, n: nat, k: nat) -> bool {
    &&& s.len() == k
    &&& forall|i: int| 0 <= i < s.len() ==> s[i] < n
    &&& forall|i: int, j: int| 0 <= i < j < s.len() ==> s[i] < s[j]
}

/// Whether `a` comes before `b` in the lexicographic order: at the first
/// place where they differ, `a` holds the smaller index.
pub open spec fn precedes(a: Seq<usize>, b: Seq<usize>) -> bool {
    exists|i: int|
        0 <= i < a.len() && i < b.len() && a[i] < b[i] && forall|j: int|
            0 <= j < i ==> a[j] == b[j]
}

/// Whether `listing` holds every selection of `k` of the indices below `n`,
/// each once, in the lexicographic order.
pub open spec fn lists_selections(listing: Seq<Seq<usize>>, n: nat, k: nat) -> bool {
    &&& forall|i: int| 0 <= i < listing.len() ==> is_selection(#[trigger] listing[i], n, k)
    &&& forall|s: Seq<usize>| is_selection(s, n, k) ==> #[trigger] listing.contains(s)
    &&& forall|i: int, j: int|
        0 <= i < j < listing.len() ==> precedes(#[trigger] listing[i], #[trigger] listing[j])
}

/// Calls `itertools::Itertools::combinations` on the range of the indices
/// below `n` and collects what it yields. The iterator yields every selection
/// of `k` of the indices, each once and in increasing order, and the
/// selections in the lexicographic order; the contract says that and no more.
/// The bound on `n` keeps the listing small.
#[verifier::external_body]
pub(crate) fn index_combinations(n: usize, k: usize) -> (r: Vec<Vec<usize>>)
    requires
        n <= MAX_KEY_COLUMNS,
    ensures
        lists_selections(r.deep_view(), n as nat, k as nat),
{
    itertools::Itertools::combinations(0..n, k).collect()
}

/// No selection comes before another that comes before it; in particular,
/// none comes before itself.
pub proof fn lemma_precedes_asymmetric(a: Seq<usize>, b: Seq<usize>)
    requires
        precedes(a, b),
    ensures
        !precedes(b, a),
{
    if precedes(b, a) {
        let i = choose|i: int|
            0 <= i < a.len() && i < b.len() && a[i] < b[i] && forall|j: int|
                0 <= j < i ==> a[j] == b[j];
        let j = choose|j: int|
            0 <= j < b.len() && j < a.len() && b[j] < a[j] && forall|i: int|
                0 <= i < j ==> b[i] == a[i];
        if i < j {
            assert(b[i] == a[i]);
        } else if j < i {
            assert(a[j] == b[j]);
        }
    }
}

/// Two listings of the same selections hold the same selection at each place.
proof fn lemma_listings_agree(a: Seq<Seq<usize>>, b: Seq<Seq<usize>>, n: nat, k: nat, i: int)
    requires
        lists_selections(a, n, k),
        lists_selections(b, n, k),
        0 <= i < a.len(),
    ensures
        i < b.len(),
        a[i] == b[i],
    decreases i,
{
    assert(b.contains(a[i]));
    let at = b.index_of(a[i]);
    if at < i {
        lemma_listings_agree(a, b, n, k, at);
        assert(precedes(a[at], a[i]));
        lemma_precedes_asymmetric(a[i], a[i]);
    }
    if at > i {
        assert(precedes(b[i], b[at]));
        assert(a.contains(b[i]));
        let back = a.index_of(b[i]);
        if back < i {
            lemma_listings_agree(a, b, n, k, back);
            assert(precedes(b[back], b[i]));
            lemma_precedes_asymmetric(b[i], b[i]);
        } else if back == i {
            lemma_precedes_asymmetric(a[i], a[i]);
        } else {
            assert(precedes(a[i], a[back]));
            lemma_precedes_asymmetric(a[i], b[i]);
        }
    }
}

/// There is one listing of the selections of `k` of the indices below `n` in
/// the lexicographic order.
pub proof fn lemma_listing_unique(a: Seq<Seq<usize>>, b: Seq<Seq<usize>>, n: nat, k: nat)
    requires
        lists_selections(a, n, k),
        lists_selections(b, n, k),
    ensures
        a == b,
{
    if a.len() > 0 {
        lemma_listings_agree(a, b, n, k, a.len() - 1);
    }
    if b.len() > 0 {
        lemma_listings_agree(b, a, n, k, b.len() - 1);
    }
    assert forall|i: int| 0 <= i < a.len() implies a[i] == b[i] by {
        lemma_listings_agree(a, b, n, k, i);
    }
    assert(a =~= b);
}

/// Each index of `s`, raised by one.
pub open spec fn raised(s: Seq<usize>) -> Seq<usize> {
    s.map_values(|x: usize| (x + 1) as usize)
}

/// Each index of `s`, lowered by one.
pub open spec fn lowered(s: Seq<usize>) -> Seq<usize> {
    s.map_values(|x: usize| (x - 1) as usize)
}

/// The selections of `k` of the indices below `n`, in the lexicographic
/// order: those that begin with the index `0` come first, each followed by a
/// selection of the indices above it; those without the index `0` follow.
pub open spec fn combinations(n: nat, k: nat) -> Seq<Seq<usize>>
    decreases n,
{
    if k == 0 {
        seq![Seq::empty()]
    } else if n == 0 {
        Seq::empty()
    } else {
        combinations((n - 1) as nat, (k - 1) as nat).map_values(|s: Seq<usize>| seq![0usize] + raised(s))
            + combinations((n - 1) as nat, k).map_values(|s: Seq<usize>| raised(s))
    }
}

/// Raising a selection gives a selection of the indices from `1` on, and
/// keeps the order of selections.
proof fn lemma_raised(s: Seq<usize>, t: Seq<usize>, n: nat, k: nat)
    requires
        n < usize::MAX,
        is_selection(s, n, k),
        is_selection(t, n, k),
    ensures
        is_selection(raised(s), n + 1, k),
        is_selection(seq![0usize] + raised(s), n + 1, k + 1),
        forall|i: int| 0 <= i < k ==> raised(s)[i] == s[i] + 1,
        lowered(raised(s)) == s,
        precedes(s, t) ==> precedes(raised(s), raised(t)) && precedes(
            seq![0usize] + raised(s),
            seq![0usize] + raised(t),
        ),
        k > 0 ==> precedes(seq![0usize] + raised(s), raised(t)),
{
    let first = seq![0usize] + raised(s);
    let second = seq![0usize] + raised(t);
    assert forall|i: int, j: int| 0 <= i < j < first.len() implies first[i] < first[j] by {
        if i > 0 {
            assert(first[i] == raised(s)[i - 1] && first[j] == raised(s)[j - 1]);
        } else {
            assert(first[j] == raised(s)[j - 1]);
        }
    }
    assert forall|i: int| 0 <= i < first.len() implies first[i] < n + 1 by {
        if i > 0 {
            assert(first[i] == raised(s)[i - 1]);
        }
    }
    assert(lowered(raised(s)) =~= s);
    if precedes(s, t) {
        let i = choose|i: int|
            0 <= i < s.len() && i < t.len() && s[i] < t[i] && forall|j: int|
                0 <= j < i ==> s[j] == t[j];
        assert(raised(s)[i] < raised(t)[i]);
        assert forall|j: int| 0 <= j < i implies raised(s)[j] == raised(t)[j] by {
            assert(s[j] == t[j]);
        }
        assert(first[i + 1] < second[i + 1]);
        assert forall|j: int| 0 <= j < i + 1 implies first[j] == second[j] by {
            if j > 0 {
                assert(s[j - 1] == t[j - 1]);
            }
        }
    }
    if k > 0 {
        assert(first[0] < raised(t)[0]);
    }
}

/// A selection without the index `0` is a selection of the indices below
/// `n`, raised.
proof fn lemma_lowered(s: Seq<usize>, n: nat, k: nat)
    requires
        n < usize::MAX,
        is_selection(s, n + 1, k),
        forall|i: int| 0 <= i < s.len() ==> s[i] >= 1,
    ensures
        is_selection(lowered(s), n, k),
        raised(lowered(s)) == s,
{
    assert(raised(lowered(s)) =~= s);
}

/// `combinations` lists every selection, each once, in the lexicographic
/// order.
pub proof fn lemma_combinations(n: nat, k: nat)
    requires
        n <= usize::MAX,
    ensures
        lists_selections(combinations(n, k), n, k),
    decreases n,
{
    let listing = combinations(n, k);
    if k == 0 {
        assert forall|s: Seq<usize>| is_selection(s, n, k) implies #[trigger] listing.contains(
            s,
        ) by {
            assert(s =~= listing[0]);
        }
    } else if n == 0 {
        assert forall|s: Seq<usize>| is_selection(s, n, k) implies #[trigger] listing.contains(
            s,
        ) by {
            assert(s[0] < n);
        }
    } else {
        let m = (n - 1) as nat;
        let with_zero = combinations(m, (k - 1) as nat);
        let without = combinations(m, k);
        lemma_combinations(m, (k - 1) as nat);
        lemma_combinations(m, k);
        let split = with_zero.len() as int;
        assert forall|i: int| 0 <= i < listing.len() implies is_selection(
            #[trigger] listing[i],
            n,
            k,
        ) by {
            if i < split {
                lemma_raised(with_zero[i], with_zero[i], m, (k - 1) as nat);
            } else {
                lemma_raised(without[i - split], without[i - split], m, k);
            }
        }
        assert forall|s: Seq<usize>| is_selection(s, n, k) implies #[trigger] listing.contains(
            s,
        ) by {
            if s[0] == 0 {
                let rest = s.skip(1);
                assert forall|i: int| 0 <= i < rest.len() implies rest[i] >= 1 by {
                    assert(s[0] < s[i + 1]);
                }
                assert(is_selection(rest, n, (k - 1) as nat)) by {
                    assert forall|i: int, j: int| 0 <= i < j < rest.len() implies rest[i]
                        < rest[j] by {
                        assert(s[i + 1] < s[j + 1]);
                    }
                }
                lemma_lowered(rest, m, (k - 1) as nat);
                assert(with_zero.contains(lowered(rest)));
                let at = with_zero.index_of(lowered(rest));
                assert(listing[at] =~= s);
            } else {
                assert forall|i: int| 0 <= i < s.len() implies s[i] >= 1 by {
                    if i > 0 {
                        assert(s[0] < s[i]);
                    }
                }
                lemma_lowered(s, m, k);
                assert(without.contains(lowered(s)));
                let at = without.index_of(lowered(s));
                assert(listing[split + at] == s);
            }
        }
        assert forall|i: int, j: int| 0 <= i < j < listing.len() implies precedes(
            #[trigger] listing[i],
            #[trigger] listing[j],
        ) by {
            if j < split {
                assert(precedes(with_zero[i], with_zero[j]));
                lemma_raised(with_zero[i], with_zero[j], m, (k - 1) as nat);
            } else if i < split {
                lemma_raised(with_zero[i], with_zero[i], m, (k - 1) as nat);
                lemma_raised(without[j - split], without[j - split], m, k);
                assert(listing[i][0] < listing[j][0]);
            } else {
                assert(precedes(without[i - split], without[j - split]));
                lemma_raised(without[i - split], without[j - split], m, k);
            }
        }
    }
}

/// A listing of the selections in the lexicographic order is the listing.
pub proof fn lemma_combinations_listed(listing: Seq<Seq<usize>>, n: nat, k: nat)
    requires
        n <= usize::MAX,
        lists_selections(listing, n, k),
    ensures
        listing == combinations(n, k),
{
    lemma_combinations(n, k);
    lemma_listing_unique(listing, combinations(n, k), n, k);
}

/// The non-empty selections of the positions below `k`: those of one
/// position, then those of two, and so on up to `k`.
pub open spec fn selections(k: nat) -> Seq<Seq<usize>> {
    Seq::new(k, |i: int| combinations(k, (i + 1) as nat)).flatten()
}

/// Whether `listing` holds every non-empty selection of the positions below
/// `k` with at most `most` positions, each once, the smaller selections first
/// and those of one size in the lexicographic order.
pub open spec fn lists_subsets(listing: Seq<Seq<usize>>, k: nat, most: nat) -> bool {
    &&& forall|i: int|
        0 <= i < listing.len() ==> 1 <= (#[trigger] listing[i]).len() <= most && is_selection(
            listing[i],
            k,
            listing[i].len(),
        )
    &&& forall|s: Seq<usize>|
        1 <= s.len() <= most && is_selection(s, k, s.len()) ==> #[trigger] listing.contains(s)
    &&& forall|i: int, j: int|
        0 <= i < j < listing.len() ==> (#[trigger] listing[i]).len() < (#[trigger] listing[j]).len()
            || (listing[i].len() == listing[j].len() && precedes(listing[i], listing[j]))
}

/// A listing of the selections of up to `most` positions, followed by the
/// listing of the selections of one position more, lists the selections of up
/// to `most + 1` positions.
pub proof fn lemma_lists_subsets_extend(
    listing: Seq<Seq<usize>>,
    next: Seq<Seq<usize>>,
    k: nat,
    most: nat,
)
    requires
        lists_subsets(listing, k, most),
        lists_selections(next, k, most + 1),
    ensures
        lists_subsets(listing + next, k, most + 1),
{
    let all = listing + next;
    assert forall|i: int| 0 <= i < all.len() implies 1 <= (#[trigger] all[i]).len() <= most + 1
        && is_selection(all[i], k, all[i].len()) by {
        if i < listing.len() {
            assert(all[i] == listing[i]);
        } else {
            assert(all[i] == next[i - listing.len()]);
        }
    }
    assert forall|s: Seq<usize>| 1 <= s.len() <= most + 1 && is_selection(s, k, s.len()) implies
        #[trigger] all.contains(s) by {
        if s.len() <= most {
            assert(listing.contains(s));
            let i = listing.index_of(s);
            assert(all[i] == s);
        } else {
            assert(next.contains(s));
            let i = next.index_of(s);
            assert(all[listing.len() + i] == s);
        }
    }
    assert forall|i: int, j: int| 0 <= i < j < all.len() implies (#[trigger] all[i]).len() < (
    #[trigger] all[j]).len() || (all[i].len() == all[j].len() && precedes(all[i], all[j])) by {
        if j < listing.len() {
            assert(all[i] == listing[i] && all[j] == listing[j]);
        } else if i < listing.len() {
            assert(all[i] == listing[i] && all[j] == next[j - listing.len()]);
        } else {
            assert(all[i] == next[i - listing.len()] && all[j] == next[j - listing.len()]);
        }
    }
}

/// The number of selections of `k` out of `n`.
pub open spec fn binomial(n: nat, k: nat) -> nat
    decreases n,
{
    if k == 0 {
        1
    } else if n == 0 {
        0
    } else {
        binomial((n - 1) as nat, (k - 1) as nat) + binomial((n - 1) as nat, k)
    }
}

/// The number of selections of at most `most` out of `n`.
pub open spec fn binomials(n: nat, most: nat) -> nat
    decreases most,
{
    if most == 0 {
        binomial(n, 0)
    } else {
        binomials(n, (most - 1) as nat) + binomial(n, most)
    }
}

/// There are `binomial(n, k)` selections of `k` of the indices below `n`.
pub proof fn lemma_combinations_len(n: nat, k: nat)
    ensures
        combinations(n, k).len() == binomial(n, k),
    decreases n,
{
    if k > 0 && n > 0 {
        lemma_combinations_len((n - 1) as nat, (k - 1) as nat);
        lemma_combinations_len((n - 1) as nat, k);
    }
}

/// There is no selection of more than `n` out of `n`.
proof fn lemma_binomial_none(n: nat, k: nat)
    requires
        k > n,
    ensures
        binomial(n, k) == 0,
    decreases n,
{
    if n > 0 {
        lemma_binomial_none((n - 1) as nat, (k - 1) as nat);
        lemma_binomial_none((n - 1) as nat, k);
    }
}

/// A selection of at most `most + 1` out of `n + 1` either holds the last
/// index, beside at most `most` of the others, or does not.
proof fn lemma_binomials_step(n: nat, most: nat)
    ensures
        binomials(n + 1, most + 1) == binomials(n, most + 1) + binomials(n, most),
    decreases most,
{
    if most > 0 {
        lemma_binomials_step(n, (most - 1) as nat);
    } else {
        assert(binomials(n + 1, 1) == binomials(n + 1, 0) + binomial(n + 1, 1));
        assert(binomials(n, 1) == binomials(n, 0) + binomial(n, 1));
    }
}

/// Selections of more than `n` out of `n` add nothing to the count.
proof fn lemma_binomials_full(n: nat, most: nat)
    requires
        most >= n,
    ensures
        binomials(n, most) == binomials(n, n),
    decreases most,
{
    if most > n {
        lemma_binomials_full(n, (most - 1) as nat);
        lemma_binomial_none(n, most);
    }
}

/// There are `2^n` selections out of `n`.
pub proof fn lemma_binomials_all(n: nat)
    ensures
        binomials(n, n) == pow2(n),
    decreases n,
{
    if n == 0 {
        lemma2_to64();
    } else {
        let m = (n - 1) as nat;
        lemma_binomials_all(m);
        lemma_binomials_step(m, m);
        lemma_binomials_full(m, n);
        lemma_pow2_unfold(n);
    }
}

/// The non-empty selections of at most `most` of the positions below `k`.
pub open spec fn selections_upto(k: nat, most: nat) -> Seq<Seq<usize>> {
    Seq::new(k, |i: int| combinations(k, (i + 1) as nat)).take(most as int).flatten()
}

/// The non-empty selections of at most `most` positions are listed by their
/// size and then in the lexicographic order, and number one less than the
/// selections of at most `most`.
proof fn lemma_selections_upto(k: nat, most: nat)
    requires
        k <= usize::MAX,
        most <= k,
    ensures
        lists_subsets(selections_upto(k, most), k, most),
        selections_upto(k, most).len() + 1 == binomials(k, most),
    decreases most,
{
    let sized = Seq::new(k, |i: int| combinations(k, (i + 1) as nat));
    if most == 0 {
        assert(sized.take(0) =~= Seq::<Seq<Seq<usize>>>::empty());
    } else {
        let fewer = (most - 1) as nat;
        lemma_selections_upto(k, fewer);
        lemma_combinations(k, most);
        lemma_combinations_len(k, most);
        assert(sized.take(most as int) =~= sized.take(fewer as int).push(combinations(k, most)));
        sized.take(fewer as int).lemma_flatten_push(combinations(k, most));
        lemma_lists_subsets_extend(selections_upto(k, fewer), combinations(k, most), k, fewer);
    }
}

/// The non-empty selections of the positions below `k` are listed by their
/// size and then in the lexicographic order, each once, and number `2^k - 1`.
pub proof fn lemma_selections(k: nat)
    requires
        k <= usize::MAX,
    ensures
        lists_subsets(selections(k), k, k),
        selections(k).len() + 1 == pow2(k),
{
    let sized = Seq::new(k, |i: int| combinations(k, (i + 1) as nat));
    assert(sized.take(k as int) == sized);
    lemma_selections_upto(k, k);
    lemma_binomials_all(k);
}

} // verus!
