//! The order of version strings by their numbers, and the choice of the
//! primary among several manifests.

use vstd::prelude::*;
use crate::decimal::{parse_decimal, parse_u64};
use crate::text::{split, split_on, string_views, views};

verus! {

/// How one version stands to another.
#[derive(Debug, Clone, Copy, PartialEq, Eq, Structural)]
pub enum Rank {
    Lower,
    Same,
    Higher,
}

/// The numbers among the segments, in order. A segment that is no number is
/// passed over.
pub open spec fn numbers_of(segs: Seq<Seq<char>>) -> Seq<u64>
    decreases segs.len(),
{
    if segs.len() == 0 {
        Seq::<u64>::empty()
    } else {
        let before = numbers_of(segs.drop_last());
        match parse_u64(segs.last()) {
            Some(v) => before.push(v),
            None => before,
        }
    }
}

/// The numbers of a version string: those of its dot-separated segments.
pub open spec fn version_numbers(version: Seq<char>) -> Seq<u64> {
    numbers_of(split(version, '.'))
}

/// The order of two sequences of numbers: the first place where they differ
/// decides, and a sequence that ends there is the lower one.
pub open spec fn rank(a: Seq<u64>, b: Seq<u64>) -> Rank
    decreases a.len(),
{
    if a.len() == 0 {
        if b.len() == 0 {
            Rank::Same
        } else {
            Rank::Lower
        }
    } else if b.len() == 0 {
        Rank::Higher
    } else if a[0] < b[0] {
        Rank::Lower
    } else if a[0] > b[0] {
        Rank::Higher
    } else {
        rank(a.drop_first(), b.drop_first())
    }
}

/// The order of two version strings, by their numbers.
pub open spec fn version_rank(a: Seq<char>, b: Seq<char>) -> Rank {
    rank(version_numbers(a), version_numbers(b))
}

/// A common prefix does not change the order.
pub proof fn lemma_rank_skip(a: Seq<u64>, b: Seq<u64>, k: int)
    requires
        0 <= k <= a.len(),
        k <= b.len(),
        a.take(k) == b.take(k),
    ensures
        rank(a, b) == rank(a.skip(k), b.skip(k)),
    decreases k,
{
    if k == 0 {
        assert(a.skip(0) == a);
        assert(b.skip(0) == b);
    } else {
        assert(a[0] == a.take(k)[0]);
        assert(b[0] == b.take(k)[0]);
        let a1 = a.drop_first();
        let b1 = b.drop_first();
        let ta = a1.take(k - 1);
        let tb = b1.take(k - 1);
        assert(ta == tb) by {
            assert forall|i: int| 0 <= i < k - 1 implies #[trigger] ta[i] == tb[i] by {
                assert(ta[i] == a[i + 1]);
                assert(tb[i] == b[i + 1]);
                assert(a.take(k)[i + 1] == a[i + 1]);
                assert(b.take(k)[i + 1] == b[i + 1]);
            }
        }
        lemma_rank_skip(a1, b1, k - 1);
        assert(a1.skip(k - 1) == a.skip(k));
        assert(b1.skip(k - 1) == b.skip(k));
    }
}

/// The first place at which two sequences differ decides their order,
/// whatever stands to its right.
pub proof fn lemma_rank_decided(a: Seq<u64>, b: Seq<u64>, k: int)
    requires
        0 <= k < a.len(),
        k < b.len(),
        a.take(k) == b.take(k),
        a[k] != b[k],
    ensures
        rank(a, b) == if a[k] < b[k] {
            Rank::Lower
        } else {
            Rank::Higher
        },
{
    lemma_rank_skip(a, b, k);
    assert(a.skip(k)[0] == a[k]);
    assert(b.skip(k)[0] == b[k]);
}

/// Two sequences rank the same exactly when they are equal.
pub proof fn lemma_rank_same(a: Seq<u64>, b: Seq<u64>)
    ensures
        rank(a, b) == Rank::Same <==> a == b,
    decreases a.len(),
{
    if a.len() > 0 && b.len() > 0 {
        lemma_rank_same(a.drop_first(), b.drop_first());
        if a[0] == b[0] && a.drop_first() == b.drop_first() {
            assert(a == seq![a[0]] + a.drop_first());
            assert(b == seq![b[0]] + b.drop_first());
        }
        if a == b {
            assert(a.drop_first() == b.drop_first());
        }
    } else if a.len() == 0 && b.len() == 0 {
        assert(a == b);
    }
}

/// Swapping the two sides turns lower into higher.
pub proof fn lemma_rank_flip(a: Seq<u64>, b: Seq<u64>)
    ensures
        rank(a, b) == Rank::Lower <==> rank(b, a) == Rank::Higher,
        rank(a, b) == Rank::Same <==> rank(b, a) == Rank::Same,
    decreases a.len(),
{
    if a.len() > 0 && b.len() > 0 {
        lemma_rank_flip(a.drop_first(), b.drop_first());
    }
}

/// What is not higher than something not higher than a third is not higher
/// than the third.
pub proof fn lemma_rank_transitive(a: Seq<u64>, b: Seq<u64>, c: Seq<u64>)
    requires
        rank(a, b) != Rank::Higher,
        rank(b, c) != Rank::Higher,
    ensures
        rank(a, c) != Rank::Higher,
        rank(a, b) == Rank::Lower || rank(b, c) == Rank::Lower ==> rank(a, c) == Rank::Lower,
    decreases a.len(),
{
    if a.len() > 0 && b.len() > 0 && c.len() > 0 {
        if a[0] == b[0] && b[0] == c[0] {
            lemma_rank_transitive(a.drop_first(), b.drop_first(), c.drop_first());
        }
    }
}

/// The numbers of a version string.
pub fn numbers_in(version: &str) -> (numbers: Vec<u64>)
    ensures
        numbers@ == version_numbers(version@),
{
    let parts = split_on(version, '.');
    let ghost segs = split(version@, '.');
    let mut numbers: Vec<u64> = Vec::new();
    let mut i: usize = 0;
    assert(segs.take(0) == Seq::<Seq<char>>::empty());
    while i < parts.len()
        invariant
            i <= parts.len(),
            views(parts@) == segs,
            numbers@ == numbers_of(segs.take(i as int)),
        decreases parts.len() - i,
    {
        proof {
            let here = segs.take(i + 1);
            assert(here.drop_last() == segs.take(i as int));
            assert(here.last() == parts@[i as int]@);
        }
        match parse_decimal(parts[i]) {
            Some(v) => {
                numbers.push(v);
            },
            None => {},
        }
        i += 1;
    }
    assert(segs.take(i as int) == segs);
    numbers
}

/// The order of two sequences of numbers.
pub fn rank_numbers(a: &[u64], b: &[u64]) -> (r: Rank)
    ensures
        r == rank(a@, b@),
{
    let mut i: usize = 0;
    while i < a.len() && i < b.len()
        invariant
            i <= a.len(),
            i <= b.len(),
            a@.take(i as int) == b@.take(i as int),
        decreases a.len() - i,
    {
        if a[i] != b[i] {
            proof {
                lemma_rank_decided(a@, b@, i as int);
            }
            if a[i] < b[i] {
                return Rank::Lower;
            } else {
                return Rank::Higher;
            }
        }
        assert(a@.take(i + 1) == a@.take(i as int).push(a@[i as int]));
        assert(b@.take(i + 1) == b@.take(i as int).push(b@[i as int]));
        i += 1;
    }
    proof {
        lemma_rank_skip(a@, b@, i as int);
    }
    if i < b.len() {
        Rank::Lower
    } else if i < a.len() {
        Rank::Higher
    } else {
        Rank::Same
    }
}

/// The order of two version strings, by their numbers.
pub fn rank_versions(a: &str, b: &str) -> (r: Rank)
    ensures
        r == version_rank(a@, b@),
{
    let x = numbers_in(a);
    let y = numbers_in(b);
    rank_numbers(x.as_slice(), y.as_slice())
}

/// Whether `p` is the place of the primary among the versions: none ranks
/// higher, and it is the first of those that rank the same.
pub open spec fn is_primary(versions: Seq<Seq<char>>, p: int) -> bool {
    &&& 0 <= p < versions.len()
    &&& forall|j: int| 0 <= j < versions.len() ==> version_rank(#[trigger] versions[j], versions[p]) != Rank::Higher
    &&& forall|j: int| 0 <= j < p ==> version_rank(#[trigger] versions[j], versions[p]) == Rank::Lower
}

/// The place of the primary among the current versions of several manifests:
/// the one with the greatest version, and of several such the first.
pub fn primary_index(versions: &Vec<String>) -> (p: usize)
    requires
        versions@.len() >= 1,
    ensures
        is_primary(string_views(versions@), p as int),
{
    let ghost all = string_views(versions@);
    let mut best: usize = 0;
    let mut i: usize = 1;
    proof {
        lemma_rank_same(version_numbers(all[0]), version_numbers(all[0]));
    }
    while i < versions.len()
        invariant
            1 <= i <= versions.len(),
            best < i,
            all == string_views(versions@),
            forall|j: int| 0 <= j < i ==> version_rank(#[trigger] all[j], all[best as int]) != Rank::Higher,
            forall|j: int| 0 <= j < best ==> version_rank(#[trigger] all[j], all[best as int]) == Rank::Lower,
        decreases versions.len() - i,
    {
        let r = rank_versions(versions[i].as_str(), versions[best].as_str());
        assert(r == version_rank(all[i as int], all[best as int]));
        if r == Rank::Higher {
            proof {
                let nb = version_numbers(all[best as int]);
                let ni = version_numbers(all[i as int]);
                lemma_rank_flip(nb, ni);
                lemma_rank_flip(ni, nb);
                lemma_rank_same(ni, ni);
                assert forall|j: int| 0 <= j < i implies version_rank(#[trigger] all[j], all[i as int])
                    == Rank::Lower by {
                    lemma_rank_transitive(version_numbers(all[j]), nb, ni);
                }
            }
            best = i;
        }
        i += 1;
    }
    best
}

/// Whether `order` lists the places of the first `count` versions from the
/// greatest version down, each place once, equal versions in the order in
/// which they stand.
pub open spec fn is_descending(versions: Seq<Seq<char>>, order: Seq<usize>, count: int) -> bool {
    &&& order.len() == count
    &&& forall|i: int| 0 <= i < count ==> #[trigger] order[i] < count
    &&& forall|i: int, j: int| 0 <= i < j < count ==> #[trigger] order[i] != #[trigger] order[j]
    &&& forall|i: int, j: int|
        0 <= i < j < count ==> version_rank(
            versions[#[trigger] order[i] as int],
            versions[#[trigger] order[j] as int],
        ) != Rank::Lower
    &&& forall|i: int, j: int|
        0 <= i < j < count && version_rank(
            versions[#[trigger] order[i] as int],
            versions[#[trigger] order[j] as int],
        ) == Rank::Same ==> order[i] < order[j]
}

/// The places of the versions from the greatest version down; equal versions
/// keep the order in which they stand. The first place is the primary's.
pub fn descending_order(versions: &Vec<String>) -> (order: Vec<usize>)
    ensures
        is_descending(string_views(versions@), order@, versions@.len() as int),
{
    let ghost all = string_views(versions@);
    let mut order: Vec<usize> = Vec::new();
    let mut k: usize = 0;
    while k < versions.len()
        invariant
            k <= versions.len(),
            all == string_views(versions@),
            is_descending(all, order@, k as int),
        decreases versions.len() - k,
    {
        let mut p: usize = 0;
        while p < order.len() && rank_versions(versions[order[p]].as_str(), versions[k].as_str())
            != Rank::Lower
            invariant
                p <= order.len(),
                k < versions.len(),
                all == string_views(versions@),
                is_descending(all, order@, k as int),
                forall|i: int|
                    0 <= i < p ==> version_rank(all[#[trigger] order@[i] as int], all[k as int])
                        != Rank::Lower,
            decreases order.len() - p,
        {
            p += 1;
        }
        let ghost before = order@;
        order.insert(p, k);
        proof {
            before.insert_ensures(p as int, k);
            let after = order@;
            let vk = version_numbers(all[k as int]);
            assert forall|i: int| 0 <= i < k + 1 implies #[trigger] after[i] < k + 1 by {
                if i < p {
                    assert(after[i] == before[i]);
                } else if i > p {
                    assert(after[i] == before[i - 1]);
                }
            }
            assert forall|j: int| p < j < k + 1 implies version_rank(
                all[#[trigger] after[j] as int],
                all[k as int],
            ) == Rank::Lower by {
                assert(after[j] == before[j - 1]);
                let vp = version_numbers(all[before[p as int] as int]);
                let vj = version_numbers(all[before[j - 1] as int]);
                if j - 1 > p {
                    lemma_rank_flip(vp, vj);
                    lemma_rank_flip(vj, vp);
                    lemma_rank_transitive(vj, vp, vk);
                }
            }
            assert forall|i: int, j: int| 0 <= i < j < k + 1 implies #[trigger] after[i]
                != #[trigger] after[j] && version_rank(all[after[i] as int], all[after[j] as int])
                != Rank::Lower && (version_rank(all[after[i] as int], all[after[j] as int])
                == Rank::Same ==> after[i] < after[j]) by {
                let a: int = if i < p {
                    i
                } else {
                    i - 1
                };
                let b: int = if j < p {
                    j
                } else {
                    j - 1
                };
                if i != p {
                    assert(after[i] == before[a]);
                    assert(before[a] < k);
                }
                if j != p {
                    assert(after[j] == before[b]);
                    assert(before[b] < k);
                }
                if i == p {
                    let vj = version_numbers(all[after[j] as int]);
                    lemma_rank_flip(vj, vk);
                    lemma_rank_flip(vk, vj);
                } else if j == p {
                } else {
                    assert(a < b);
                }
            }
        }
        k += 1;
    }
    order
}

/// The first place of a descending order is the primary's.
pub proof fn lemma_first_is_primary(versions: Seq<Seq<char>>, order: Seq<usize>)
    requires
        versions.len() >= 1,
        is_descending(versions, order, versions.len() as int),
    ensures
        is_primary(versions, order[0] as int),
{
    let n = versions.len() as int;
    let p = order[0] as int;
    assert forall|j: int| 0 <= j < n implies version_rank(#[trigger] versions[j], versions[p])
        != Rank::Higher && (j < p ==> version_rank(versions[j], versions[p]) == Rank::Lower) by {
        lemma_order_covers(versions, order, n, j);
        let i = choose|i: int| 0 <= i < n && order[i] == j;
        let vj = version_numbers(versions[j]);
        let vp = version_numbers(versions[p]);
        lemma_rank_flip(vp, vj);
        lemma_rank_flip(vj, vp);
        if i == 0 {
            lemma_rank_same(vp, vp);
        } else {
            assert(version_rank(versions[order[0] as int], versions[order[i] as int]) != Rank::Lower);
        }
    }
}

/// A list of `n` different places below `n` holds every place below `n`.
pub proof fn lemma_order_covers(versions: Seq<Seq<char>>, order: Seq<usize>, n: int, j: int)
    requires
        is_descending(versions, order, n),
        0 <= j < n,
    ensures
        exists|i: int| 0 <= i < n && #[trigger] order[i] == j,
{
    let places = Seq::new(n as nat, |i: int| order[i] as int);
    assert(places.no_duplicates()) by {
        assert forall|i: int, j: int| 0 <= i < j < n implies places[i] != places[j] by {
            assert(order[i] != order[j]);
        }
    }
    let held = places.to_set();
    places.unique_seq_to_set();
    let below = Set::new(|j: int| 0 <= j < n);
    assert(below == vstd::set_lib::set_int_range(0, n));
    vstd::set_lib::lemma_int_range(0, n);
    assert(held.subset_of(below)) by {
        assert forall|j: int| held.contains(j) implies below.contains(j) by {
            let i = choose|i: int| 0 <= i < places.len() && places[i] == j;
            assert(order[i] < n);
        }
    }
    vstd::set_lib::lemma_subset_equality(held, below);
    assert(below.contains(j));
    assert(held.contains(j));
    let i = choose|i: int| 0 <= i < places.len() && places[i] == j;
    assert(order[i] == j);
}

} // verus!
