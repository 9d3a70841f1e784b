//! Ranking: the entries that carry a key, highest key first, entries with
//! equal keys in the order in which they were given.

use vstd::prelude::*;

verus! {

/// A key by which entries are ranked.
pub trait RankKey: Copy {
    /// The key as a number; a higher number ranks earlier.
    spec fn rank(self) -> int;

    /// Whether `self` ranks strictly before `other`.
    fn outranks(self, other: Self) -> (higher: bool)
        ensures
            higher == (self.rank() > other.rank()),
    ;
}

impl RankKey for i64 {
    open spec fn rank(self) -> int {
        self as int
    }

    fn outranks(self, other: Self) -> (higher: bool) {
        self > other
    }
}

impl RankKey for u64 {
    open spec fn rank(self) -> int {
        self as int
    }

    fn outranks(self, other: Self) -> (higher: bool) {
        self > other
    }
}

/// The keys as numbers.
pub open spec fn ranks<K: RankKey>(keys: Seq<Option<K>>) -> Seq<Option<int>> {
    Seq::new(
        keys.len(),
        |i: int|
            match keys[i] {
                Some(k) => Some(k.rank()),
                None => None,
            },
    )
}

/// Entry `a` stands before entry `b`: its key is higher, or the keys are
/// equal and `a` was given first.
pub open spec fn precedes(keys: Seq<Option<int>>, a: int, b: int) -> bool {
    keys[a]->0 > keys[b]->0 || (keys[a]->0 == keys[b]->0 && a < b)
}

/// How many entries carry a key.
pub open spec fn carried(keys: Seq<Option<int>>) -> nat
    decreases keys.len(),
{
    if keys.len() == 0 {
        0
    } else if keys.last() is Some {
        carried(keys.drop_last()) + 1
    } else {
        carried(keys.drop_last())
    }
}

/// Where every entry carries a key, all are counted.
pub proof fn lemma_carried_all(keys: Seq<Option<int>>)
    requires
        forall|i: int| 0 <= i < keys.len() ==> (#[trigger] keys[i]) is Some,
    ensures
        carried(keys) == keys.len(),
    decreases keys.len(),
{
    if keys.len() > 0 {
        let front = keys.drop_last();
        assert forall|i: int| 0 <= i < front.len() implies (#[trigger] front[i]) is Some by {
            assert(front[i] == keys[i]);
        }
        lemma_carried_all(front);
    }
}

/// Entry `i` occurs in `order`.
pub open spec fn lists(order: Seq<usize>, i: int) -> bool {
    exists|k: int| 0 <= k < order.len() && (#[trigger] order[k]) as int == i
}

/// `order` lists exactly the entries of `keys` that carry a key, each once,
/// every one before those that it precedes.
pub open spec fn is_ranking(keys: Seq<Option<int>>, order: Seq<usize>) -> bool {
    &&& forall|k: int|
        0 <= k < order.len() ==> (#[trigger] order[k]) < keys.len() && keys[order[k] as int] is Some
    &&& forall|i: int|
        0 <= i < keys.len() && (#[trigger] keys[i]) is Some ==> lists(order, i)
    &&& forall|a: int, b: int|
        0 <= a < b < order.len() ==> precedes(keys, #[trigger] order[a] as int, #[trigger] order[b] as int)
}

/// `best` carries the highest key, and is the first entry that does.
pub open spec fn is_best(keys: Seq<Option<int>>, best: int) -> bool {
    &&& 0 <= best < keys.len()
    &&& keys[best] is Some
    &&& forall|i: int|
        0 <= i < keys.len() && i != best && (#[trigger] keys[i]) is Some ==> precedes(keys, best, i)
}

/// The entry that a ranking of `keys` starts with; `None` where no entry
/// carries a key.
pub open spec fn best_of(keys: Seq<Option<int>>) -> Option<int> {
    if exists|i: int| is_best(keys, i) {
        Some(choose|i: int| is_best(keys, i))
    } else {
        None
    }
}

/// There is at most one best entry.
pub proof fn lemma_best_unique(keys: Seq<Option<int>>, i: int)
    requires
        is_best(keys, i),
    ensures
        best_of(keys) == Some(i),
{
    let k = choose|k: int| is_best(keys, k);
    if k != i {
        assert(keys[i] is Some && keys[k] is Some);
        assert(precedes(keys, i, k));
        assert(precedes(keys, k, i));
    }
}

/// The best entry is one of the entries, and carries a key.
pub proof fn lemma_best_in_range(keys: Seq<Option<int>>)
    ensures
        best_of(keys) matches Some(i) ==> is_best(keys, i),
{
}

/// Where no entry carries a key, none is best.
pub proof fn lemma_best_absent(keys: Seq<Option<int>>)
    requires
        forall|i: int| 0 <= i < keys.len() ==> (#[trigger] keys[i]) is None,
    ensures
        best_of(keys) is None,
{
    if exists|i: int| is_best(keys, i) {
        let k = choose|k: int| is_best(keys, k);
        assert(keys[k] is Some);
    }
}

/// A ranking starts with the best entry, and is empty only where no entry
/// carries a key.
pub proof fn lemma_ranking_head(keys: Seq<Option<int>>, order: Seq<usize>)
    requires
        is_ranking(keys, order),
    ensures
        order.len() > 0 ==> best_of(keys) == Some(order[0] as int),
        order.len() == 0 ==> best_of(keys) is None,
{
    if order.len() > 0 {
        let head = order[0] as int;
        assert forall|i: int|
            0 <= i < keys.len() && i != head && (#[trigger] keys[i]) is Some implies precedes(
            keys,
            head,
            i,
        ) by {
            assert(lists(order, i));
            let at = choose|at: int| 0 <= at < order.len() && order[at] as int == i;
            assert(at != 0);
            assert(precedes(keys, order[0] as int, order[at] as int));
        }
        lemma_best_unique(keys, head);
    } else {
        assert forall|i: int| 0 <= i < keys.len() implies (#[trigger] keys[i]) is None by {
            if keys[i] is Some {
                assert(lists(order, i));
            }
        }
        lemma_best_absent(keys);
    }
}

/// Two rankings of the same keys agree on their first `n` places.
proof fn lemma_rankings_agree(keys: Seq<Option<int>>, r1: Seq<usize>, r2: Seq<usize>, n: int)
    requires
        is_ranking(keys, r1),
        is_ranking(keys, r2),
        0 <= n <= r1.len(),
        n <= r2.len(),
    ensures
        forall|k: int| 0 <= k < n ==> r1[k] == r2[k],
    decreases n,
{
    if n > 0 {
        lemma_rankings_agree(keys, r1, r2, n - 1);
        let k = n - 1;
        let x = r1[k];
        let y = r2[k];
        if x != y {
            assert(keys[x as int] is Some);
            assert(lists(r2, x as int));
            let m = choose|m: int| 0 <= m < r2.len() && r2[m] as int == x as int;
            if m < k {
                assert(r1[m] == r2[m]);
                assert(precedes(keys, r1[m] as int, r1[k] as int));
            }
            assert(m > k);
            assert(precedes(keys, r2[k] as int, r2[m] as int));
            assert(keys[y as int] is Some);
            assert(lists(r1, y as int));
            let w = choose|w: int| 0 <= w < r1.len() && r1[w] as int == y as int;
            if w < k {
                assert(r1[w] == r2[w]);
                assert(precedes(keys, r2[w] as int, r2[k] as int));
            }
            assert(w > k);
            assert(precedes(keys, r1[k] as int, r1[w] as int));
        }
    }
}

/// The keys determine their ranking: two rankings of the same keys are the
/// same sequence.
pub proof fn lemma_ranking_unique(keys: Seq<Option<int>>, r1: Seq<usize>, r2: Seq<usize>)
    requires
        is_ranking(keys, r1),
        is_ranking(keys, r2),
    ensures
        r1 == r2,
{
    if r1.len() <= r2.len() {
        lemma_rankings_agree(keys, r1, r2, r1.len() as int);
        if r1.len() < r2.len() {
            let extra = r2[r1.len() as int];
            assert(keys[extra as int] is Some);
            assert(lists(r1, extra as int));
            let w = choose|w: int| 0 <= w < r1.len() && r1[w] as int == extra as int;
            assert(r2[w] == r1[w]);
            assert(precedes(keys, r2[w] as int, r2[r1.len() as int] as int));
        }
    } else {
        lemma_rankings_agree(keys, r1, r2, r2.len() as int);
        let extra = r1[r2.len() as int];
        assert(keys[extra as int] is Some);
        assert(lists(r2, extra as int));
        let w = choose|w: int| 0 <= w < r2.len() && r2[w] as int == extra as int;
        assert(r1[w] == r2[w]);
        assert(precedes(keys, r1[w] as int, r1[r2.len() as int] as int));
    }
    assert(r1 =~= r2);
}

/// The entry that a search has settled on so far.
spec fn holder<K>(best: Option<(usize, K)>) -> int {
    match best {
        Some((b, _)) => b as int,
        None => 0,
    }
}

/// Finds the best entry: the first among those with the highest key.
pub fn best_index<K: RankKey>(keys: &Vec<Option<K>>) -> (best: Option<usize>)
    ensures
        match best {
            Some(i) => best_of(ranks(keys@)) == Some(i as int),
            None => best_of(ranks(keys@)) is None,
        },
{
    let ghost all = ranks(keys@);
    let mut best: Option<(usize, K)> = None;
    let mut i: usize = 0;
    while i < keys.len()
        invariant
            i <= keys.len(),
            all == ranks(keys@),
            match best {
                Some((b, key)) => keys@[b as int] == Some(key) && is_best(all.take(i as int), b as int),
                None => forall|j: int| 0 <= j < i ==> (#[trigger] all[j]) is None,
            },
        decreases keys.len() - i,
    {
        let ghost seen = all.take(i as int);
        let ghost next = all.take(i + 1);
        match keys[i] {
            Some(key) => {
                let replace = match best {
                    Some((_, top)) => key.outranks(top),
                    None => true,
                };
                if replace {
                    proof {
                        assert forall|j: int|
                            0 <= j < next.len() && j != i && (#[trigger] next[j]) is Some implies precedes(
                            next,
                            i as int,
                            j,
                        ) by {
                            assert(all[j] is Some);
                            let b = holder(best);
                            if j != b {
                                assert(seen[j] is Some);
                                assert(precedes(seen, b, j));
                            }
                        }
                    }
                    best = Some((i, key));
                } else {
                    proof {
                        let b = holder(best);
                        assert forall|j: int|
                            0 <= j < next.len() && j != b && (#[trigger] next[j]) is Some implies precedes(
                            next,
                            b,
                            j,
                        ) by {
                            if j < i {
                                assert(seen[j] is Some);
                                assert(precedes(seen, b, j));
                            }
                        }
                    }
                }
            },
            None => {
                proof {
                    if best is Some {
                        let b = holder(best);
                        assert forall|j: int|
                            0 <= j < next.len() && j != b && (#[trigger] next[j]) is Some implies precedes(
                            next,
                            b,
                            j,
                        ) by {
                            assert(seen[j] is Some);
                            assert(precedes(seen, b, j));
                        }
                    }
                }
            },
        }
        i += 1;
    }
    proof {
        assert(all.take(keys.len() as int) == all);
        match best {
            Some((b, _)) => {
                lemma_best_unique(all, b as int);
            },
            None => {
                lemma_best_absent(all);
            },
        }
    }
    match best {
        Some((b, _)) => Some(b),
        None => None,
    }
}

/// Where the entry with key `key` belongs in `order`: behind every entry
/// whose key is at least as high, before every entry whose key is lower.
fn insertion_point<K: RankKey>(keys: &Vec<Option<K>>, order: &Vec<usize>, key: K) -> (at: usize)
    requires
        forall|k: int|
            0 <= k < order.len() ==> (#[trigger] order[k]) < keys.len() && keys[order[k] as int] is Some,
        forall|a: int, b: int|
            0 <= a < b < order.len() ==> precedes(
                ranks(keys@),
                #[trigger] order[a] as int,
                #[trigger] order[b] as int,
            ),
    ensures
        at <= order.len(),
        forall|k: int| 0 <= k < at ==> ranks(keys@)[(#[trigger] order[k]) as int]->0 >= key.rank(),
        forall|k: int|
            at <= k < order.len() ==> ranks(keys@)[(#[trigger] order[k]) as int]->0 < key.rank(),
{
    let mut at: usize = order.len();
    while at > 0
        invariant
            at <= order.len(),
            forall|k: int|
                0 <= k < order.len() ==> (#[trigger] order[k]) < keys.len() && keys[order[k] as int] is Some,
            forall|a: int, b: int|
                0 <= a < b < order.len() ==> precedes(
                    ranks(keys@),
                    #[trigger] order[a] as int,
                    #[trigger] order[b] as int,
                ),
            forall|k: int|
                at <= k < order.len() ==> ranks(keys@)[(#[trigger] order[k]) as int]->0 < key.rank(),
        decreases at,
    {
        let before = order[at - 1];
        let lower = match keys[before] {
            Some(other) => key.outranks(other),
            None => false,
        };
        if !lower {
            assert forall|k: int| 0 <= k < at implies ranks(keys@)[(#[trigger] order[k]) as int]->0
                >= key.rank() by {
                if k < at - 1 {
                    assert(precedes(ranks(keys@), order[k] as int, order[at - 1] as int));
                }
            }
            return at;
        }
        at -= 1;
    }
    at
}

/// Ranks the entries of `keys`.
pub fn rank<K: RankKey>(keys: &Vec<Option<K>>) -> (order: Vec<usize>)
    ensures
        is_ranking(ranks(keys@), order@),
        order@.len() == carried(ranks(keys@)),
{
    let mut order: Vec<usize> = Vec::new();
    let mut i: usize = 0;
    while i < keys.len()
        invariant
            i <= keys.len(),
            is_ranking(ranks(keys@).take(i as int), order@),
            order@.len() == carried(ranks(keys@).take(i as int)),
        decreases keys.len() - i,
    {
        let ghost all = ranks(keys@);
        let ghost seen = all.take(i as int);
        let ghost next = all.take(i + 1);
        let ghost old_order = order@;
        assert(next.drop_last() == seen);
        match keys[i] {
            Some(key) => {
                proof {
                    assert forall|a: int, b: int| 0 <= a < b < order.len() implies precedes(
                        all,
                        #[trigger] order[a] as int,
                        #[trigger] order[b] as int,
                    ) by {
                        assert(precedes(seen, order[a] as int, order[b] as int));
                    }
                }
                let at = insertion_point(keys, &order, key);
                order.insert(at, i);
                proof {
                    assert forall|k: int| 0 <= k < order.len() implies (#[trigger] order[k])
                        < next.len() && next[order[k] as int] is Some by {
                        if k < at {
                            assert(order[k] == old_order[k]);
                        } else if k > at {
                            assert(order[k] == old_order[k - 1]);
                        }
                    }
                    assert forall|j: int| 0 <= j < next.len() && (#[trigger] next[j]) is Some implies lists(
                        order@,
                        j,
                    ) by {
                        if j == i {
                            assert(order[at as int] as int == j);
                        } else {
                            assert(seen[j] is Some);
                            assert(lists(old_order, j));
                            let w = choose|w: int| 0 <= w < old_order.len() && old_order[w] as int == j;
                            if w < at {
                                assert(order[w] as int == j);
                            } else {
                                assert(order[w + 1] as int == j);
                            }
                        }
                    }
                    assert forall|a: int, b: int| 0 <= a < b < order.len() implies precedes(
                        next,
                        #[trigger] order[a] as int,
                        #[trigger] order[b] as int,
                    ) by {
                        let oa = if a < at { a } else { a - 1 };
                        let ob = if b < at { b } else { b - 1 };
                        if a != at && b != at {
                            assert(order[a] == old_order[oa] && order[b] == old_order[ob]);
                            assert(precedes(seen, old_order[oa] as int, old_order[ob] as int));
                        } else if a == at {
                            assert(order[b] == old_order[ob]);
                            assert(all[old_order[ob] as int]->0 < key.rank());
                        } else {
                            assert(order[a] == old_order[oa]);
                            assert(all[old_order[oa] as int]->0 >= key.rank());
                            assert(old_order[oa] < i);
                        }
                    }
                }
            },
            None => {
                proof {
                    assert forall|j: int| 0 <= j < next.len() && (#[trigger] next[j]) is Some implies lists(
                        order@,
                        j,
                    ) by {
                        assert(seen[j] is Some);
                    }
                    assert forall|a: int, b: int| 0 <= a < b < order.len() implies precedes(
                        next,
                        #[trigger] order[a] as int,
                        #[trigger] order[b] as int,
                    ) by {
                        assert(precedes(seen, order[a] as int, order[b] as int));
                    }
                }
            },
        }
        i += 1;
    }
    assert(ranks(keys@).take(keys.len() as int) == ranks(keys@));
    order
}

} // verus!
