//! Choosing the processes to list on the display. The processes arrive in
//! some order, each with a ranking key (its resident keyory, or an order key
//! of its CPU load); they are ranked by key, largest first, and processes
//! with equal keys keep the order in which they arrived (a stable sort). The
//! first few in that ranking are listed.

use vstd::prelude::*;

verus! {

/// Number of processes listed per ranking.
pub const TOP_PROCESSES: usize = 3;

/// Process `i` comes before process `j` when ranked by keyory: it uses more,
/// or as much and arrived earlier.
pub open spec fn ranks_before(key: Seq<u64>, i: int, j: int) -> bool {
    key[i] > key[j] || (key[i] == key[j] && i < j)
}

/// `picks` lists, in ranking order, the first `min(count, key.len())`
/// processes of the keyory ranking of `key`.
pub open spec fn is_top_ranked(key: Seq<u64>, count: nat, picks: Seq<usize>) -> bool {
    &&& picks.len() == (if count < key.len() {
        count
    } else {
        key.len()
    })
    &&& forall|a: int| 0 <= a < picks.len() ==> #[trigger] picks[a] < key.len()
    &&& forall|a: int, b: int|
        0 <= a < b < picks.len() ==> ranks_before(key, #[trigger] picks[a] as int, #[trigger] picks[b] as int)
    &&& forall|a: int, j: int|
        0 <= a < picks.len() && 0 <= j < key.len() && !picks.contains(j as usize)
            ==> #[trigger] ranks_before(key, picks[a] as int, j)
}

/// The indices of the `count` processes using the most keyory, largest
/// first, ties in arrival order; all of them when there are fewer.
pub fn top_ranked(key: &Vec<u64>, count: usize) -> (picks: Vec<usize>)
    ensures
        is_top_ranked(key@, count as nat, picks@),
{
    let n = key.len();
    let mut rest: Vec<usize> = Vec::new();
    let mut j: usize = 0;
    while j < n
        invariant
            j <= n,
            n == key.len(),
            rest@.len() == j,
            forall|i: int| 0 <= i < j ==> #[trigger] rest@[i] == i,
        decreases n - j,
    {
        rest.push(j);
        j = j + 1;
    }
    let mut picks: Vec<usize> = Vec::new();
    assert forall|q: usize| q < n implies rest@.contains(q) by {
        assert(rest@[q as int] == q);
    }
    while picks.len() < count && rest.len() > 0
        invariant
            n == key.len(),
            picks@.len() + rest@.len() == n,
            picks@.len() <= count,
            forall|x: int, y: int| 0 <= x < y < rest@.len() ==> #[trigger] rest@[x] < #[trigger] rest@[y],
            forall|x: int| 0 <= x < rest@.len() ==> #[trigger] rest@[x] < n,
            forall|a: int| 0 <= a < picks@.len() ==> #[trigger] picks@[a] < n,
            forall|q: usize| q < n ==> (rest@.contains(q) <==> !picks@.contains(q)),
            forall|a: int, b: int|
                0 <= a < b < picks@.len() ==> ranks_before(key@, #[trigger] picks@[a] as int, #[trigger] picks@[b] as int),
            forall|a: int, x: int|
                0 <= a < picks@.len() && 0 <= x < rest@.len() ==> ranks_before(
                    key@,
                    #[trigger] picks@[a] as int,
                    #[trigger] rest@[x] as int,
                ),
        decreases rest@.len(),
    {
        let mut best: usize = 0;
        let mut i: usize = 1;
        while i < rest.len()
            invariant
                n == key.len(),
                0 < rest@.len(),
                best < i <= rest@.len(),
                forall|x: int| 0 <= x < rest@.len() ==> #[trigger] rest@[x] < n,
                forall|x: int, y: int| 0 <= x < y < rest@.len() ==> #[trigger] rest@[x] < #[trigger] rest@[y],
                forall|x: int|
                    0 <= x < i && x != best ==> ranks_before(key@, rest@[best as int] as int, #[trigger] rest@[x] as int),
            decreases rest@.len() - i,
        {
            if key[rest[i]] > key[rest[best]] {
                best = i;
            }
            i = i + 1;
        }
        let ghost old_rest = rest@;
        let ghost old_picks = picks@;
        let b = rest.remove(best);
        picks.push(b);
        assert forall|q: usize| q < n implies (rest@.contains(q) <==> !picks@.contains(q)) by {
            if rest@.contains(q) {
                let x = choose|x: int| 0 <= x < rest@.len() && rest@[x] == q;
                if x < best {
                    assert(old_rest[x] == q);
                } else {
                    assert(old_rest[x + 1] == q);
                }
                assert(old_rest.contains(q));
                assert(q != b);
                if picks@.contains(q) {
                    let y = choose|y: int| 0 <= y < picks@.len() && picks@[y] == q;
                    assert(old_picks[y] == q);
                }
            } else {
                if q == b {
                    assert(picks@[picks@.len() - 1] == q);
                } else {
                    if old_rest.contains(q) {
                        let x = choose|x: int| 0 <= x < old_rest.len() && old_rest[x] == q;
                        if x < best {
                            assert(rest@[x] == q);
                        } else {
                            assert(rest@[x - 1] == q);
                        }
                    }
                    assert(old_picks.contains(q));
                    let y = choose|y: int| 0 <= y < old_picks.len() && old_picks[y] == q;
                    assert(picks@[y] == q);
                }
            }
        }
        assert forall|a: int, x: int|
            0 <= a < picks@.len() && 0 <= x < rest@.len() implies ranks_before(
                key@,
                #[trigger] picks@[a] as int,
                #[trigger] rest@[x] as int,
            ) by {
            let ox = if x < best {
                x
            } else {
                x + 1
            };
            assert(rest@[x] == old_rest[ox]);
            if a < old_picks.len() {
                assert(picks@[a] == old_picks[a]);
            } else {
                assert(ox != best);
            }
        }
        assert forall|a: int, c: int|
            0 <= a < c < picks@.len() implies ranks_before(key@, #[trigger] picks@[a] as int, #[trigger] picks@[c] as int) by {
            if c < old_picks.len() {
                assert(picks@[a] == old_picks[a]);
                assert(picks@[c] == old_picks[c]);
            } else {
                assert(picks@[a] == old_picks[a]);
                assert(picks@[c] == old_rest[best as int]);
            }
        }
    }
    assert forall|a: int, j: int|
        0 <= a < picks@.len() && 0 <= j < key@.len() && !picks@.contains(j as usize)
            implies #[trigger] ranks_before(key@, picks@[a] as int, j) by {
        assert(rest@.contains(j as usize));
        let x = choose|x: int| 0 <= x < rest@.len() && rest@[x] == j as usize;
        assert(ranks_before(key@, picks@[a] as int, rest@[x] as int));
    }
    picks
}


proof fn lemma_picks_agree_below(key: Seq<u64>, count: nat, p: Seq<usize>, q: Seq<usize>, n: int)
    requires
        is_top_ranked(key, count, p),
        is_top_ranked(key, count, q),
        0 <= n <= p.len(),
    ensures
        forall|a: int| 0 <= a < n ==> p[a] == q[a],
    decreases n,
{
    if n > 0 {
        lemma_picks_agree_below(key, count, p, q, n - 1);
        let a = n - 1;
        let x = p[a];
        let y = q[a];
        if x != y {
            // y is ranked after x in p's view, and x after y in q's view.
            if p.contains(y) {
                let b = choose|b: int| 0 <= b < p.len() && p[b] == y;
                if b < a {
                    assert(q[b] == y);
                    assert(ranks_before(key, q[b] as int, q[a] as int));
                } else {
                    assert(b != a);
                    assert(ranks_before(key, p[a] as int, p[b] as int));
                }
            } else {
                assert(ranks_before(key, p[a] as int, y as int));
            }
            if q.contains(x) {
                let b = choose|b: int| 0 <= b < q.len() && q[b] == x;
                if b < a {
                    assert(p[b] == x);
                    assert(ranks_before(key, p[b] as int, p[a] as int));
                } else {
                    assert(b != a);
                    assert(ranks_before(key, q[a] as int, q[b] as int));
                }
            } else {
                assert(ranks_before(key, q[a] as int, x as int));
            }
            assert(false);
        }
    }
}

/// The listing is determined by the keyory figures and the arrival order
/// alone: two listings that both meet the ranking are the same.
pub proof fn top_ranked_is_unique(key: Seq<u64>, count: nat, p: Seq<usize>, q: Seq<usize>)
    requires
        is_top_ranked(key, count, p),
        is_top_ranked(key, count, q),
    ensures
        p == q,
{
    lemma_picks_agree_below(key, count, p, q, p.len() as int);
    assert(p =~= q);
}

/// The first process listed uses at least as much keyory as any process.
pub proof fn first_pick_has_largest_key(key: Seq<u64>, count: nat, picks: Seq<usize>, j: int)
    requires
        is_top_ranked(key, count, picks),
        count > 0,
        key.len() <= usize::MAX,
        0 <= j < key.len(),
    ensures
        key[picks[0] as int] >= key[j],
{
    if picks.contains(j as usize) {
        let b = choose|b: int| 0 <= b < picks.len() && picks[b] == j as usize;
        if b > 0 {
            assert(ranks_before(key, picks[0] as int, picks[b] as int));
        }
    } else {
        assert(ranks_before(key, picks[0] as int, j));
    }
}


/// A listing runs from the largest key down, and processes with equal keys
/// appear in the order in which they arrived.
pub proof fn listing_descends_and_keeps_ties_in_order(key: Seq<u64>, count: nat, picks: Seq<usize>)
    requires
        is_top_ranked(key, count, picks),
    ensures
        forall|a: int, b: int|
            0 <= a < b < picks.len() ==> key[#[trigger] picks[a] as int] >= key[#[trigger] picks[b] as int]
                && (key[picks[a] as int] == key[picks[b] as int] ==> picks[a] < picks[b]),
{
    assert forall|a: int, b: int| 0 <= a < b < picks.len() implies key[#[trigger] picks[a] as int]
        >= key[#[trigger] picks[b] as int] && (key[picks[a] as int] == key[picks[b] as int]
        ==> picks[a] < picks[b]) by {
        assert(ranks_before(key, picks[a] as int, picks[b] as int));
    }
}

/// A process left out of the listing has a key no larger than any listed
/// one, and when it ties with a listed one it arrived later.
pub proof fn left_out_processes_rank_lower(key: Seq<u64>, count: nat, picks: Seq<usize>, a: int, j: int)
    requires
        is_top_ranked(key, count, picks),
        key.len() <= usize::MAX,
        0 <= a < picks.len(),
        0 <= j < key.len(),
        !picks.contains(j as usize),
    ensures
        key[picks[a] as int] >= key[j],
        key[picks[a] as int] == key[j] ==> picks[a] < j,
{
    assert(ranks_before(key, picks[a] as int, j));
}

} // verus!
