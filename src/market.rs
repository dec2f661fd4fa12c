//! Ordering a market list by traded volume.
use vstd::prelude::*;

verus! {

/// The place of a volume in the order: any volume is above a missing one.
pub open spec fn volume_rank(v: Option<i64>) -> int {
    match v {
        Some(x) => x as int,
        None => i64::MIN - 1,
    }
}

/// Entry `a` comes before entry `b` when ranked by volume, largest first:
/// it has the larger volume, or the same volume and an earlier place.
pub open spec fn ranks_before(volumes: Seq<Option<i64>>, a: int, b: int) -> bool {
    ||| volume_rank(volumes[a]) > volume_rank(volumes[b])
    ||| (volume_rank(volumes[a]) == volume_rank(volumes[b]) && a < b)
}

/// `order` lists the positions `0..n` once each.
pub open spec fn is_permutation(order: Seq<usize>, n: nat) -> bool {
    &&& order.len() == n
    &&& order.no_duplicates()
    &&& forall|j: int| 0 <= j < n ==> #[trigger] order[j] < n
    &&& forall|k: usize| k < n ==> order.contains(k)
}

fn volume_above(a: Option<i64>, b: Option<i64>) -> (r: bool)
    ensures
        r == (volume_rank(a) > volume_rank(b)),
{
    match (a, b) {
        (Some(x), Some(y)) => x > y,
        (Some(_), None) => true,
        (None, _) => false,
    }
}

/// The positions of `volumes`, largest volume first; a missing volume comes
/// after every present one, and equal volumes keep their relative order.
pub fn rank_by_volume(volumes: &Vec<Option<i64>>) -> (r: Vec<usize>)
    ensures
        is_permutation(r@, volumes@.len()),
        forall|a: int, b: int|
            0 <= a < b < r@.len() ==> ranks_before(
                volumes@,
                #[trigger] r@[a] as int,
                #[trigger] r@[b] as int,
            ),
{
    let ghost vs = volumes@;
    let mut r: Vec<usize> = Vec::new();
    let mut i: usize = 0;
    while i < volumes.len()
        invariant
            vs == volumes@,
            i <= volumes.len(),
            r@.len() == i,
            r@.no_duplicates(),
            forall|j: int| 0 <= j < i ==> #[trigger] r@[j] < i,
            forall|k: usize| k < i ==> r@.contains(k),
            forall|a: int, b: int|
                0 <= a < b < r@.len() ==> ranks_before(
                    vs,
                    #[trigger] r@[a] as int,
                    #[trigger] r@[b] as int,
                ),
        decreases volumes.len() - i,
    {
        let mut p: usize = 0;
        while p < r.len() && !volume_above(volumes[i], volumes[r[p]])
            invariant
                vs == volumes@,
                i < volumes.len(),
                p <= r@.len(),
                r@.len() == i,
                forall|j: int| 0 <= j < i ==> #[trigger] r@[j] < i,
                forall|k: usize| k < i ==> r@.contains(k),
                r@.no_duplicates(),
                forall|a: int, b: int|
                    0 <= a < b < r@.len() ==> ranks_before(
                    vs,
                    #[trigger] r@[a] as int,
                    #[trigger] r@[b] as int,
                ),
                forall|q: int|
                    0 <= q < p ==> volume_rank(vs[i as int]) <= volume_rank(
                        #[trigger] vs[r@[q] as int],
                    ),
            decreases r@.len() - p,
        {
            p = p + 1;
        }
        let ghost before = r@;
        assert forall|q: int| p <= q < before.len() implies volume_rank(vs[i as int]) > volume_rank(
            #[trigger] vs[before[q] as int],
        ) by {
            if q > p {
                assert(ranks_before(vs, before[p as int] as int, before[q] as int));
            }
        }
        r.insert(p, i);
        assert forall|j: int| 0 <= j < r@.len() implies #[trigger] r@[j] < i + 1 by {
            if j > p {
                assert(r@[j] == before[j - 1]);
            }
        }
        assert forall|k: usize| k < i + 1 implies r@.contains(k) by {
            if k < i {
                assert(before.contains(k));
                let q = choose|q: int| 0 <= q < before.len() && before[q] == k;
                if q < p {
                    assert(r@[q] == k);
                } else {
                    assert(r@[q + 1] == k);
                }
            } else {
                assert(r@[p as int] == k);
            }
        }
        assert(r@.no_duplicates()) by {
            assert forall|a: int, b: int| 0 <= a < b < r@.len() implies r@[a] != r@[b] by {
                if a == p {
                    assert(r@[b] == before[b - 1]);
                } else if b == p {
                    assert(r@[a] == before[a]);
                } else if a < p {
                    if b < p {
                        assert(r@[b] == before[b]);
                    } else {
                        assert(r@[b] == before[b - 1]);
                    }
                } else {
                    assert(r@[a] == before[a - 1]);
                    assert(r@[b] == before[b - 1]);
                }
            }
        }
        assert forall|a: int, b: int| 0 <= a < b < r@.len() implies ranks_before(
            vs,
            #[trigger] r@[a] as int,
            #[trigger] r@[b] as int,
        ) by {
            if a == p {
                assert(r@[b] == before[b - 1]);
            } else if b == p {
                assert(r@[a] == before[a]);
            } else if a < p {
                if b < p {
                    assert(r@[b] == before[b]);
                } else {
                    assert(r@[b] == before[b - 1]);
                }
                assert(r@[a] == before[a]);
            } else {
                assert(r@[a] == before[a - 1]);
                assert(r@[b] == before[b - 1]);
            }
        }
        i = i + 1;
    }
    r
}

} // verus!
