//! The order in which stored scans and plans are listed: by the instant
//! they started or were generated, earliest first, those of one instant in
//! the order they were read.

use vstd::prelude::*;

verus! {

/// `order` lists the positions `0..n` of `keys`, each once.
pub open spec fn is_permutation(order: Seq<usize>, n: nat) -> bool {
    &&& order.len() == n
    &&& forall|i: int| 0 <= i < order.len() ==> (#[trigger] order[i]) < n
    &&& forall|i: int, j: int| 0 <= i < j < order.len() ==> order[i] != order[j]
}

/// `order` lists positions by their keys, earliest first, and positions of
/// equal keys in increasing order.
pub open spec fn is_stably_sorted(keys: Seq<i128>, order: Seq<usize>) -> bool {
    forall|i: int, j: int|
        0 <= i < j < order.len() ==> {
            let a = #[trigger] order[i];
            let b = #[trigger] order[j];
            keys[a as int] < keys[b as int] || (keys[a as int] == keys[b as int] && a < b)
        }
}

/// The positions of `keys` in the order their items are listed: by key,
/// earliest first; items of equal key in the order they were read.
pub fn order_by_instant(keys: &Vec<i128>) -> (r: Vec<usize>)
    ensures
        is_permutation(r@, keys@.len()),
        is_stably_sorted(keys@, r@),
{
    let mut out: Vec<usize> = Vec::new();
    let mut k: usize = 0;
    while k < keys.len()
        invariant
            k <= keys.len(),
            is_permutation(out@, k as nat),
            is_stably_sorted(keys@, out@),
        decreases keys.len() - k,
    {
        let mut pos: usize = out.len();
        while pos > 0 && keys[out[pos - 1]] > keys[k]
            invariant
                pos <= out@.len(),
                k < keys.len(),
                is_permutation(out@, k as nat),
                is_stably_sorted(keys@, out@),
                forall|j: int| pos <= j < out@.len() ==> keys@[(#[trigger] out@[j]) as int] > keys@[k as int],
            decreases pos,
        {
            pos = pos - 1;
        }
        let ghost before = out@;
        out.insert(pos, k);
        proof {
            assert(out@ =~= before.take(pos as int).push(k) + before.skip(pos as int));
            assert forall|i: int| 0 <= i < out@.len() implies (#[trigger] out@[i]) < k + 1 by {
                if i < pos {
                    assert(out@[i] == before[i]);
                } else if i > pos {
                    assert(out@[i] == before[i - 1]);
                }
            }
            assert forall|i: int, j: int| 0 <= i < j < out@.len() implies out@[i] != out@[j] by {
                if i < pos && j > pos {
                    assert(out@[i] == before[i] && out@[j] == before[j - 1]);
                } else if i < pos && j < pos {
                    assert(out@[i] == before[i] && out@[j] == before[j]);
                } else if i > pos {
                    assert(out@[i] == before[i - 1] && out@[j] == before[j - 1]);
                } else if i == pos {
                    assert(out@[j] == before[j - 1]);
                } else {
                    assert(out@[i] == before[i]);
                }
            }
            assert forall|i: int, j: int| 0 <= i < j < out@.len() implies {
                let a = #[trigger] out@[i];
                let b = #[trigger] out@[j];
                keys@[a as int] < keys@[b as int] || (keys@[a as int] == keys@[b as int] && a < b)
            } by {
                if i < pos && j < pos {
                    assert(out@[i] == before[i] && out@[j] == before[j]);
                } else if i > pos {
                    assert(out@[i] == before[i - 1] && out@[j] == before[j - 1]);
                } else if i < pos && j == pos {
                    assert(out@[i] == before[i]);
                    assert(keys@[before[pos - 1] as int] <= keys@[k as int]);
                    if i < pos - 1 {
                        assert(keys@[before[i] as int] <= keys@[before[pos - 1] as int]);
                    }
                } else if i < pos && j > pos {
                    assert(out@[i] == before[i] && out@[j] == before[j - 1]);
                } else {
                    assert(i == pos);
                    assert(out@[j] == before[j - 1]);
                    assert(keys@[before[j - 1] as int] > keys@[k as int]);
                }
            }
        }
        k = k + 1;
    }
    out
}

} // verus!
