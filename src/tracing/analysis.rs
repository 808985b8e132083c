//! Detection of overlapping memory accesses: the accesses are swept in the
//! order of their start addresses, and each is paired with every later-starting
//! access that begins before it ends.

use vstd::prelude::*;
use crate::tracing::metadata::MemoryRecord;

verus! {

broadcast use vstd::seq_lib::group_to_multiset_ensures;

/// The first byte after the accessed range.
pub open spec fn range_end(r: MemoryRecord) -> int {
    r.wasm_id.address as int + r.wasm_id.access_width as int
}

/// Whether the byte ranges `[address, address + width)` of two accesses share a byte.
pub open spec fn ranges_overlap(a: MemoryRecord, b: MemoryRecord) -> bool {
    &&& a.wasm_id.address < range_end(a)
    &&& b.wasm_id.address < range_end(b)
    &&& a.wasm_id.address < range_end(b)
    &&& b.wasm_id.address < range_end(a)
}

/// Lexicographic order on pairs of positions.
pub open spec fn lex_lt(a: (int, int), b: (int, int)) -> bool {
    a.0 < b.0 || (a.0 == b.0 && a.1 < b.1)
}

/// Whether the start of access `i` stands somewhere in `starts`.
pub open spec fn placed(starts: Seq<(u32, usize)>, records: Seq<MemoryRecord>, i: int) -> bool {
    exists|x: int|
        0 <= x < starts.len() && #[trigger] starts[x] == (records[i].wasm_id.address, i as usize)
}

/// Relies on `slice::sort_unstable`: afterwards the items are the same, with
/// their first components in ascending order (tuples compare lexicographically).
#[verifier::external_body]
fn sort_by_start(v: &mut Vec<(u32, usize)>)
    ensures
        final(v)@.len() == old(v)@.len(),
        final(v)@.to_multiset() == old(v)@.to_multiset(),
        forall|a: int, b: int| 0 <= a < b < final(v)@.len() ==> final(v)@[a].0 <= final(v)@[b].0,
{
    v.sort_unstable();
}

/// Finds the pairs of distinct accesses whose byte ranges overlap.
///
/// Each pair is given by the positions of its two accesses, one that starts
/// no later in front; each unordered overlapping pair comes out exactly once,
/// in one order. Ranges that only touch (`[a, b)` and `[b, c)`) do not overlap.
pub fn line_sweep_algorithm(records: &Vec<MemoryRecord>) -> (r: Vec<(usize, usize)>)
    ensures
        forall|k: int|
            0 <= k < r@.len() ==> {
                let (i, j) = #[trigger] r@[k];
                &&& i < records@.len()
                &&& j < records@.len()
                &&& records@[i as int] != records@[j as int]
                &&& ranges_overlap(records@[i as int], records@[j as int])
            },
        forall|i: int, j: int|
            0 <= i < records@.len() && 0 <= j < records@.len() && records@[i] != records@[j]
                && ranges_overlap(records@[i], records@[j]) ==> r@.contains((i as usize, j as usize))
                || r@.contains((j as usize, i as usize)),
        forall|k: int|
            0 <= k < r@.len() ==> records@[(#[trigger] r@[k]).0 as int].wasm_id.address
                <= records@[r@[k].1 as int].wasm_id.address,
        forall|k: int, l: int| 0 <= k < l < r@.len() ==> #[trigger] r@[k] != #[trigger] r@[l],
        forall|k: int, l: int|
            0 <= k < r@.len() && 0 <= l < r@.len() ==> #[trigger] r@[k] != (
                (#[trigger] r@[l]).1,
                r@[l].0,
            ),
{
    let n = records.len();
    let mut starts: Vec<(u32, usize)> = Vec::new();
    let mut i: usize = 0;
    while i < n
        invariant
            n == records@.len(),
            i <= n,
            starts@.len() == i,
            forall|k: int| 0 <= k < i ==> #[trigger] starts@[k] == (records@[k].wasm_id.address, k as usize),
        decreases n - i,
    {
        starts.push((records[i].wasm_id.address, i));
        i = i + 1;
    }
    let ghost unsorted = starts@;
    sort_by_start(&mut starts);
    proof {
        assert forall|p: int| 0 <= p < starts@.len() implies (#[trigger] starts@[p]).1 < n
            && starts@[p].0 == records@[starts@[p].1 as int].wasm_id.address by {
            assert(starts@.contains(starts@[p]));
            assert(starts@.to_multiset().count(starts@[p]) > 0);
            assert(unsorted.contains(starts@[p]));
        }
        assert forall|i: int| 0 <= i < n implies #[trigger] placed(starts@, records@, i) by {
            assert(unsorted[i] == (records@[i].wasm_id.address, i as usize));
            assert(unsorted.contains(unsorted[i]));
            assert(starts@.to_multiset().count(unsorted[i]) > 0);
            assert(starts@.contains(unsorted[i]));
            let x = choose|x: int| 0 <= x < starts@.len() && starts@[x] == unsorted[i];
            assert(starts@[x] == (records@[i].wasm_id.address, i as usize));
        }
        assert(unsorted.no_duplicates());
        unsorted.lemma_multiset_has_no_duplicates();
        starts@.lemma_multiset_has_no_duplicates_conv();
    }
    let ghost mut pos: Seq<(int, int)> = Seq::empty();
    let mut result: Vec<(usize, usize)> = Vec::new();
    let mut p: usize = 0;
    while p < n
        invariant
            n == records@.len(),
            starts@.len() == n,
            p <= n,
            forall|k: int|
                0 <= k < pos.len() ==> 0 <= (#[trigger] pos[k]).0 < pos[k].1 < n && result@[k] == (
                    starts@[pos[k].0].1,
                    starts@[pos[k].1].1,
                ),
            forall|k: int, l: int| 0 <= k < l < pos.len() ==> lex_lt(pos[k], pos[l]),
            pos.len() == result@.len(),
            starts@.no_duplicates(),
            forall|k: int| 0 <= k < pos.len() ==> (#[trigger] pos[k]).0 < p,
            forall|i: int| 0 <= i < n ==> #[trigger] placed(starts@, records@, i),
            forall|a: int, b: int| 0 <= a < b < n ==> starts@[a].0 <= starts@[b].0,
            forall|a: int|
                0 <= a < n ==> (#[trigger] starts@[a]).1 < n && starts@[a].0 == records@[starts@[
                    a].1 as int].wasm_id.address,
            forall|k: int|
                0 <= k < result@.len() ==> {
                    let (i, j) = #[trigger] result@[k];
                    &&& i < records@.len()
                    &&& j < records@.len()
                    &&& records@[i as int] != records@[j as int]
                    &&& ranges_overlap(records@[i as int], records@[j as int])
                },
            forall|a: int, b: int|
                #![trigger starts@[a], starts@[b]]
                0 <= a < p && a < b < n && (starts@[b].0 as int) < range_end(
                    records@[starts@[a].1 as int],
                ) && records@[starts@[a].1 as int] != records@[starts@[b].1 as int]
                    && records@[starts@[b].1 as int].wasm_id.access_width > 0
                    ==> result@.contains((starts@[a].1, starts@[b].1)),
        decreases n - p,
    {
        let (sp, ip) = starts[p];
        let end_p: u64 = sp as u64 + records[ip].wasm_id.access_width as u64;
        let mut q: usize = p + 1;
        while q < n && (starts[q].0 as u64) < end_p
            invariant
                n == records@.len(),
                starts@.len() == n,
                p < n,
                p < q <= n,
                forall|k: int|
                    0 <= k < pos.len() ==> 0 <= (#[trigger] pos[k]).0 < pos[k].1 < n && result@[k] == (
                        starts@[pos[k].0].1,
                        starts@[pos[k].1].1,
                    ),
                forall|k: int, l: int| 0 <= k < l < pos.len() ==> lex_lt(pos[k], pos[l]),
                pos.len() == result@.len(),
                starts@.no_duplicates(),
                forall|k: int|
                    0 <= k < pos.len() ==> (#[trigger] pos[k]).0 < p || (pos[k].0 == p && pos[k].1 < q),
                (sp, ip) == starts@[p as int],
                end_p == range_end(records@[ip as int]),
                forall|a: int, b: int| 0 <= a < b < n ==> starts@[a].0 <= starts@[b].0,
                forall|a: int|
                    0 <= a < n ==> (#[trigger] starts@[a]).1 < n && starts@[a].0 == records@[starts@[
                        a].1 as int].wasm_id.address,
                forall|b: int| p < b < q ==> (starts@[b].0 as int) < end_p,
                forall|k: int|
                    0 <= k < result@.len() ==> {
                        let (i, j) = #[trigger] result@[k];
                        &&& i < records@.len()
                        &&& j < records@.len()
                        &&& records@[i as int] != records@[j as int]
                        &&& ranges_overlap(records@[i as int], records@[j as int])
                    },
                forall|a: int, b: int|
                    #![trigger starts@[a], starts@[b]]
                    0 <= a < p && a < b < n && (starts@[b].0 as int) < range_end(
                        records@[starts@[a].1 as int],
                    ) && records@[starts@[a].1 as int] != records@[starts@[b].1 as int]
                        && records@[starts@[b].1 as int].wasm_id.access_width > 0
                        ==> result@.contains((starts@[a].1, starts@[b].1)),
                forall|b: int|
                    #![trigger starts@[b]]
                    p < b < q && records@[ip as int] != records@[starts@[b].1 as int]
                        && records@[starts@[b].1 as int].wasm_id.access_width > 0
                        ==> result@.contains((ip, starts@[b].1)),
            decreases n - q,
        {
            let iq = starts[q].1;
            if records[iq] != records[ip] && records[iq].wasm_id.access_width > 0 {
                let ghost before = result@;
                result.push((ip, iq));
                proof {
                    pos = pos.push((p as int, q as int));
                    assert(result@[result@.len() - 1] == (ip, iq));
                    assert(result@.contains((ip, iq)));
                    assert forall|x: (usize, usize)| before.contains(x) implies result@.contains(
                        x,
                    ) by {
                        let k = choose|k: int| 0 <= k < before.len() && before[k] == x;
                        assert(result@[k] == x);
                    }
                }
            }
            q = q + 1;
        }
        proof {
            assert forall|b: int|
                p < b < n && (starts@[b].0 as int) < end_p implies b < q by {
                if b >= q {
                    assert(starts@[q as int].0 <= starts@[b].0);
                }
            }
        }
        p = p + 1;
    }
    proof {
        assert forall|a: int, b: int|
            0 <= a < n && 0 <= b < n && (#[trigger] starts@[a]).1 == (#[trigger] starts@[b]).1 implies a
            == b by {
            assert(starts@[a] == starts@[b]);
        }
        assert forall|k: int| 0 <= k < result@.len() implies records@[(
        #[trigger] result@[k]).0 as int].wasm_id.address <= records@[result@[k].1 as int].wasm_id.address by {
            assert(starts@[pos[k].0] == starts@[pos[k].0]);
            assert(starts@[pos[k].1] == starts@[pos[k].1]);
        }
        assert forall|k: int, l: int| 0 <= k < l < result@.len() implies #[trigger] result@[k]
            != #[trigger] result@[l] by {
            assert(lex_lt(pos[k], pos[l]));
            if result@[k] == result@[l] {
                assert(starts@[pos[k].0].1 == starts@[pos[l].0].1);
                assert(starts@[pos[k].1].1 == starts@[pos[l].1].1);
            }
        }
        assert forall|k: int, l: int|
            0 <= k < result@.len() && 0 <= l < result@.len() implies #[trigger] result@[k] != (
            (#[trigger] result@[l]).1,
            result@[l].0,
        ) by {
            if result@[k] == (result@[l].1, result@[l].0) {
                assert(starts@[pos[k].0].1 == starts@[pos[l].1].1);
                assert(starts@[pos[k].1].1 == starts@[pos[l].0].1);
            }
        }
        assert forall|i: int, j: int|
            0 <= i < records@.len() && 0 <= j < records@.len() && records@[i] != records@[j]
                && ranges_overlap(records@[i], records@[j]) implies result@.contains(
            (i as usize, j as usize),
        ) || result@.contains((j as usize, i as usize)) by {
            assert(placed(starts@, records@, i));
            assert(placed(starts@, records@, j));
            let pi = choose|x: int|
                0 <= x < starts@.len() && #[trigger] starts@[x] == (
                    records@[i].wasm_id.address,
                    i as usize,
                );
            let pj = choose|x: int|
                0 <= x < starts@.len() && #[trigger] starts@[x] == (
                    records@[j].wasm_id.address,
                    j as usize,
                );
            if pi < pj {
                assert(result@.contains((starts@[pi].1, starts@[pj].1)));
            } else {
                assert(pi != pj);
                assert(result@.contains((starts@[pj].1, starts@[pi].1)));
            }
        }
    }
    result
}

} // verus!
