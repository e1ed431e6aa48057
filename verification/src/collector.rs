//! Selection rules of the metric collector. The processes themselves are
//! read from the operating system by the caller; here they stand as their
//! memory figures, names and PIDs, and results are positions among them.
use vstd::prelude::*;
use crate::text::{ascii_lower, eq_ignore_ascii_case};

verus! {

/// Whether the process at position `a` comes before the one at `b` when
/// processes are listed by memory, largest first, ties kept in their
/// original order (the order of a stable sort by descending memory).
pub open spec fn ranks_before(memory: Seq<u64>, a: int, b: int) -> bool {
    memory[a] > memory[b] || (memory[a] == memory[b] && a < b)
}

/// Whether `picked` lists the first `n` positions (all of them when there
/// are fewer) of the processes ordered by [`ranks_before`]: the top `n`
/// processes by memory.
pub open spec fn is_top_by_memory(memory: Seq<u64>, n: nat, picked: Seq<usize>) -> bool {
    &&& picked.len() == if n < memory.len() { n } else { memory.len() }
    &&& forall|i: int| 0 <= i < picked.len() ==> #[trigger] picked[i] < memory.len()
    &&& forall|i: int, j: int|
        0 <= i < j < picked.len() ==> ranks_before(memory, picked[i] as int, picked[j] as int)
    &&& forall|i: int, k: usize|
        #![trigger picked[i], picked.contains(k)]
        0 <= i < picked.len() && k < memory.len() && !picked.contains(k) ==> ranks_before(
            memory,
            picked[i] as int,
            k as int,
        )
}

/// The top `n` selection is determined by the memory figures alone: any
/// two selections that meet [`is_top_by_memory`] are the same list (the
/// first `n` entries of a stable sort by descending memory).
pub proof fn top_by_memory_is_determined(
    memory: Seq<u64>,
    n: nat,
    a: Seq<usize>,
    b: Seq<usize>,
)
    requires
        is_top_by_memory(memory, n, a),
        is_top_by_memory(memory, n, b),
    ensures
        a == b,
{
    assert forall|i: int| 0 <= i < a.len() implies a[i] == b[i] by {
        top_by_memory_agree_at(memory, n, a, b, i);
    }
    assert(a =~= b);
}

proof fn top_by_memory_agree_at(memory: Seq<u64>, n: nat, a: Seq<usize>, b: Seq<usize>, i: int)
    requires
        is_top_by_memory(memory, n, a),
        is_top_by_memory(memory, n, b),
        0 <= i < a.len(),
    ensures
        forall|j: int| 0 <= j <= i ==> a[j] == b[j],
    decreases i,
{
    if i > 0 {
        top_by_memory_agree_at(memory, n, a, b, i - 1);
    }
    let x = a[i];
    let y = b[i];
    if x != y {
        assert(b.len() == a.len());
        if ranks_before(memory, x as int, y as int) {
            not_ranked_both_ways(memory, n, b, a, i, y, x);
        } else {
            not_ranked_both_ways(memory, n, a, b, i, x, y);
        }
    }
}

/// Where two selections agree before position `i`, the entry of the one
/// at `i` never ranks after the entry of the other.
proof fn not_ranked_both_ways(
    memory: Seq<u64>,
    n: nat,
    p: Seq<usize>,
    q: Seq<usize>,
    i: int,
    x: usize,
    y: usize,
)
    requires
        is_top_by_memory(memory, n, p),
        is_top_by_memory(memory, n, q),
        0 <= i < p.len(),
        p[i] == x,
        q[i] == y,
        x != y,
        forall|j: int| 0 <= j < i ==> p[j] == q[j],
    ensures
        !ranks_before(memory, y as int, x as int),
{
    if ranks_before(memory, y as int, x as int) && p.contains(y) {
        let j = choose|j: int| 0 <= j < p.len() && p[j] == y;
        if j < i {
            assert(q[j] == y);
            assert(ranks_before(memory, q[j] as int, q[i] as int));
        } else if j > i {
            assert(ranks_before(memory, p[i] as int, p[j] as int));
        }
    } else if ranks_before(memory, y as int, x as int) {
        assert(y < memory.len());
        assert(ranks_before(memory, p[i] as int, y as int));
    }
}

/// The positions of the top `n` processes by memory, largest first, ties
/// in their original order.
pub fn top_by_memory(memory: &Vec<u64>, n: usize) -> (picked: Vec<usize>)
    ensures
        is_top_by_memory(memory@, n as nat, picked@),
{
    let len = memory.len();
    let m = if n < len { n } else { len };
    let mut taken: Vec<bool> = Vec::new();
    let mut t: usize = 0;
    while t < len
        invariant
            t <= len,
            len == memory.len(),
            taken.len() == t,
            forall|k: int| 0 <= k < t ==> !taken[k],
        decreases len - t,
    {
        taken.push(false);
        t = t + 1;
    }
    let mut picked: Vec<usize> = Vec::new();
    while picked.len() < m
        invariant
            len == memory.len(),
            m <= len,
            m == if n < len { n } else { len },
            picked.len() <= m,
            taken.len() == len,
            forall|i: int| 0 <= i < picked.len() ==> #[trigger] picked[i] < len,
            forall|k: int| 0 <= k < len ==> (taken[k] <==> picked@.contains(k as usize)),
            forall|i: int, j: int|
                0 <= i < j < picked.len() ==> ranks_before(
                    memory@,
                    picked[i] as int,
                    picked[j] as int,
                ),
            forall|i: int, k: int|
                #![trigger picked[i], taken[k]]
                0 <= i < picked.len() && 0 <= k < len && !taken[k] ==> ranks_before(
                    memory@,
                    picked[i] as int,
                    k,
                ),
        decreases m - picked.len(),
    {
        // Some position is still free: fewer than `len` positions are taken.
        proof {
            if forall|k: int| 0 <= k < len ==> taken[k] {
                assert forall|k: usize| k < len implies #[trigger] picked@.contains(k) by {
                    assert(taken[k as int]);
                }
                picks_cover_range(picked@, len as nat);
            }
        }
        let mut best: usize = len;
        let mut j: usize = 0;
        while j < len
            invariant
                len == memory.len(),
                taken.len() == len,
                j <= len,
                best == len || (best < j && !taken[best as int]),
                best == len ==> forall|k: int| 0 <= k < j ==> taken[k],
                best < len ==> forall|k: int|
                    0 <= k < j && !taken[k] && k != best ==> ranks_before(memory@, best as int, k),
            decreases len - j,
        {
            if !taken[j] {
                if best == len || memory[j] > memory[best] {
                    best = j;
                }
            }
            j = j + 1;
        }
        assert(best < len);
        let ghost old_picked = picked@;
        taken.set(best, true);
        picked.push(best);
        proof {
            assert forall|k: int| 0 <= k < len implies (taken[k] <==> picked@.contains(
                k as usize,
            )) by {
                if k == best {
                    assert(picked@[picked.len() - 1] == best);
                } else {
                    if picked@.contains(k as usize) {
                        let w = choose|w: int| 0 <= w < picked.len() && picked@[w] == k as usize;
                        assert(w < old_picked.len());
                        assert(old_picked.contains(k as usize));
                    }
                    if old_picked.contains(k as usize) {
                        let w = choose|w: int| 0 <= w < old_picked.len() && old_picked[w] == k as usize;
                        assert(picked@[w] == k as usize);
                    }
                }
            }
        }
    }
    proof {
        assert forall|i: int, k: usize|
            #![trigger picked@[i], picked@.contains(k)]
            0 <= i < picked.len() && k < memory@.len() && !picked@.contains(k)
            implies ranks_before(memory@, picked@[i] as int, k as int) by {
            assert(!taken[k as int]);
            assert(picked[i] == picked@[i]);
        }
    }
    picked
}

/// When every position below `len` is among `picks`, there are at least
/// `len` picks.
proof fn picks_cover_range(picks: Seq<usize>, len: nat)
    requires
        len <= usize::MAX,
        forall|k: usize| k < len ==> #[trigger] picks.contains(k),
    ensures
        picks.len() >= len,
{
    let ints = picks.map_values(|x: usize| x as int);
    let s = vstd::set_lib::set_int_range(0, len as int);
    let p = ints.to_set();
    assert(s.subset_of(p)) by {
        assert forall|k: int| s.contains(k) implies p.contains(k) by {
            assert(picks.contains(k as usize));
            let w = choose|w: int| 0 <= w < picks.len() && picks[w] == k as usize;
            assert(ints[w] == k);
        }
    }
    vstd::set_lib::lemma_int_range(0, len as int);
    ints.lemma_cardinality_of_set();
    vstd::seq_lib::seq_to_set_is_finite(ints);
    vstd::set_lib::lemma_len_subset(s, p);
}

/// The positions, in order, of the processes whose name equals `name`
/// ignoring ASCII case.
pub fn find_by_name(names: &Vec<String>, name: &str) -> (found: Vec<usize>)
    ensures
        forall|i: int| 0 <= i < found.len() ==> #[trigger] found[i] < names.len(),
        forall|i: int, j: int| 0 <= i < j < found.len() ==> found[i] < found[j],
        forall|k: int|
            0 <= k < names.len() ==> (found@.contains(k as usize) <==> ascii_lower(
                #[trigger] names[k]@,
            ) == ascii_lower(name@)),
{
    let mut found: Vec<usize> = Vec::new();
    let mut k: usize = 0;
    while k < names.len()
        invariant
            k <= names.len(),
            forall|i: int| 0 <= i < found.len() ==> #[trigger] found[i] < k,
            forall|i: int, j: int| 0 <= i < j < found.len() ==> found[i] < found[j],
            forall|q: int|
                0 <= q < k ==> (found@.contains(q as usize) <==> ascii_lower(#[trigger] names[q]@)
                    == ascii_lower(name@)),
        decreases names.len() - k,
    {
        let ghost before = found@;
        if eq_ignore_ascii_case(names[k].as_str(), name) {
            found.push(k);
        }
        proof {
            assert forall|q: int| 0 <= q < k + 1 implies (found@.contains(q as usize) <==> ascii_lower(
                #[trigger] names[q]@,
            ) == ascii_lower(name@)) by {
                if q < k {
                    if found@.contains(q as usize) {
                        let w = choose|w: int| 0 <= w < found.len() && found@[w] == q as usize;
                        assert(w < before.len());
                        assert(before.contains(q as usize));
                    }
                    if before.contains(q as usize) {
                        let w = choose|w: int| 0 <= w < before.len() && before[w] == q as usize;
                        assert(found@[w] == q as usize);
                    }
                } else {
                    if found@.contains(q as usize) {
                        let w = choose|w: int| 0 <= w < found.len() && found@[w] == q as usize;
                        assert(w == before.len());
                    }
                    if ascii_lower(names[q]@) == ascii_lower(name@) {
                        assert(found@[found.len() - 1] == k);
                    }
                }
            }
        }
        k = k + 1;
    }
    found
}

/// The position of the first process with PID `pid`, if any.
pub fn find_by_pid(pids: &Vec<i32>, pid: i32) -> (found: Option<usize>)
    ensures
        match found {
            Some(k) => k < pids.len() && pids[k as int] == pid && forall|q: int|
                0 <= q < k ==> pids[q] != pid,
            None => forall|q: int| 0 <= q < pids.len() ==> pids[q] != pid,
        },
{
    let mut k: usize = 0;
    while k < pids.len()
        invariant
            k <= pids.len(),
            forall|q: int| 0 <= q < k ==> pids[q] != pid,
        decreases pids.len() - k,
    {
        if pids[k] == pid {
            return Some(k);
        }
        k = k + 1;
    }
    None
}

} // verus!
