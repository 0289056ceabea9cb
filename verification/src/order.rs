use vstd::prelude::*;

verus! {

/// Strict lexicographic order on key triples.
pub open spec fn key_lt(a: (u64, u64, u64), b: (u64, u64, u64)) -> bool {
    a.0 < b.0 || (a.0 == b.0 && (a.1 < b.1 || (a.1 == b.1 && a.2 < b.2)))
}

/// Item `i` comes before item `j` in a stable sort by `keys`: by key, then by position.
pub open spec fn stable_before(keys: Seq<(u64, u64, u64)>, i: int, j: int) -> bool {
    key_lt(keys[i], keys[j]) || (keys[i] == keys[j] && i < j)
}

/// `r` lists every position of `keys` once, in the order in which a stable sort by key
/// (`slice::sort_by_key`) leaves the items.
pub open spec fn is_stable_order(keys: Seq<(u64, u64, u64)>, r: Seq<usize>) -> bool {
    &&& r.len() == keys.len()
    &&& forall|a: int| 0 <= a < r.len() ==> (#[trigger] r[a] as int) < keys.len()
    &&& forall|j: usize| (j as int) < keys.len() ==> #[trigger] r.contains(j)
    &&& forall|a: int, b: int|
        0 <= a < b < r.len() ==> stable_before(keys, #[trigger] r[a] as int, #[trigger] r[b] as int)
}

fn key_lt_exec(a: &(u64, u64, u64), b: &(u64, u64, u64)) -> (r: bool)
    ensures
        r == key_lt(*a, *b),
{
    a.0 < b.0 || (a.0 == b.0 && (a.1 < b.1 || (a.1 == b.1 && a.2 < b.2)))
}

/// The positions of `keys` in stable sorted order.
pub fn stable_order(keys: &Vec<(u64, u64, u64)>) -> (r: Vec<usize>)
    ensures
        is_stable_order(keys@, r@),
{
    let n = keys.len();
    let mut r: Vec<usize> = Vec::new();
    let mut i: usize = 0;
    while i < n
        invariant
            n == keys.len(),
            i <= n,
            r.len() == i,
            forall|a: int| 0 <= a < r.len() ==> (#[trigger] r@[a] as int) < i,
            forall|j: usize| j < i ==> #[trigger] r@.contains(j),
            forall|a: int, b: int|
                0 <= a < b < r.len() ==> stable_before(
                    keys@,
                    #[trigger] r@[a] as int,
                    #[trigger] r@[b] as int,
                ),
        decreases n - i,
    {
        let mut p: usize = 0;
        while p < r.len() && !key_lt_exec(&keys[i], &keys[r[p]])
            invariant
                n == keys.len(),
                i < n,
                p <= r.len(),
                forall|a: int| 0 <= a < r.len() ==> (#[trigger] r@[a] as int) < i,
                forall|q: int| 0 <= q < p ==> !key_lt(keys@[i as int], keys@[#[trigger] r@[q] as int]),
            decreases r.len() - p,
        {
            p = p + 1;
        }
        let ghost old_r = r@;
        r.insert(p, i);
        proof {
            assert(r@ == old_r.insert(p as int, i));
            assert forall|a: int| 0 <= a < r.len() implies (#[trigger] r@[a] as int) < i + 1 by {
                if a < p {
                    assert(r@[a] == old_r[a]);
                } else if a > p {
                    assert(r@[a] == old_r[a - 1]);
                }
            }
            assert forall|j: usize| j < i + 1 implies #[trigger] r@.contains(j) by {
                if j == i {
                    assert(r@[p as int] == i);
                } else {
                    assert(old_r.contains(j));
                    let a = choose|a: int| 0 <= a < old_r.len() && old_r[a] == j;
                    if a < p {
                        assert(r@[a] == old_r[a]);
                    } else {
                        assert(r@[a + 1] == old_r[a]);
                    }
                }
            }
            assert forall|a: int, b: int| 0 <= a < b < r.len() implies stable_before(
                keys@,
                #[trigger] r@[a] as int,
                #[trigger] r@[b] as int,
            ) by {
                let ki = keys@[i as int];
                if a < p && b < p {
                    assert(r@[a] == old_r[a] && r@[b] == old_r[b]);
                } else if a < p && b == p {
                    assert(r@[a] == old_r[a]);
                    assert(!key_lt(ki, keys@[old_r[a] as int]));
                } else if a < p && b > p {
                    assert(r@[a] == old_r[a] && r@[b] == old_r[b - 1]);
                } else if a == p {
                    assert(r@[b] == old_r[b - 1]);
                    assert(p < old_r.len());
                    assert(key_lt(ki, keys@[old_r[p as int] as int]));
                    if b - 1 > p {
                        assert(stable_before(keys@, old_r[p as int] as int, old_r[b - 1] as int));
                    }
                } else {
                    assert(r@[a] == old_r[a - 1] && r@[b] == old_r[b - 1]);
                }
            }
        }
        i = i + 1;
    }
    r
}

fn take_slot<T>(slots: &mut Vec<Option<T>>, k: usize) -> (x: Option<T>)
    requires
        k < old(slots).len(),
    ensures
        x == old(slots)@[k as int],
        final(slots)@ == old(slots)@.update(k as int, None),
{
    let mut x: Option<T> = None;
    std::mem::swap(&mut x, &mut slots[k]);
    x
}

/// The items of `items` in the order `order` lists their positions.
pub fn permute<T>(items: Vec<T>, order: &Vec<usize>) -> (out: Vec<T>)
    requires
        order.len() == items.len(),
        forall|a: int| 0 <= a < order.len() ==> (#[trigger] order@[a] as int) < items.len(),
        forall|a: int, b: int|
            0 <= a < b < order.len() ==> #[trigger] order@[a] != #[trigger] order@[b],
    ensures
        out.len() == order.len(),
        forall|a: int| 0 <= a < out.len() ==> #[trigger] out@[a] == items@[order@[a] as int],
{
    let ghost orig = items@;
    let mut slots: Vec<Option<T>> = Vec::new();
    for x in it: items
        invariant
            slots.len() == it.index(),
            it.seq() == orig,
            forall|a: int| 0 <= a < slots.len() ==> #[trigger] slots@[a] == Some(orig[a]),
    {
        slots.push(Some(x));
    }
    let mut out: Vec<T> = Vec::new();
    let mut i: usize = 0;
    while i < order.len()
        invariant
            i <= order.len(),
            order.len() == orig.len(),
            slots.len() == orig.len(),
            out.len() == i,
            forall|a: int| 0 <= a < order.len() ==> (#[trigger] order@[a] as int) < orig.len(),
            forall|a: int, b: int|
                0 <= a < b < order.len() ==> #[trigger] order@[a] != #[trigger] order@[b],
            forall|a: int| 0 <= a < i ==> #[trigger] out@[a] == orig[order@[a] as int],
            forall|a: int|
                i <= a < order.len() ==> #[trigger] slots@[order@[a] as int] == Some(
                    orig[order@[a] as int],
                ),
        decreases order.len() - i,
    {
        let k = order[i];
        let x = take_slot(&mut slots, k);
        proof {
            assert forall|a: int| i + 1 <= a < order.len() implies #[trigger] slots@[order@[a] as int]
                == Some(orig[order@[a] as int]) by {
                assert(order@[i as int] != order@[a]);
            }
        }
        match x {
            Some(v) => {
                out.push(v);
            },
            None => {
                proof {
                    assert(false);
                }
            },
        }
        i = i + 1;
    }
    out
}

/// `out` is `items` stably sorted by `keys`, where `keys[i]` is the key of `items[i]`.
pub open spec fn is_stable_sort_of<T>(
    items: Seq<T>,
    keys: Seq<(u64, u64, u64)>,
    out: Seq<T>,
) -> bool {
    exists|r: Seq<usize>|
        is_stable_order(keys, r) && out.len() == r.len() && forall|a: int|
            0 <= a < out.len() ==> #[trigger] out[a] == items[r[a] as int]
}

/// `items` stably sorted by `keys` (`slice::sort_by_key`).
pub fn sort_by_keys<T>(items: Vec<T>, keys: &Vec<(u64, u64, u64)>) -> (out: Vec<T>)
    requires
        keys.len() == items.len(),
    ensures
        is_stable_sort_of(items@, keys@, out@),
{
    let ghost orig = items@;
    let order = stable_order(keys);
    proof {
        assert forall|a: int, b: int| 0 <= a < b < order.len() implies #[trigger] order@[a]
            != #[trigger] order@[b] by {
            assert(stable_before(keys@, order@[a] as int, order@[b] as int));
        }
    }
    let out = permute(items, &order);
    proof {
        assert(is_stable_order(keys@, order@) && out@.len() == order@.len() && forall|a: int|
            0 <= a < out@.len() ==> #[trigger] out@[a] == orig[order@[a] as int]);
    }
    out
}

/// There is only one stable order of a list of keys.
pub proof fn stable_order_is_unique(keys: Seq<(u64, u64, u64)>, r1: Seq<usize>, r2: Seq<usize>)
    requires
        is_stable_order(keys, r1),
        is_stable_order(keys, r2),
    ensures
        r1 == r2,
{
    assert forall|a: int| 0 <= a < r1.len() implies r1[a] == r2[a] by {
        if r1[a] != r2[a] {
            lemma_exists_first_difference(r1, r2, a);
            let c = choose|c: int|
                0 <= c <= a && r1[c] != r2[c] && forall|d: int| 0 <= d < c ==> r1[d] == r2[d];
            lemma_late_position(keys, r1, r2, c);
            lemma_late_position(keys, r2, r1, c);
        }
    }
    assert(r1 =~= r2);
}

/// A stable sort by key has only one result.
pub proof fn stable_sort_is_unique<T>(
    items: Seq<T>,
    keys: Seq<(u64, u64, u64)>,
    out1: Seq<T>,
    out2: Seq<T>,
)
    requires
        is_stable_sort_of(items, keys, out1),
        is_stable_sort_of(items, keys, out2),
    ensures
        out1 == out2,
{
    let r1 = choose|r: Seq<usize>|
        is_stable_order(keys, r) && out1.len() == r.len() && forall|a: int|
            0 <= a < out1.len() ==> #[trigger] out1[a] == items[r[a] as int];
    let r2 = choose|r: Seq<usize>|
        is_stable_order(keys, r) && out2.len() == r.len() && forall|a: int|
            0 <= a < out2.len() ==> #[trigger] out2[a] == items[r[a] as int];
    stable_order_is_unique(keys, r1, r2);
    assert(out1 =~= out2);
}

proof fn lemma_exists_first_difference(r1: Seq<usize>, r2: Seq<usize>, a: int)
    requires
        0 <= a < r1.len(),
        a < r2.len(),
        r1[a] != r2[a],
    ensures
        exists|c: int| 0 <= c <= a && r1[c] != r2[c] && forall|d: int| 0 <= d < c ==> r1[d] == r2[d],
    decreases a,
{
    if forall|d: int| 0 <= d < a ==> r1[d] == r2[d] {
        assert(0 <= a <= a && r1[a] != r2[a]);
    } else {
        let d = choose|d: int| 0 <= d < a && r1[d] != r2[d];
        lemma_exists_first_difference(r1, r2, d);
    }
}

/// Where two stable orders first differ, at `c`, the item of the first order there cannot
/// come before the item of the second: it stands later in the second order.
proof fn lemma_late_position(keys: Seq<(u64, u64, u64)>, r1: Seq<usize>, r2: Seq<usize>, c: int)
    requires
        is_stable_order(keys, r1),
        is_stable_order(keys, r2),
        0 <= c < r1.len(),
        r1[c] != r2[c],
        forall|d: int| 0 <= d < c ==> r1[d] == r2[d],
    ensures
        !stable_before(keys, r1[c] as int, r2[c] as int),
{
    let x = r1[c];
    assert(r2.contains(x));
    let b = choose|b: int| 0 <= b < r2.len() && r2[b] == x;
    if b < c {
        assert(r1[b] == x);
        assert(stable_before(keys, r1[b] as int, r1[c] as int));
    } else {
        assert(b > c);
        assert(stable_before(keys, r2[c] as int, r2[b] as int));
    }
}

} // verus!
