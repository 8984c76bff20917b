//! Stable sorting by a numeric key.
use vstd::prelude::*;

verus! {

/// Position `x` stands before position `y` when sorting by key: its key is smaller, or the keys
/// are equal and it came first.
pub open spec fn comes_before(keys: Seq<u64>, x: int, y: int) -> bool {
    keys[x] < keys[y] || (keys[x] == keys[y] && x < y)
}

/// `order` lists the positions `lo..hi` of `keys`, each once, in the order of a stable sort.
pub open spec fn orders_range(keys: Seq<u64>, order: Seq<usize>, lo: int, hi: int) -> bool {
    &&& order.len() == hi - lo
    &&& forall|i: int| 0 <= i < order.len() ==> lo <= #[trigger] order[i] < hi
    &&& forall|i: int, j: int|
        0 <= i < j < order.len() ==> comes_before(keys, #[trigger] order[i] as int, #[trigger] order[j] as int)
    &&& forall|x: int| lo <= x < hi ==> #[trigger] order.contains(x as usize)
}

/// `order` lists all positions of `keys` in the order of a stable sort.
pub open spec fn is_sort_order(keys: Seq<u64>, order: Seq<usize>) -> bool {
    orders_range(keys, order, 0, keys.len() as int)
}

/// The positions of `keys` in the order of a stable sort.
pub open spec fn sort_order_spec(keys: Seq<u64>) -> Seq<usize> {
    choose|order: Seq<usize>| is_sort_order(keys, order)
}

/// There is only one order of a stable sort.
pub proof fn lemma_sort_order_unique(keys: Seq<u64>, a: Seq<usize>, b: Seq<usize>)
    requires
        is_sort_order(keys, a),
        is_sort_order(keys, b),
    ensures
        a == b,
{
    assert forall|i: int| 0 <= i < a.len() implies a[i] == b[i] by {
        lemma_same_at(keys, a, b, i);
    }
    assert(a =~= b);
}

proof fn lemma_same_at(keys: Seq<u64>, a: Seq<usize>, b: Seq<usize>, i: int)
    requires
        is_sort_order(keys, a),
        is_sort_order(keys, b),
        0 <= i < a.len(),
    ensures
        a[i] == b[i],
    decreases i,
{
    assert forall|k: int| 0 <= k < i implies a[k] == b[k] by {
        lemma_same_at(keys, a, b, k);
    }
    assert(b.contains(a[i] as int as usize));
    assert(a.contains(b[i] as int as usize));
    let p = choose|p: int| 0 <= p < b.len() && b[p] == a[i];
    let q = choose|q: int| 0 <= q < a.len() && a[q] == b[i];
    if p < i {
        assert(a[p] == b[p]);
        assert(comes_before(keys, a[p] as int, a[i] as int));
    }
    if q < i {
        assert(a[q] == b[q]);
        assert(comes_before(keys, b[q] as int, b[i] as int));
    }
    if p > i && q > i {
        assert(comes_before(keys, b[i] as int, b[p] as int));
        assert(comes_before(keys, a[i] as int, a[q] as int));
    }
}

/// The number of entries at the start of `order` whose keys do not exceed `key`.
proof fn lemma_split_place(keys: Seq<u64>, order: Seq<usize>, key: u64) -> (p: int)
    requires
        is_sort_order(keys, order),
    ensures
        0 <= p <= order.len(),
        forall|i: int| 0 <= i < p ==> keys[#[trigger] order[i] as int] <= key,
        forall|i: int| p <= i < order.len() ==> keys[#[trigger] order[i] as int] > key,
{
    lemma_split_place_from(keys, order, key, 0)
}

proof fn lemma_split_place_from(keys: Seq<u64>, order: Seq<usize>, key: u64, from: int) -> (p: int)
    requires
        is_sort_order(keys, order),
        0 <= from <= order.len(),
        forall|i: int| 0 <= i < from ==> keys[#[trigger] order[i] as int] <= key,
    ensures
        from <= p <= order.len(),
        forall|i: int| 0 <= i < p ==> keys[#[trigger] order[i] as int] <= key,
        forall|i: int| p <= i < order.len() ==> keys[#[trigger] order[i] as int] > key,
    decreases order.len() - from,
{
    if from == order.len() {
        from
    } else if keys[order[from] as int] > key {
        assert forall|i: int| from <= i < order.len() implies keys[#[trigger] order[i] as int]
            > key by {
            if i > from {
                assert(comes_before(keys, order[from] as int, order[i] as int));
            }
        }
        from
    } else {
        lemma_split_place_from(keys, order, key, from + 1)
    }
}

/// There is an order of a stable sort, and what it lists are the values, each as often as before.
pub proof fn lemma_sort_order_permutes<A>(keys: Seq<u64>, values: Seq<A>)
    requires
        keys.len() == values.len(),
        keys.len() <= usize::MAX,
    ensures
        is_sort_order(keys, sort_order_spec(keys)),
        sort_order_spec(keys).map_values(|i: usize| values[i as int]).to_multiset()
            == values.to_multiset(),
{
    let order = lemma_some_sort_order(keys, values);
    lemma_sort_order_unique(keys, order, sort_order_spec(keys));
}

proof fn lemma_some_sort_order<A>(keys: Seq<u64>, values: Seq<A>) -> (order: Seq<usize>)
    requires
        keys.len() == values.len(),
        keys.len() <= usize::MAX,
    ensures
        is_sort_order(keys, order),
        order.map_values(|i: usize| values[i as int]).to_multiset() == values.to_multiset(),
    decreases keys.len(),
{
    if keys.len() == 0 {
        let order = Seq::<usize>::empty();
        assert(order.map_values(|i: usize| values[i as int]) =~= values);
        order
    } else {
        let last = keys.len() - 1;
        let fewer = keys.drop_last();
        let short = lemma_some_sort_order(fewer, values.drop_last());
        let p = lemma_split_place(fewer, short, keys.last());
        let order = short.insert(p, last as usize);
        assert forall|i: int, j: int| 0 <= i < j < order.len() implies comes_before(
            keys,
            #[trigger] order[i] as int,
            #[trigger] order[j] as int,
        ) by {
            let x = if i < p { i } else { i - 1 };
            let y = if j < p { j } else { j - 1 };
            if i != p && j != p {
                assert(comes_before(fewer, short[x] as int, short[y] as int));
            } else if i == p {
                assert(fewer[short[y] as int] > keys.last());
            } else {
                assert(fewer[short[x] as int] <= keys.last());
            }
        }
        assert forall|x: int| 0 <= x < keys.len() implies #[trigger] order.contains(x as usize) by {
            if x == last {
                assert(order[p] == x as usize);
            } else {
                assert(short.contains(x as usize));
                let q = choose|q: int| 0 <= q < short.len() && short[q] == x as usize;
                if q < p {
                    assert(order[q] == x as usize);
                } else {
                    assert(order[q + 1] == x as usize);
                }
            }
        }
        let listed = short.map_values(|i: usize| values.drop_last()[i as int]);
        assert(order.map_values(|i: usize| values[i as int]) =~= listed.insert(p, values.last()));
        vstd::seq_lib::to_multiset_insert(listed, p, values.last());
        vstd::seq_lib::to_multiset_build(values.drop_last(), values.last());
        assert(values.drop_last().push(values.last()) =~= values);
        order
    }
}

fn goes_first(keys: &Vec<u64>, x: usize, y: usize) -> (r: bool)
    requires
        x < keys@.len(),
        y < keys@.len(),
    ensures
        r == comes_before(keys@, x as int, y as int),
{
    keys[x] < keys[y] || (keys[x] == keys[y] && x < y)
}

fn merge(
    keys: &Vec<u64>,
    left: &Vec<usize>,
    right: &Vec<usize>,
    Ghost(lo): Ghost<int>,
    Ghost(mid): Ghost<int>,
    Ghost(hi): Ghost<int>,
) -> (out: Vec<usize>)
    requires
        0 <= lo <= mid <= hi <= keys@.len(),
        orders_range(keys@, left@, lo, mid),
        orders_range(keys@, right@, mid, hi),
    ensures
        orders_range(keys@, out@, lo, hi),
{
    let mut out: Vec<usize> = Vec::new();
    let mut i: usize = 0;
    let mut j: usize = 0;
    while i < left.len() || j < right.len()
        invariant
            0 <= lo <= mid <= hi <= keys@.len(),
            orders_range(keys@, left@, lo, mid),
            orders_range(keys@, right@, mid, hi),
            i <= left@.len(),
            j <= right@.len(),
            out@.len() == i + j,
            forall|k: int| 0 <= k < out@.len() ==> lo <= #[trigger] out@[k] < hi,
            forall|k: int, l: int|
                0 <= k < l < out@.len() ==> comes_before(
                    keys@,
                    #[trigger] out@[k] as int,
                    #[trigger] out@[l] as int,
                ),
            forall|k: int, l: int|
                0 <= k < out@.len() && i <= l < left@.len() ==> comes_before(
                    keys@,
                    #[trigger] out@[k] as int,
                    #[trigger] left@[l] as int,
                ),
            forall|k: int, l: int|
                0 <= k < out@.len() && j <= l < right@.len() ==> comes_before(
                    keys@,
                    #[trigger] out@[k] as int,
                    #[trigger] right@[l] as int,
                ),
            forall|k: int| 0 <= k < i ==> out@.contains(#[trigger] left@[k]),
            forall|k: int| 0 <= k < j ==> out@.contains(#[trigger] right@[k]),
        decreases left.len() - i + right.len() - j,
    {
        let take_left = if i >= left.len() {
            false
        } else if j >= right.len() {
            true
        } else {
            goes_first(keys, left[i], right[j])
        };
        let ghost before = out@;
        if take_left {
            let x: usize = left[i];
            out.push(x);
            assert forall|k: int| 0 <= k < i + 1 implies out@.contains(#[trigger] left@[k]) by {
                if k < i {
                    let p = choose|p: int| 0 <= p < before.len() && before[p] == left@[k];
                    assert(out@[p] == left@[k]);
                } else {
                    assert(out@[before.len() as int] == left@[k]);
                }
            }
            assert forall|k: int| 0 <= k < j implies out@.contains(#[trigger] right@[k]) by {
                let p = choose|p: int| 0 <= p < before.len() && before[p] == right@[k];
                assert(out@[p] == right@[k]);
            }
            i = i + 1;
        } else {
            let x: usize = right[j];
            out.push(x);
            assert forall|k: int| 0 <= k < j + 1 implies out@.contains(#[trigger] right@[k]) by {
                if k < j {
                    let p = choose|p: int| 0 <= p < before.len() && before[p] == right@[k];
                    assert(out@[p] == right@[k]);
                } else {
                    assert(out@[before.len() as int] == right@[k]);
                }
            }
            assert forall|k: int| 0 <= k < i implies out@.contains(#[trigger] left@[k]) by {
                let p = choose|p: int| 0 <= p < before.len() && before[p] == left@[k];
                assert(out@[p] == left@[k]);
            }
            j = j + 1;
        }
    }
    assert forall|x: int| lo <= x < hi implies #[trigger] out@.contains(x as usize) by {
        if x < mid {
            assert(left@.contains(x as usize));
            let p = choose|p: int| 0 <= p < left@.len() && left@[p] == x as usize;
            assert(out@.contains(left@[p]));
        } else {
            assert(right@.contains(x as usize));
            let p = choose|p: int| 0 <= p < right@.len() && right@[p] == x as usize;
            assert(out@.contains(right@[p]));
        }
    }
    out
}

fn sort_range(keys: &Vec<u64>, lo: usize, hi: usize) -> (r: Vec<usize>)
    requires
        lo <= hi <= keys@.len(),
    ensures
        orders_range(keys@, r@, lo as int, hi as int),
    decreases hi - lo,
{
    if hi - lo == 0 {
        return Vec::new();
    }
    if hi - lo == 1 {
        let mut one: Vec<usize> = Vec::new();
        one.push(lo);
        assert(one@[0] == lo);
        assert forall|x: int| lo <= x < hi implies #[trigger] one@.contains(x as usize) by {
            assert(one@[0] == x as usize);
        }
        return one;
    }
    let mid: usize = lo + (hi - lo) / 2;
    let left = sort_range(keys, lo, mid);
    let right = sort_range(keys, mid, hi);
    merge(keys, &left, &right, Ghost(lo as int), Ghost(mid as int), Ghost(hi as int))
}

/// The positions of `keys` in the order of a stable sort.
pub fn sort_order(keys: &Vec<u64>) -> (r: Vec<usize>)
    ensures
        is_sort_order(keys@, r@),
        r@ == sort_order_spec(keys@),
{
    let r = sort_range(keys, 0, keys.len());
    proof {
        assert(is_sort_order(keys@, r@));
        lemma_sort_order_unique(keys@, r@, sort_order_spec(keys@));
    }
    r
}

} // verus!
