//! Stable ordering of items by a composite key: a rank, then a text compared by code
//! points (the order of Rust's `str` comparison), then a number.

use vstd::prelude::*;

verus! {

/// Three-way comparison of `a[i..]` and `b[i..]` by code points, shorter prefix first:
/// -1, 0 or 1.
pub open spec fn text_order_from(a: Seq<char>, b: Seq<char>, i: int) -> int
    decreases a.len() - i, b.len() - i,
    when 0 <= i
{
    if i >= a.len() && i >= b.len() {
        0
    } else if i >= a.len() {
        -1
    } else if i >= b.len() {
        1
    } else if (a[i] as int) < (b[i] as int) {
        -1
    } else if (a[i] as int) > (b[i] as int) {
        1
    } else {
        text_order_from(a, b, i + 1)
    }
}

/// Three-way lexicographic comparison of two texts by code points.
pub open spec fn text_order(a: Seq<char>, b: Seq<char>) -> int {
    text_order_from(a, b, 0)
}

/// Key of an item to order: smaller rank first, then text, then minor number.
#[derive(Debug)]
pub struct SortKey {
    pub rank: u32,
    pub text: Vec<char>,
    pub minor: u64,
}

/// Three-way comparison of keys.
pub open spec fn key_order(a: SortKey, b: SortKey) -> int {
    if a.rank < b.rank {
        -1
    } else if a.rank > b.rank {
        1
    } else if text_order(a.text@, b.text@) != 0 {
        text_order(a.text@, b.text@)
    } else if a.minor < b.minor {
        -1
    } else if a.minor > b.minor {
        1
    } else {
        0
    }
}

pub open spec fn key_le(a: SortKey, b: SortKey) -> bool {
    key_order(a, b) <= 0
}

/// `output` is `input` reordered by `origin` (output position k holds input position
/// `origin[k]`), ordered by the keys, with items of equal key in their input order.
pub open spec fn is_stable_sort<T>(
    input: Seq<T>,
    keys: Seq<SortKey>,
    output: Seq<T>,
    origin: Seq<int>,
) -> bool {
    let n = input.len();
    &&& keys.len() == n
    &&& output.len() == n
    &&& origin.len() == n
    &&& forall|k: int| 0 <= k < n ==> 0 <= #[trigger] origin[k] < n && output[k] == input[origin[k]]
    &&& forall|k1: int, k2: int|
        0 <= k1 < k2 < n ==> #[trigger] origin[k1] != #[trigger] origin[k2]
    &&& forall|k1: int, k2: int|
        0 <= k1 < k2 < n ==> key_le(keys[#[trigger] origin[k1]], keys[#[trigger] origin[k2]])
    &&& forall|k1: int, k2: int|
        0 <= k1 < k2 < n && key_order(keys[origin[k1]], keys[origin[k2]]) == 0 ==> #[trigger] origin[k1]
            < #[trigger] origin[k2]
}

/// `output` is `input` reordered by `origin` (output position k holds input position
/// `origin[k]`), ordered by the three-way comparison `order`, with items that compare
/// equal in their input order.
pub open spec fn is_stable_sort_by<V>(
    input: Seq<V>,
    order: spec_fn(V, V) -> int,
    output: Seq<V>,
    origin: Seq<int>,
) -> bool {
    let n = input.len();
    &&& output.len() == n
    &&& origin.len() == n
    &&& forall|k: int| 0 <= k < n ==> 0 <= #[trigger] origin[k] < n && output[k] == input[origin[k]]
    &&& forall|k1: int, k2: int|
        0 <= k1 < k2 < n ==> #[trigger] origin[k1] != #[trigger] origin[k2]
    &&& forall|k1: int, k2: int|
        0 <= k1 < k2 < n ==> order(#[trigger] output[k1], #[trigger] output[k2]) <= 0
    &&& forall|k1: int, k2: int|
        0 <= k1 < k2 < n && order(output[k1], output[k2]) == 0 ==> #[trigger] origin[k1]
            < #[trigger] origin[k2]
}

/// A keyed stable sort is a stable sort of the items' views under any order that agrees
/// with the keys.
pub proof fn lemma_sort_views<T, V>(
    input: Seq<T>,
    keys: Seq<SortKey>,
    output: Seq<T>,
    origin: Seq<int>,
    view: spec_fn(T) -> V,
    order: spec_fn(V, V) -> int,
)
    requires
        is_stable_sort(input, keys, output, origin),
        forall|i: int, j: int|
            0 <= i < input.len() && 0 <= j < input.len() ==> key_order(keys[i], keys[j]) == order(
                view(input[i]),
                view(input[j]),
            ),
    ensures
        is_stable_sort_by(input.map_values(view), order, output.map_values(view), origin),
{
    let n = input.len();
    assert forall|k1: int, k2: int| 0 <= k1 < k2 < n implies order(
        #[trigger] output.map_values(view)[k1],
        #[trigger] output.map_values(view)[k2],
    ) <= 0 by {
        assert(key_le(keys[origin[k1]], keys[origin[k2]]));
    }
    assert forall|k1: int, k2: int|
        0 <= k1 < k2 < n && order(output.map_values(view)[k1], output.map_values(view)[k2]) == 0 implies #[trigger] origin[k1]
            < #[trigger] origin[k2] by {
        assert(key_order(keys[origin[k1]], keys[origin[k2]]) == 0);
    }
}

proof fn lemma_text_order_antisym(a: Seq<char>, b: Seq<char>, i: int)
    requires
        0 <= i,
    ensures
        text_order_from(a, b, i) == -text_order_from(b, a, i),
        text_order_from(a, b, i) == 0 && i <= a.len() && i <= b.len() ==> a.subrange(i, a.len() as int)
            == b.subrange(i, b.len() as int),
        -1 <= text_order_from(a, b, i) <= 1,
    decreases a.len() - i, b.len() - i,
{
    if i >= a.len() && i >= b.len() {
        if i <= a.len() && i <= b.len() {
            assert(a.subrange(i, a.len() as int) =~= Seq::<char>::empty());
            assert(b.subrange(i, b.len() as int) =~= Seq::<char>::empty());
        }
    } else if i >= a.len() || i >= b.len() {
    } else if (a[i] as int) != (b[i] as int) {
    } else {
        lemma_text_order_antisym(a, b, i + 1);
        if text_order_from(a, b, i) == 0 {
            assert(a[i] == b[i]);
            assert(a.subrange(i, a.len() as int) =~= seq![a[i]] + a.subrange(i + 1, a.len() as int));
            assert(b.subrange(i, b.len() as int) =~= seq![b[i]] + b.subrange(i + 1, b.len() as int));
        }
    }
}

proof fn lemma_text_order_trans(a: Seq<char>, b: Seq<char>, c: Seq<char>, i: int)
    requires
        0 <= i,
        text_order_from(a, b, i) <= 0,
        text_order_from(b, c, i) <= 0,
    ensures
        text_order_from(a, c, i) <= 0,
        text_order_from(a, b, i) < 0 || text_order_from(b, c, i) < 0 ==> text_order_from(a, c, i) < 0,
    decreases a.len() - i,
{
    lemma_text_order_antisym(a, b, i);
    lemma_text_order_antisym(b, c, i);
    lemma_text_order_antisym(a, c, i);
    if i >= a.len() {
    } else if i >= b.len() {
    } else if i >= c.len() {
    } else if (a[i] as int) == (b[i] as int) && (b[i] as int) == (c[i] as int) {
        lemma_text_order_trans(a, b, c, i + 1);
    }
}

/// `key_order` is antisymmetric.
pub proof fn lemma_key_order_antisym(a: SortKey, b: SortKey)
    ensures
        key_order(a, b) == -key_order(b, a),
        -1 <= key_order(a, b) <= 1,
{
    lemma_text_order_antisym(a.text@, b.text@, 0);
}

/// `key_le` is transitive, and strictly so when either step is strict.
pub proof fn lemma_key_order_trans(a: SortKey, b: SortKey, c: SortKey)
    requires
        key_order(a, b) <= 0,
        key_order(b, c) <= 0,
    ensures
        key_order(a, c) <= 0,
        key_order(a, b) < 0 || key_order(b, c) < 0 ==> key_order(a, c) < 0,
{
    lemma_text_order_antisym(a.text@, b.text@, 0);
    lemma_text_order_antisym(b.text@, c.text@, 0);
    lemma_text_order_antisym(a.text@, c.text@, 0);
    if a.rank == b.rank && b.rank == c.rank {
        if text_order(a.text@, b.text@) <= 0 && text_order(b.text@, c.text@) <= 0 {
            lemma_text_order_trans(a.text@, b.text@, c.text@, 0);
        }
        if text_order(a.text@, b.text@) == 0 {
            assert(a.text@ =~= a.text@.subrange(0, a.text@.len() as int));
            assert(b.text@ =~= b.text@.subrange(0, b.text@.len() as int));
        }
        if text_order(b.text@, c.text@) == 0 {
            assert(b.text@ =~= b.text@.subrange(0, b.text@.len() as int));
            assert(c.text@ =~= c.text@.subrange(0, c.text@.len() as int));
        }
    }
}

/// Three-way comparison of two texts by code points.
pub fn compare_text(a: &[char], b: &[char]) -> (r: i8)
    ensures
        r as int == text_order(a@, b@),
{
    let mut i: usize = 0;
    loop
        invariant
            text_order_from(a@, b@, 0) == text_order_from(a@, b@, i as int),
            i <= a.len() || i <= b.len(),
        decreases a.len() - i, b.len() - i,
    {
        if i >= a.len() && i >= b.len() {
            return 0;
        } else if i >= a.len() {
            return -1;
        } else if i >= b.len() {
            return 1;
        } else if a[i] < b[i] {
            return -1;
        } else if a[i] > b[i] {
            return 1;
        }
        i += 1;
    }
}

/// Three-way comparison of sort keys.
pub fn compare_keys(a: &SortKey, b: &SortKey) -> (r: i8)
    ensures
        r as int == key_order(*a, *b),
{
    if a.rank < b.rank {
        return -1;
    }
    if a.rank > b.rank {
        return 1;
    }
    let t = compare_text(a.text.as_slice(), b.text.as_slice());
    if t != 0 {
        return t;
    }
    if a.minor < b.minor {
        -1
    } else if a.minor > b.minor {
        1
    } else {
        0
    }
}

/// Orders `items` by `keys` (item i has key i), keeping items of equal key in input order.
pub fn stable_sort_by_keys<T>(items: Vec<T>, keys: Vec<SortKey>) -> (sorted: Vec<T>)
    requires
        items@.len() == keys@.len(),
    ensures
        exists|origin: Seq<int>| is_stable_sort(items@, keys@, sorted@, origin),
{
    let ghost input = items@;
    let n = items.len();
    let mut rest = items;
    let mut out: Vec<T> = Vec::new();
    let mut out_keys: Vec<usize> = Vec::new();
    let ghost mut origin: Seq<int> = Seq::empty();
    let mut i: usize = 0;
    while i < n
        invariant
            n == input.len() == keys@.len(),
            i <= n,
            rest@ == input.skip(i as int),
            out@.len() == i,
            out_keys@.len() == i,
            origin.len() == i,
            forall|k: int| 0 <= k < i ==> #[trigger] out_keys@[k] as int == origin[k],
            forall|k: int| 0 <= k < i ==> 0 <= #[trigger] origin[k] < i && out@[k] == input[origin[k]],
            forall|k1: int, k2: int|
                0 <= k1 < k2 < i ==> #[trigger] origin[k1] != #[trigger] origin[k2],
            forall|k1: int, k2: int|
                0 <= k1 < k2 < i ==> key_le(keys@[#[trigger] origin[k1]], keys@[#[trigger] origin[k2]]),
            forall|k1: int, k2: int|
                0 <= k1 < k2 < i && key_order(keys@[origin[k1]], keys@[origin[k2]]) == 0
                    ==> #[trigger] origin[k1] < #[trigger] origin[k2],
        decreases n - i,
    {
        let x = rest.remove(0);
        assert(x == input[i as int]);
        // Find the insertion point: after every element not greater than x.
        let mut p: usize = i;
        while p > 0 && compare_keys(&keys[out_keys[p - 1]], &keys[i]) > 0
            invariant
                0 <= p <= i,
                i < n,
                n == keys@.len(),
                out_keys@.len() == i,
                origin.len() == i,
                forall|k: int| 0 <= k < i ==> #[trigger] out_keys@[k] as int == origin[k],
                forall|k: int| 0 <= k < i ==> 0 <= #[trigger] origin[k] < i,
                forall|k: int| p <= k < i ==> key_order(keys@[#[trigger] origin[k]], keys@[i as int]) > 0,
            decreases p,
        {
            p -= 1;
        }
        proof {
            // Everything before p is not greater than x, by sortedness and transitivity.
            if p > 0 {
                assert(key_order(keys@[origin[p - 1]], keys@[i as int]) <= 0);
                assert forall|k: int| 0 <= k < p implies key_order(
                    keys@[#[trigger] origin[k]],
                    keys@[i as int],
                ) <= 0 by {
                    if k < p - 1 {
                        assert(key_le(keys@[origin[k]], keys@[origin[p - 1]]));
                        lemma_key_order_trans(keys@[origin[k]], keys@[origin[p - 1]], keys@[i as int]);
                    }
                }
            }
        }
        let ghost old_origin = origin;
        out.insert(p, x);
        out_keys.insert(p, i);
        proof {
            origin = old_origin.insert(p as int, i as int);
            assert forall|k1: int, k2: int| 0 <= k1 < k2 < i + 1 implies key_le(
                keys@[#[trigger] origin[k1]],
                keys@[#[trigger] origin[k2]],
            ) by {
                if k2 == p {
                    assert(origin[k1] == old_origin[k1]);
                } else if k1 == p {
                    assert(origin[k2] == old_origin[k2 - 1]);
                    lemma_key_order_antisym(keys@[old_origin[k2 - 1]], keys@[i as int]);
                } else {
                    let a = if k1 < p { k1 } else { k1 - 1 };
                    let b = if k2 < p { k2 } else { k2 - 1 };
                    assert(origin[k1] == old_origin[a]);
                    assert(origin[k2] == old_origin[b]);
                }
            }
            assert forall|k1: int, k2: int|
                0 <= k1 < k2 < i + 1 && key_order(keys@[origin[k1]], keys@[origin[k2]]) == 0 implies #[trigger] origin[k1]
                    < #[trigger] origin[k2] by {
                if k2 == p {
                    assert(origin[k1] == old_origin[k1]);
                } else if k1 == p {
                    assert(origin[k2] == old_origin[k2 - 1]);
                    lemma_key_order_antisym(keys@[old_origin[k2 - 1]], keys@[i as int]);
                } else {
                    let a = if k1 < p { k1 } else { k1 - 1 };
                    let b = if k2 < p { k2 } else { k2 - 1 };
                    assert(origin[k1] == old_origin[a]);
                    assert(origin[k2] == old_origin[b]);
                }
            }
            assert forall|k1: int, k2: int| 0 <= k1 < k2 < i + 1 implies #[trigger] origin[k1]
                != #[trigger] origin[k2] by {
                if k2 == p {
                    assert(origin[k1] == old_origin[k1]);
                } else if k1 == p {
                    assert(origin[k2] == old_origin[k2 - 1]);
                } else {
                    let a = if k1 < p { k1 } else { k1 - 1 };
                    let b = if k2 < p { k2 } else { k2 - 1 };
                    assert(origin[k1] == old_origin[a]);
                    assert(origin[k2] == old_origin[b]);
                }
            }
        }
        i += 1;
        assert(rest@ =~= input.skip(i as int));
    }
    assert(is_stable_sort(input, keys@, out@, origin));
    out
}

} // verus!
