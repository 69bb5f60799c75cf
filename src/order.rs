use vstd::prelude::*;

verus! {

/// The value of the sign bit in a 64-bit IEEE-754 pattern.
pub const SIGN_BIT: u64 = 0x8000_0000_0000_0000;

/// The sort key of a 64-bit IEEE-754 bit pattern: patterns with the sign bit set
/// (negative numbers) are reversed below all patterns without it, so that the
/// unsigned order of keys is the numeric order of the (non-NaN) numbers.
pub open spec fn key_of_bits(b: u64) -> u64 {
    if b >= SIGN_BIT {
        (u64::MAX - b) as u64
    } else {
        (b + SIGN_BIT) as u64
    }
}

/// Computes `key_of_bits`.
pub fn order_key(bits: u64) -> (r: u64)
    ensures
        r == key_of_bits(bits),
{
    if bits >= SIGN_BIT {
        u64::MAX - bits
    } else {
        bits + SIGN_BIT
    }
}

/// Keys order numbers by sign and magnitude: every negative pattern sorts below
/// every non-negative one, non-negative patterns keep their order, negative
/// patterns reverse it, and distinct patterns get distinct keys.
pub proof fn lemma_key_sign_magnitude(a: u64, b: u64)
    ensures
        a >= SIGN_BIT && b < SIGN_BIT ==> key_of_bits(a) < key_of_bits(b),
        a < SIGN_BIT && b < SIGN_BIT ==> (key_of_bits(a) < key_of_bits(b) <==> a < b),
        a >= SIGN_BIT && b >= SIGN_BIT ==> (key_of_bits(a) < key_of_bits(b) <==> b < a),
        a != b ==> key_of_bits(a) != key_of_bits(b),
{
}

/// `(keys[i], i)` comes strictly before `(keys[j], j)` in lexicographic order.
pub open spec fn lex_before(keys: Seq<u64>, i: int, j: int) -> bool {
    keys[i] < keys[j] || (keys[i] == keys[j] && i < j)
}

/// `idx` lists every index of `keys` once, by ascending key, ties in index order.
pub open spec fn is_stable_order(keys: Seq<u64>, idx: Seq<usize>) -> bool {
    &&& idx.len() == keys.len()
    &&& forall|p: int| 0 <= p < idx.len() ==> idx[p] < keys.len()
    &&& forall|p: int, q: int|
        0 <= p < q < idx.len() ==> lex_before(keys, idx[p] as int, idx[q] as int)
}

/// `n` distinct indices below `n` list every index below `n`.
pub proof fn lemma_distinct_indices_onto(idx: Seq<usize>, n: nat)
    requires
        idx.len() == n,
        n <= usize::MAX,
        forall|p: int| 0 <= p < idx.len() ==> idx[p] < n,
        forall|p: int, q: int| 0 <= p < q < idx.len() ==> idx[p] != idx[q],
    ensures
        forall|x: usize| x < n ==> idx.contains(x),
{
    broadcast use vstd::seq_lib::group_seq_properties, vstd::set_lib::group_set_properties;
    let m = n as usize;
    assert(idx.no_duplicates()) by {
        assert forall|p: int, q: int| 0 <= p < idx.len() && 0 <= q < idx.len() && p != q
            implies idx[p] != idx[q] by {
            if q < p {
                assert(idx[q] != idx[p]);
            }
        }
    }
    idx.unique_seq_to_set();
    let full = Set::<usize>::range(0usize, m);
    vstd::set_lib::range_set_properties::<usize>(0usize, m);
    assert(idx.to_set().subset_of(full));
    vstd::set_lib::lemma_subset_equality(idx.to_set(), full);
    assert forall|x: usize| x < n implies idx.contains(x) by {
        assert(full.contains(x));
        assert(idx.to_set().contains(x));
    }
}

/// A stable order lists every index of `keys`.
pub proof fn lemma_stable_order_onto(keys: Seq<u64>, idx: Seq<usize>)
    requires
        is_stable_order(keys, idx),
        keys.len() <= usize::MAX,
    ensures
        forall|x: usize| x < keys.len() ==> idx.contains(x),
{
    assert forall|p: int, q: int| 0 <= p < q < idx.len() implies idx[p] != idx[q] by {
        assert(lex_before(keys, idx[p] as int, idx[q] as int));
    }
    lemma_distinct_indices_onto(idx, keys.len());
}

proof fn lemma_stable_orders_agree_below(keys: Seq<u64>, o1: Seq<usize>, o2: Seq<usize>, p: int)
    requires
        is_stable_order(keys, o1),
        is_stable_order(keys, o2),
        keys.len() <= usize::MAX,
        0 <= p <= keys.len(),
    ensures
        forall|q: int| 0 <= q < p ==> o1[q] == o2[q],
    decreases p,
{
    if p > 0 {
        lemma_stable_orders_agree_below(keys, o1, o2, p - 1);
        lemma_stable_order_onto(keys, o1);
        lemma_stable_order_onto(keys, o2);
        let i = p - 1;
        let x = o1[i];
        let y = o2[i];
        if x != y {
            assert(o1.contains(y));
            let q1 = choose|q: int| 0 <= q < o1.len() && o1[q] == y;
            assert(o2.contains(x));
            let q2 = choose|q: int| 0 <= q < o2.len() && o2[q] == x;
            if q1 < i {
                assert(lex_before(keys, o2[q1] as int, o2[i] as int));
            }
            if q2 < i {
                assert(lex_before(keys, o1[q2] as int, o1[i] as int));
            }
            assert(lex_before(keys, x as int, y as int));
            assert(lex_before(keys, y as int, x as int));
        }
    }
}

/// A sequence of keys has exactly one stable order.
pub proof fn lemma_stable_order_unique(keys: Seq<u64>, o1: Seq<usize>, o2: Seq<usize>)
    requires
        is_stable_order(keys, o1),
        is_stable_order(keys, o2),
        keys.len() <= usize::MAX,
    ensures
        o1 == o2,
{
    lemma_stable_orders_agree_below(keys, o1, o2, keys.len() as int);
    assert(o1 =~= o2);
}

/// The indices of `keys` sorted by ascending key; equal keys keep their index order.
pub fn stable_argsort(keys: &Vec<u64>) -> (r: Vec<usize>)
    ensures
        is_stable_order(keys@, r@),
{
    let n = keys.len();
    let mut r: Vec<usize> = Vec::new();
    let mut j: usize = 0;
    while j < n
        invariant
            n == keys@.len(),
            j <= n,
            r@.len() == j,
            forall|p: int| 0 <= p < r@.len() ==> r@[p] < j,
            forall|p: int, q: int|
                0 <= p < q < r@.len() ==> lex_before(keys@, r@[p] as int, r@[q] as int),
        decreases n - j,
    {
        let kj = keys[j];
        let mut pos: usize = 0;
        while pos < r.len() && keys[r[pos]] <= kj
            invariant
                n == keys@.len(),
                j < n,
                kj == keys@[j as int],
                r@.len() == j,
                pos <= r@.len(),
                forall|p: int| 0 <= p < r@.len() ==> r@[p] < j,
                forall|p: int| 0 <= p < pos ==> keys@[r@[p] as int] <= kj,
            decreases r@.len() - pos,
        {
            pos = pos + 1;
        }
        proof {
            if pos < r@.len() {
                assert(keys@[r@[pos as int] as int] > kj);
                assert forall|q: int| pos <= q < r@.len() implies keys@[r@[q] as int] > kj by {
                    if q > pos {
                        assert(lex_before(keys@, r@[pos as int] as int, r@[q] as int));
                    }
                }
            }
        }
        let ghost old_r = r@;
        r.insert(pos, j);
        proof {
            assert(r@ == old_r.insert(pos as int, j));
            assert forall|p: int, q: int|
                0 <= p < q < r@.len() implies lex_before(keys@, r@[p] as int, r@[q] as int) by {
                if q < pos {
                    assert(r@[p] == old_r[p] && r@[q] == old_r[q]);
                } else if q == pos {
                    assert(r@[p] == old_r[p]);
                } else if p == pos {
                    assert(r@[q] == old_r[q - 1]);
                } else if p < pos {
                    assert(r@[p] == old_r[p] && r@[q] == old_r[q - 1]);
                } else {
                    assert(r@[p] == old_r[p - 1] && r@[q] == old_r[q - 1]);
                }
            }
        }
        j = j + 1;
    }
    r
}

/// The first index holding the least key.
pub fn index_of_min(keys: &Vec<u64>) -> (r: usize)
    requires
        keys@.len() > 0,
    ensures
        r < keys@.len(),
        forall|i: int| 0 <= i < keys@.len() ==> keys@[r as int] <= keys@[i],
        forall|i: int| 0 <= i < r ==> keys@[r as int] < keys@[i],
{
    let mut best: usize = 0;
    let mut i: usize = 1;
    while i < keys.len()
        invariant
            1 <= i <= keys@.len(),
            best < i,
            forall|k: int| 0 <= k < i ==> keys@[best as int] <= keys@[k],
            forall|k: int| 0 <= k < best ==> keys@[best as int] < keys@[k],
        decreases keys@.len() - i,
    {
        if keys[i] < keys[best] {
            best = i;
        }
        i = i + 1;
    }
    best
}

} // verus!
