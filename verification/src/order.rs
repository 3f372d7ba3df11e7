//! Orders: of texts by character, and stable sorting orders of positions
//! by text or number keys.

use vstd::prelude::*;
use crate::text::views;

verus! {

/// The order of `String`s: lexicographic by character (which is the
/// order of their UTF-8 bytes).
pub open spec fn text_le(a: Seq<char>, b: Seq<char>) -> bool
    decreases a.len(),
{
    if a.len() == 0 {
        true
    } else if b.len() == 0 {
        false
    } else if a[0] != b[0] {
        a[0] < b[0]
    } else {
        text_le(a.drop_first(), b.drop_first())
    }
}

pub proof fn lemma_text_le_total(a: Seq<char>, b: Seq<char>)
    ensures
        text_le(a, b) || text_le(b, a),
    decreases a.len(),
{
    if a.len() > 0 && b.len() > 0 && a[0] == b[0] {
        lemma_text_le_total(a.drop_first(), b.drop_first());
    }
}

pub proof fn lemma_text_le_trans(a: Seq<char>, b: Seq<char>, c: Seq<char>)
    requires
        text_le(a, b),
        text_le(b, c),
    ensures
        text_le(a, c),
    decreases a.len(),
{
    if a.len() > 0 && b.len() > 0 && c.len() > 0 && a[0] == b[0] && b[0] == c[0] {
        lemma_text_le_trans(a.drop_first(), b.drop_first(), c.drop_first());
    }
}

pub fn chars_le(a: &[char], b: &[char]) -> (r: bool)
    ensures
        r == text_le(a@, b@),
{
    let mut i: usize = 0;
    assert(a@.skip(0) =~= a@ && b@.skip(0) =~= b@);
    while i < a.len() && i < b.len() && a[i] == b[i]
        invariant
            i <= a.len(),
            i <= b.len(),
            text_le(a@, b@) == text_le(a@.skip(i as int), b@.skip(i as int)),
        decreases a.len() - i,
    {
        proof {
            assert(a@.skip(i as int).drop_first() =~= a@.skip(i + 1));
            assert(b@.skip(i as int).drop_first() =~= b@.skip(i + 1));
        }
        i += 1;
    }
    if i == a.len() {
        return true;
    }
    if i == b.len() {
        return false;
    }
    a[i] < b[i]
}

pub proof fn lemma_text_le_antisym(a: Seq<char>, b: Seq<char>)
    requires
        text_le(a, b),
        text_le(b, a),
    ensures
        a == b,
    decreases a.len(),
{
    if a.len() > 0 && b.len() > 0 && a[0] == b[0] {
        lemma_text_le_antisym(a.drop_first(), b.drop_first());
        assert(a =~= seq![a[0]] + a.drop_first());
        assert(b =~= seq![b[0]] + b.drop_first());
    } else if a.len() == 0 && b.len() == 0 {
        assert(a =~= b);
    }
}

/// Strictly before in the order of texts.
pub open spec fn text_lt(a: Seq<char>, b: Seq<char>) -> bool {
    text_le(a, b) && a != b
}

/// Whether position `i` sorts before position `j` by their text keys: a
/// smaller key, or an equal key at an earlier position.
pub open spec fn text_key_before(keys: Seq<Seq<char>>, i: int, j: int) -> bool {
    text_lt(keys[i], keys[j]) || (keys[i] == keys[j] && i < j)
}

/// The positions of the keys, listed as a stable sort lists them: each
/// once, in `text_key_before` order.
pub open spec fn is_stable_text_order(keys: Seq<Seq<char>>, p: Seq<usize>) -> bool {
    &&& p.len() == keys.len()
    &&& forall|i: int| 0 <= i < p.len() ==> #[trigger] p[i] < keys.len()
    &&& forall|i: int, j: int| 0 <= i < j < p.len() ==> text_key_before(keys, #[trigger] p[i] as int, #[trigger] p[j] as int)
}

/// The order in which a stable sort (`slice::sort_by` on the keys) lists
/// the positions of the keys.
pub fn stable_text_order(keys: &Vec<Vec<char>>) -> (p: Vec<usize>)
    ensures
        is_stable_text_order(views(keys@), p@),
{
    let ghost ks = views(keys@);
    let mut p: Vec<usize> = Vec::new();
    let mut i: usize = 0;
    while i < keys.len()
        invariant
            i <= keys.len(),
            ks == views(keys@),
            p@.len() == i,
            forall|a: int| 0 <= a < p@.len() ==> #[trigger] p@[a] < i,
            forall|a: int, b: int| 0 <= a < b < p@.len() ==> text_key_before(ks, #[trigger] p@[a] as int, #[trigger] p@[b] as int),
        decreases keys.len() - i,
    {
        let mut k: usize = 0;
        while k < p.len() && !chars_lt(keys[i].as_slice(), keys[p[k]].as_slice())
            invariant
                k <= p@.len(),
                i < keys.len(),
                ks == views(keys@),
                forall|a: int| 0 <= a < p@.len() ==> #[trigger] p@[a] < i,
                forall|a: int| 0 <= a < k ==> !text_lt(ks[i as int], #[trigger] ks[p@[a] as int]),
            decreases p@.len() - k,
        {
            k += 1;
        }
        let ghost before = p@;
        p.insert(k, i);
        proof {
            let after = p@;
            assert(after =~= before.insert(k as int, i));
            assert forall|a: int| 0 <= a < after.len() implies #[trigger] after[a] < i + 1 by {
                if a < k {
                    assert(after[a] == before[a]);
                } else if a > k {
                    assert(after[a] == before[a - 1]);
                }
            }
            assert forall|a: int, b: int| 0 <= a < b < after.len() implies text_key_before(ks, #[trigger] after[a] as int, #[trigger] after[b] as int) by {
                let x = ks[i as int];
                if b < k {
                    assert(after[a] == before[a] && after[b] == before[b]);
                } else if b == k {
                    assert(after[a] == before[a]);
                    let y = ks[before[a] as int];
                    assert(!text_lt(x, y));
                    lemma_text_le_total(x, y);
                } else if a < k {
                    assert(after[a] == before[a] && after[b] == before[b - 1]);
                } else if a == k {
                    assert(after[b] == before[b - 1]);
                    let y = ks[before[k as int] as int];
                    let z = ks[before[b - 1] as int];
                    assert(text_lt(x, y));
                    if b - 1 > k {
                        assert(text_key_before(ks, before[k as int] as int, before[b - 1] as int));
                        lemma_text_le_total(y, z);
                        lemma_text_le_trans(x, y, z);
                        if x == z {
                            lemma_text_le_antisym(x, y);
                        }
                    }
                } else {
                    assert(after[a] == before[a - 1] && after[b] == before[b - 1]);
                }
            }
        }
        i += 1;
    }
    p
}

/// Whether `a` sorts strictly before `b` (executable).
pub fn chars_lt(a: &[char], b: &[char]) -> (r: bool)
    ensures
        r == text_lt(a@, b@),
{
    let le = chars_le(a, b);
    if !le {
        return false;
    }
    let eq = crate::text::chars_eq(a, b);
    le && !eq
}

/// Whether position `i` sorts before position `j` by their number keys.
pub open spec fn number_key_before(keys: Seq<u128>, i: int, j: int) -> bool {
    keys[i] < keys[j] || (keys[i] == keys[j] && i < j)
}

/// The positions of the keys as a stable sort by number lists them.
pub open spec fn is_stable_number_order(keys: Seq<u128>, p: Seq<usize>) -> bool {
    &&& p.len() == keys.len()
    &&& forall|i: int| 0 <= i < p.len() ==> #[trigger] p[i] < keys.len()
    &&& forall|i: int, j: int| 0 <= i < j < p.len() ==> number_key_before(keys, #[trigger] p[i] as int, #[trigger] p[j] as int)
}

/// The order in which a stable sort (`slice::sort_by_key`) lists the
/// positions of number keys.
pub fn stable_number_order(keys: &Vec<u128>) -> (p: Vec<usize>)
    ensures
        is_stable_number_order(keys@, p@),
{
    let mut p: Vec<usize> = Vec::new();
    let mut i: usize = 0;
    while i < keys.len()
        invariant
            i <= keys.len(),
            p@.len() == i,
            forall|a: int| 0 <= a < p@.len() ==> #[trigger] p@[a] < i,
            forall|a: int, b: int| 0 <= a < b < p@.len() ==> number_key_before(keys@, #[trigger] p@[a] as int, #[trigger] p@[b] as int),
        decreases keys.len() - i,
    {
        let mut k: usize = 0;
        while k < p.len() && !(keys[i] < keys[p[k]])
            invariant
                k <= p@.len(),
                i < keys.len(),
                forall|a: int| 0 <= a < p@.len() ==> #[trigger] p@[a] < i,
                forall|a: int| 0 <= a < k ==> !(keys@[i as int] < #[trigger] keys@[p@[a] as int]),
            decreases p@.len() - k,
        {
            k += 1;
        }
        let ghost before = p@;
        p.insert(k, i);
        proof {
            let after = p@;
            assert(after =~= before.insert(k as int, i));
            assert forall|a: int| 0 <= a < after.len() implies #[trigger] after[a] < i + 1 by {
                if a < k {
                    assert(after[a] == before[a]);
                } else if a > k {
                    assert(after[a] == before[a - 1]);
                }
            }
            assert forall|a: int, b: int| 0 <= a < b < after.len() implies number_key_before(keys@, #[trigger] after[a] as int, #[trigger] after[b] as int) by {
                if b < k {
                    assert(after[a] == before[a] && after[b] == before[b]);
                } else if b == k {
                    assert(after[a] == before[a]);
                } else if a < k {
                    assert(after[a] == before[a] && after[b] == before[b - 1]);
                } else if a == k {
                    assert(after[b] == before[b - 1]);
                    if b - 1 > k {
                        assert(number_key_before(keys@, before[k as int] as int, before[b - 1] as int));
                    }
                } else {
                    assert(after[a] == before[a - 1] && after[b] == before[b - 1]);
                }
            }
        }
        i += 1;
    }
    p
}

/// Two sequences that increase strictly in an asymmetric relation and hold
/// the same elements are equal.
proof fn lemma_increasing_unique(p: Seq<int>, q: Seq<int>, before: spec_fn(int, int) -> bool)
    requires
        forall|x: int, y: int| #[trigger] before(x, y) ==> !before(y, x),
        forall|i: int, j: int| 0 <= i < j < p.len() ==> before(#[trigger] p[i], #[trigger] p[j]),
        forall|i: int, j: int| 0 <= i < j < q.len() ==> before(#[trigger] q[i], #[trigger] q[j]),
        forall|x: int| p.contains(x) <==> q.contains(x),
    ensures
        p == q,
    decreases p.len(),
{
    if p.len() == 0 {
        if q.len() > 0 {
            assert(q.contains(q[0]));
        }
        assert(p =~= q);
    } else {
        assert(p.contains(p[0]));
        assert(q.len() > 0);
        assert(q.contains(q[0]));
        let j = choose|j: int| 0 <= j < q.len() && q[j] == p[0];
        let k = choose|k: int| 0 <= k < p.len() && p[k] == q[0];
        if j > 0 && k > 0 {
            assert(before(q[0], q[j]));
            assert(before(p[0], p[k]));
        } else if j > 0 {
            assert(before(q[0], q[j]));
        } else if k > 0 {
            assert(before(p[0], p[k]));
        }
        assert(p[0] == q[0]);
        let p1 = p.drop_first();
        let q1 = q.drop_first();
        assert forall|x: int| p1.contains(x) <==> q1.contains(x) by {
            if p1.contains(x) {
                let a = choose|a: int| 0 <= a < p1.len() && p1[a] == x;
                assert(before(p[0], p[a + 1]));
                assert(q.contains(x));
                let b = choose|b: int| 0 <= b < q.len() && q[b] == x;
                if b == 0 {
                    assert(before(x, x));
                }
                assert(q1[b - 1] == x);
            }
            if q1.contains(x) {
                let a = choose|a: int| 0 <= a < q1.len() && q1[a] == x;
                assert(before(q[0], q[a + 1]));
                assert(p.contains(x));
                let b = choose|b: int| 0 <= b < p.len() && p[b] == x;
                if b == 0 {
                    assert(before(x, x));
                }
                assert(p1[b - 1] == x);
            }
        }
        assert forall|i: int, jj: int| 0 <= i < jj < p1.len() implies before(#[trigger] p1[i], #[trigger] p1[jj]) by {
            assert(before(p[i + 1], p[jj + 1]));
        }
        assert forall|i: int, jj: int| 0 <= i < jj < q1.len() implies before(#[trigger] q1[i], #[trigger] q1[jj]) by {
            assert(before(q[i + 1], q[jj + 1]));
        }
        lemma_increasing_unique(p1, q1, before);
        assert(p =~= seq![p[0]] + p1);
        assert(q =~= seq![q[0]] + q1);
    }
}

/// A sequence of `n` distinct positions below `n` holds every position
/// below `n`.
proof fn lemma_positions_complete(p: Seq<int>, n: int)
    requires
        p.len() == n,
        forall|i: int| 0 <= i < p.len() ==> 0 <= #[trigger] p[i] < n,
        forall|i: int, j: int| 0 <= i < j < p.len() ==> #[trigger] p[i] != #[trigger] p[j],
    ensures
        forall|x: int| 0 <= x < n ==> p.contains(x),
{
    assert(p.no_duplicates());
    p.unique_seq_to_set();
    vstd::set_lib::lemma_int_range(0, n);
    assert(p.to_set().subset_of(vstd::set_lib::set_int_range(0, n)));
    vstd::seq_lib::seq_to_set_is_finite(p);
    vstd::set_lib::lemma_subset_equality(p.to_set(), vstd::set_lib::set_int_range(0, n));
    assert forall|x: int| 0 <= x < n implies p.contains(x) by {
        assert(vstd::set_lib::set_int_range(0, n).contains(x));
        assert(p.to_set().contains(x));
    }
}

/// A stable sort of texts has one outcome: two stable orders of the same
/// keys are the same.
pub proof fn lemma_stable_text_order_unique(keys: Seq<Seq<char>>, p: Seq<usize>, q: Seq<usize>)
    requires
        is_stable_text_order(keys, p),
        is_stable_text_order(keys, q),
    ensures
        p == q,
{
    let before = |a: int, b: int| text_key_before(keys, a, b);
    assert forall|x: int, y: int| #[trigger] before(x, y) implies !before(y, x) by {
        if text_lt(keys[x], keys[y]) && text_lt(keys[y], keys[x]) {
            lemma_text_le_antisym(keys[x], keys[y]);
        }
    }
    let pi = p.map_values(|x: usize| x as int);
    let qi = q.map_values(|x: usize| x as int);
    let n = keys.len() as int;
    assert forall|i: int, j: int| 0 <= i < j < pi.len() implies #[trigger] pi[i] != #[trigger] pi[j] by {
        assert(text_key_before(keys, p[i] as int, p[j] as int));
        if pi[i] == pi[j] {
            assert(!text_lt(keys[p[i] as int], keys[p[i] as int]));
        }
    }
    assert forall|i: int, j: int| 0 <= i < j < qi.len() implies #[trigger] qi[i] != #[trigger] qi[j] by {
        assert(text_key_before(keys, q[i] as int, q[j] as int));
        if qi[i] == qi[j] {
            assert(!text_lt(keys[q[i] as int], keys[q[i] as int]));
        }
    }
    lemma_positions_complete(pi, n);
    lemma_positions_complete(qi, n);
    assert forall|x: int| pi.contains(x) <==> qi.contains(x) by {
        if pi.contains(x) {
            let a = choose|a: int| 0 <= a < pi.len() && pi[a] == x;
            assert(0 <= x < n);
        }
        if qi.contains(x) {
            let a = choose|a: int| 0 <= a < qi.len() && qi[a] == x;
            assert(0 <= x < n);
        }
    }
    assert forall|i: int, j: int| 0 <= i < j < pi.len() implies before(#[trigger] pi[i], #[trigger] pi[j]) by {
        assert(text_key_before(keys, p[i] as int, p[j] as int));
    }
    assert forall|i: int, j: int| 0 <= i < j < qi.len() implies before(#[trigger] qi[i], #[trigger] qi[j]) by {
        assert(text_key_before(keys, q[i] as int, q[j] as int));
    }
    lemma_increasing_unique(pi, qi, before);
    assert forall|i: int| 0 <= i < p.len() implies p[i] == q[i] by {
        assert(pi[i] == qi[i]);
    }
    assert(p =~= q);
}

/// A stable sort by numbers has one outcome: two stable orders of the
/// same keys are the same.
pub proof fn lemma_stable_number_order_unique(keys: Seq<u128>, p: Seq<usize>, q: Seq<usize>)
    requires
        is_stable_number_order(keys, p),
        is_stable_number_order(keys, q),
    ensures
        p == q,
{
    let before = |a: int, b: int| number_key_before(keys, a, b);
    let pi = p.map_values(|x: usize| x as int);
    let qi = q.map_values(|x: usize| x as int);
    let n = keys.len() as int;
    assert forall|i: int, j: int| 0 <= i < j < pi.len() implies #[trigger] pi[i] != #[trigger] pi[j] by {
        assert(number_key_before(keys, p[i] as int, p[j] as int));
    }
    assert forall|i: int, j: int| 0 <= i < j < qi.len() implies #[trigger] qi[i] != #[trigger] qi[j] by {
        assert(number_key_before(keys, q[i] as int, q[j] as int));
    }
    lemma_positions_complete(pi, n);
    lemma_positions_complete(qi, n);
    assert forall|x: int| pi.contains(x) <==> qi.contains(x) by {
        if pi.contains(x) {
            let a = choose|a: int| 0 <= a < pi.len() && pi[a] == x;
            assert(0 <= x < n);
        }
        if qi.contains(x) {
            let a = choose|a: int| 0 <= a < qi.len() && qi[a] == x;
            assert(0 <= x < n);
        }
    }
    assert forall|i: int, j: int| 0 <= i < j < pi.len() implies before(#[trigger] pi[i], #[trigger] pi[j]) by {
        assert(number_key_before(keys, p[i] as int, p[j] as int));
    }
    assert forall|i: int, j: int| 0 <= i < j < qi.len() implies before(#[trigger] qi[i], #[trigger] qi[j]) by {
        assert(number_key_before(keys, q[i] as int, q[j] as int));
    }
    lemma_increasing_unique(pi, qi, before);
    assert forall|i: int| 0 <= i < p.len() implies p[i] == q[i] by {
        assert(pi[i] == qi[i]);
    }
    assert(p =~= q);
}

} // verus!
