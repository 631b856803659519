//! The order of strings by code point, and a stable sort over a chosen order.

use crate::text::to_chars;
use vstd::prelude::*;

verus! {

/// `a` and `b` agree before position `k`, and `a` is the smaller one there: it ends, or holds
/// the smaller character.
pub open spec fn diverge_at(a: Seq<char>, b: Seq<char>, k: int) -> bool {
    &&& 0 <= k <= a.len()
    &&& k < b.len()
    &&& forall|j: int| 0 <= j < k ==> a[j] == b[j]
    &&& k < a.len() ==> a[k] < b[k]
}

/// `a` stands before `b` in code point order, which is also the order of their UTF-8 bytes.
pub open spec fn precedes(a: Seq<char>, b: Seq<char>) -> bool {
    exists|k: int| diverge_at(a, b, k)
}

/// How two strings stand to each other.
#[derive(Debug, Clone, Copy, PartialEq, Eq, Structural)]
pub enum Rank {
    Before,
    Same,
    After,
}

/// Compares two strings by code point.
pub fn compare(a: &str, b: &str) -> (rank: Rank)
    ensures
        match rank {
            Rank::Before => precedes(a@, b@),
            Rank::Same => a@ == b@,
            Rank::After => precedes(b@, a@),
        },
{
    let left = to_chars(a);
    let right = to_chars(b);
    let mut i: usize = 0;
    while i < left.len() && i < right.len()
        invariant
            left@ == a@,
            right@ == b@,
            i <= left@.len(),
            i <= right@.len(),
            forall|j: int| 0 <= j < i ==> a@[j] == b@[j],
        decreases left@.len() - i,
    {
        if left[i] < right[i] {
            proof {
                assert(diverge_at(a@, b@, i as int));
            }
            return Rank::Before;
        }
        if right[i] < left[i] {
            proof {
                assert(diverge_at(b@, a@, i as int));
            }
            return Rank::After;
        }
        i = i + 1;
    }
    if i < right.len() {
        proof {
            assert(diverge_at(a@, b@, i as int));
        }
        Rank::Before
    } else if i < left.len() {
        proof {
            assert(diverge_at(b@, a@, i as int));
        }
        Rank::After
    } else {
        proof {
            assert(a@ =~= b@);
        }
        Rank::Same
    }
}

/// Of two strings no more than one stands before the other, and none before itself.
pub proof fn lemma_precedes_asymmetric(a: Seq<char>, b: Seq<char>)
    requires
        precedes(a, b),
    ensures
        !precedes(b, a),
        a != b,
{
    let k = choose|k: int| diverge_at(a, b, k);
    assert(a != b) by {
        if a == b {
            assert(a[k] < b[k]);
        }
    }
    if precedes(b, a) {
        let m = choose|m: int| diverge_at(b, a, m);
        if k < m {
            assert(b[k] == a[k]);
        } else if m < k {
            assert(a[m] == b[m]);
        }
    }
}

/// The order of strings is transitive.
pub proof fn lemma_precedes_transitive(a: Seq<char>, b: Seq<char>, c: Seq<char>)
    requires
        precedes(a, b),
        precedes(b, c),
    ensures
        precedes(a, c),
{
    let k = choose|k: int| diverge_at(a, b, k);
    let m = choose|m: int| diverge_at(b, c, m);
    if k <= m {
        if k == m {
        } else {
            assert(b[k] == c[k]);
        }
        assert(diverge_at(a, c, k));
    } else {
        assert(a[m] == b[m]);
        assert(diverge_at(a, c, m));
    }
}

/// Of two different strings one stands before the other.
pub proof fn lemma_precedes_total(a: Seq<char>, b: Seq<char>)
    ensures
        a == b || precedes(a, b) || precedes(b, a),
    decreases a.len(),
{
    if a.len() == 0 {
        if b.len() > 0 {
            assert(diverge_at(a, b, 0));
        } else {
            assert(a =~= b);
        }
    } else if b.len() == 0 {
        assert(diverge_at(b, a, 0));
    } else if a[0] < b[0] {
        assert(diverge_at(a, b, 0));
    } else if b[0] < a[0] {
        assert(diverge_at(b, a, 0));
    } else {
        let x = a.drop_first();
        let y = b.drop_first();
        lemma_precedes_total(x, y);
        if x == y {
            assert(a =~= seq![a[0]] + x);
            assert(b =~= seq![b[0]] + y);
        } else if precedes(x, y) {
            lemma_precedes_behind_first(a, b);
        } else {
            lemma_precedes_behind_first(b, a);
        }
    }
}

proof fn lemma_precedes_behind_first(a: Seq<char>, b: Seq<char>)
    requires
        a.len() > 0,
        b.len() > 0,
        a[0] == b[0],
        precedes(a.drop_first(), b.drop_first()),
    ensures
        precedes(a, b),
{
    let k = choose|k: int| diverge_at(a.drop_first(), b.drop_first(), k);
    assert forall|j: int| 0 <= j < k + 1 implies a[j] == b[j] by {
        if j > 0 {
            assert(a.drop_first()[j - 1] == b.drop_first()[j - 1]);
        }
    }
    assert(diverge_at(a, b, k + 1));
}

/// Values with an order in which they are listed.
pub trait Listed: Sized {
    /// This value belongs in front of the other one.
    spec fn goes_before(&self, other: &Self) -> bool;

    /// No two values belong in front of each other.
    proof fn asymmetric(a: &Self, b: &Self)
        requires
            a.goes_before(b),
        ensures
            !b.goes_before(a),
    ;

    /// Values that are not in front of one another stay so through a third one.
    proof fn transitive(a: &Self, b: &Self, c: &Self)
        requires
            !b.goes_before(a),
            !c.goes_before(b),
        ensures
            !c.goes_before(a),
    ;

    /// Tests whether this value belongs in front of the other one.
    fn is_before(&self, other: &Self) -> (yes: bool)
        ensures
            yes == self.goes_before(other),
    ;
}

/// `items` with `x` put behind the last value that does not belong behind it.
pub open spec fn placed<T: Listed>(items: Seq<T>, x: T) -> Seq<T>
    decreases items.len(),
{
    if items.len() > 0 && x.goes_before(&items.last()) {
        placed(items.drop_last(), x).push(items.last())
    } else {
        items.push(x)
    }
}

/// `items` in their listing order; values of the same place keep the order they had.
pub open spec fn arranged<T: Listed>(items: Seq<T>) -> Seq<T>
    decreases items.len(),
{
    if items.len() == 0 {
        items
    } else {
        placed(arranged(items.drop_last()), items.last())
    }
}

/// No value of `items` belongs in front of one that stands before it.
pub open spec fn is_arranged<T: Listed>(items: Seq<T>) -> bool {
    forall|i: int, j: int| #![trigger items[i], items[j]]
        0 <= i < j < items.len() ==> !items[j].goes_before(&items[i])
}

proof fn lemma_placed<T: Listed>(items: Seq<T>, x: T)
    requires
        is_arranged(items),
    ensures
        is_arranged(placed(items, x)),
        placed(items, x).to_multiset() == items.to_multiset().insert(x),
        placed(items, x).len() == items.len() + 1,
        forall|y: T| #[trigger] placed(items, x).contains(y) ==> y == x || items.contains(y),
    decreases items.len(),
{
    broadcast use vstd::seq_lib::group_to_multiset_ensures;

    if items.len() > 0 && x.goes_before(&items.last()) {
        let front = items.drop_last();
        let last = items.last();
        assert(items =~= front.push(last));
        lemma_placed(front, x);
        let p = placed(front, x);
        assert forall|i: int| 0 <= i < p.len() implies !last.goes_before(&#[trigger] p[i]) by {
            assert(p.contains(p[i]));
            if p[i] == x {
                T::asymmetric(&x, &last);
            } else {
                let k = choose|k: int| 0 <= k < front.len() && front[k] == p[i];
                assert(items[k] == p[i]);
                assert(!items[items.len() - 1].goes_before(&items[k]));
            }
        }
        assert(p.push(last).to_multiset() =~= items.to_multiset().insert(x));
        assert forall|y: T| #[trigger] p.push(last).contains(y) implies y == x || items.contains(
            y,
        ) by {
            let k = choose|k: int| 0 <= k < p.push(last).len() && p.push(last)[k] == y;
            if k < p.len() {
                assert(p.contains(y));
                if y != x {
                    let m = choose|m: int| 0 <= m < front.len() && front[m] == y;
                    assert(items[m] == y);
                }
            } else {
                assert(items[items.len() - 1] == y);
            }
        }
    } else {
        if items.len() > 0 {
            assert forall|i: int| 0 <= i < items.len() implies !x.goes_before(
                &#[trigger] items[i],
            ) by {
                if i < items.len() - 1 {
                    assert(!items[items.len() - 1].goes_before(&items[i]));
                    T::transitive(&items[i], &items.last(), &x);
                }
            }
        }
        assert forall|y: T| #[trigger] items.push(x).contains(y) implies y == x || items.contains(
            y,
        ) by {
            let k = choose|k: int| 0 <= k < items.push(x).len() && items.push(x)[k] == y;
            if k < items.len() {
                assert(items[k] == y);
            }
        }
    }
}

/// Arranging values keeps every one of them and leaves none in front of one it belongs behind.
pub proof fn lemma_arranged<T: Listed>(items: Seq<T>)
    ensures
        is_arranged(arranged(items)),
        arranged(items).to_multiset() == items.to_multiset(),
        arranged(items).len() == items.len(),
    decreases items.len(),
{
    broadcast use vstd::seq_lib::group_to_multiset_ensures;

    if items.len() > 0 {
        lemma_arranged(items.drop_last());
        lemma_placed(arranged(items.drop_last()), items.last());
        assert(items =~= items.drop_last().push(items.last()));
    }
}

proof fn lemma_placed_at<T: Listed>(items: Seq<T>, x: T, at: int)
    requires
        0 <= at <= items.len(),
        forall|i: int| at <= i < items.len() ==> x.goes_before(&#[trigger] items[i]),
        at > 0 ==> !x.goes_before(&items[at - 1]),
    ensures
        placed(items, x) == items.insert(at, x),
    decreases items.len(),
{
    if at < items.len() {
        let front = items.drop_last();
        lemma_placed_at(front, x, at);
        assert(items.insert(at, x) =~= front.insert(at, x).push(items.last()));
    } else {
        assert(items.insert(at, x) =~= items.push(x));
    }
}

/// Puts values in their listing order; the sort is stable.
pub fn arrange<T: Listed>(items: Vec<T>) -> (out: Vec<T>)
    ensures
        out@ == arranged(items@),
        is_arranged(out@),
        out@.to_multiset() == items@.to_multiset(),
{
    let ghost all = items@;
    let mut rest: Vec<T> = items;
    let mut reversed: Vec<T> = Vec::new();
    while rest.len() > 0
        invariant
            rest@ + reversed@.reverse() =~= all,
        decreases rest@.len(),
    {
        let ghost before = rest@;
        let ghost taken = reversed@;
        match rest.pop() {
            Some(x) => {
                reversed.push(x);
                proof {
                    assert(before =~= rest@.push(x));
                    assert(reversed@.reverse() =~= seq![x] + taken.reverse());
                }
            },
            None => {},
        }
    }
    let mut out: Vec<T> = Vec::new();
    proof {
        assert(reversed@.reverse() =~= all);
    }
    let ghost total = reversed@.len();
    while reversed.len() > 0
        invariant
            total == all.len(),
            reversed@.len() <= total,
            reversed@.reverse() =~= all.skip(total - reversed@.len()),
            out@ == arranged(all.take(total - reversed@.len())),
        decreases reversed@.len(),
    {
        let ghost left = reversed@;
        let ghost done = total - reversed@.len();
        match reversed.pop() {
            Some(x) => {
                proof {
                    assert(left =~= reversed@.push(x));
                    assert(left.reverse() =~= seq![x] + reversed@.reverse());
                    assert(all.skip(done)[0] == x);
                    assert(all.skip(done + 1) =~= reversed@.reverse()) by {
                        assert(all.skip(done).skip(1) =~= all.skip(done + 1));
                        assert((seq![x] + reversed@.reverse()).skip(1) =~= reversed@.reverse());
                    }
                    assert(all.take(done + 1).drop_last() =~= all.take(done));
                }
                let mut at: usize = out.len();
                while at > 0 && x.is_before(&out[at - 1])
                    invariant
                        at <= out@.len(),
                        forall|i: int| at <= i < out@.len() ==> x.goes_before(&#[trigger] out@[i]),
                    decreases at,
                {
                    at = at - 1;
                }
                proof {
                    lemma_placed_at(out@, x, at as int);
                }
                out.insert(at, x);
            },
            None => {},
        }
    }
    proof {
        assert(all.take(total as int) =~= all);
        lemma_arranged(all);
    }
    out
}

/// Of two texts that begin alike, the one with the smaller character where they part stands first,
/// and a text stands before its own continuations.
pub proof fn lemma_smaller_stands_first(
    common: Seq<char>,
    x: char,
    y: char,
    a: Seq<char>,
    b: Seq<char>,
)
    ensures
        x < y ==> precedes(common + seq![x] + a, common + seq![y] + b),
        y < x ==> !precedes(common + seq![x] + a, common + seq![y] + b),
        precedes(common, common + seq![x] + a),
        !precedes(common, common),
{
    let first = common + seq![x] + a;
    let second = common + seq![y] + b;
    let n = common.len() as int;
    assert(first[n] == x && second[n] == y);
    if x < y {
        assert(diverge_at(first, second, n));
    }
    if y < x {
        assert(diverge_at(second, first, n));
        lemma_precedes_asymmetric(second, first);
    }
    assert(diverge_at(common, first, n));
}

} // verus!
