//! Ordered listings of table rows, given by position.

use vstd::prelude::*;

use crate::text::{before, before_irreflexive, before_total, before_transitive, chars_before,
    chars_of};

verus! {

/// A row that a listing can order.
pub trait Listed: Sized {
    spec fn precedes(&self, other: &Self) -> bool;

    fn comes_before(&self, other: &Self) -> (r: bool)
        ensures
            r == self.precedes(other),
    ;

    /// The order is a strict weak one: no two rows precede each other, and
    /// whatever stands between two rows is behind the first or before the
    /// second.
    proof fn weak_order(a: &Self, b: &Self, c: &Self)
        ensures
            a.precedes(c) ==> !c.precedes(a),
            a.precedes(c) ==> a.precedes(b) || b.precedes(c),
    ;
}

/// Whether `list` holds the positions of exactly the kept ones of the first
/// `n` rows, each once, in order; rows that tie stay in table order.
pub open spec fn ordered_listing<T: Listed>(
    rows: Seq<T>,
    keep: Seq<bool>,
    n: int,
    list: Seq<usize>,
) -> bool {
    &&& forall|a: int| 0 <= a < list.len() ==> (#[trigger] list[a]) < n && keep[list[a] as int]
    &&& forall|i: int| 0 <= i < n && #[trigger] keep[i] ==> list.contains(i as usize)
    &&& forall|a: int, b: int|
        0 <= a < b < list.len() ==> {
            let x = rows[#[trigger] list[a] as int];
            let y = rows[#[trigger] list[b] as int];
            x.precedes(&y) || (!y.precedes(&x) && list[a] < list[b])
        }
}

/// The kept rows in order, rows that tie in table order.
pub fn order<T: Listed>(rows: &Vec<T>, keep: &Vec<bool>) -> (list: Vec<usize>)
    requires
        keep.len() == rows.len(),
    ensures
        ordered_listing(rows@, keep@, rows@.len() as int, list@),
{
    let mut list: Vec<usize> = Vec::new();
    let mut i: usize = 0;
    while i < rows.len()
        invariant
            keep.len() == rows.len(),
            i <= rows.len(),
            ordered_listing(rows@, keep@, i as int, list@),
        decreases rows.len() - i,
    {
        if keep[i] {
            let mut at: usize = list.len();
            while at > 0 && rows[i].comes_before(&rows[list[at - 1]])
                invariant
                    keep.len() == rows.len(),
                    i < rows.len(),
                    at <= list.len(),
                    ordered_listing(rows@, keep@, i as int, list@),
                    forall|a: int|
                        at <= a < list.len() ==> rows@[i as int].precedes(
                            &rows@[#[trigger] list@[a] as int],
                        ),
                decreases at,
            {
                at = at - 1;
            }
            let ghost old_list = list@;
            list.insert(at, i);
            proof {
                insertion_keeps_order(rows@, keep@, i, old_list, at as int, list@);
            }
        }
        i = i + 1;
    }
    list
}

proof fn insertion_keeps_order<T: Listed>(
    rows: Seq<T>,
    keep: Seq<bool>,
    i: usize,
    list: Seq<usize>,
    at: int,
    next: Seq<usize>,
)
    requires
        i < rows.len(),
        keep.len() == rows.len(),
        keep[i as int],
        ordered_listing(rows, keep, i as int, list),
        0 <= at <= list.len(),
        next == list.insert(at, i),
        at > 0 ==> !rows[i as int].precedes(&rows[list[at - 1] as int]),
        forall|a: int|
            at <= a < list.len() ==> rows[i as int].precedes(&rows[#[trigger] list[a] as int]),
    ensures
        ordered_listing(rows, keep, i + 1, next),
{
    let row = rows[i as int];
    assert forall|a: int| 0 <= a < at implies !row.precedes(&rows[#[trigger] list[a] as int]) by {
        let x = rows[list[a] as int];
        let last = rows[list[at - 1] as int];
        if row.precedes(&x) {
            T::weak_order(&row, &last, &x);
            T::weak_order(&x, &x, &last);
        }
    }
    assert forall|a: int| 0 <= a < next.len() implies (#[trigger] next[a]) < i + 1
        && keep[next[a] as int] by {
        if a < at {
            assert(next[a] == list[a]);
        } else if a > at {
            assert(next[a] == list[a - 1]);
        }
    }
    assert forall|k: int| 0 <= k < i + 1 && #[trigger] keep[k] implies next.contains(
        k as usize,
    ) by {
        if k == i {
            assert(next[at] == i);
        } else {
            assert(list.contains(k as usize));
            let a = choose|a: int| 0 <= a < list.len() && list[a] == k as usize;
            if a < at {
                assert(next[a] == k as usize);
            } else {
                assert(next[a + 1] == k as usize);
            }
        }
    }
    assert forall|a: int, b: int| 0 <= a < b < next.len() implies {
        let x = rows[#[trigger] next[a] as int];
        let y = rows[#[trigger] next[b] as int];
        x.precedes(&y) || (!y.precedes(&x) && next[a] < next[b])
    } by {
        if b < at {
            assert(next[a] == list[a] && next[b] == list[b]);
        } else if b == at {
            assert(next[a] == list[a]);
            assert(!row.precedes(&rows[list[a] as int]));
        } else if a < at {
            assert(next[a] == list[a] && next[b] == list[b - 1]);
        } else if a == at {
            assert(next[b] == list[b - 1]);
        } else {
            assert(next[a] == list[a - 1] && next[b] == list[b - 1]);
        }
    }
}

/// Ordering by one text, then by another.
pub open spec fn by_two(a1: Seq<char>, a2: Seq<char>, b1: Seq<char>, b2: Seq<char>) -> bool {
    before(a1, b1) || (a1 == b1 && before(a2, b2))
}

/// Decides [`by_two`].
pub fn comes_first(a1: &str, a2: &str, b1: &str, b2: &str) -> (r: bool)
    ensures
        r == by_two(a1@, a2@, b1@, b2@),
{
    let x1 = chars_of(a1);
    let y1 = chars_of(b1);
    if chars_before(&x1, &y1) {
        return true;
    }
    if !crate::text::same(a1, b1) {
        return false;
    }
    let x2 = chars_of(a2);
    let y2 = chars_of(b2);
    chars_before(&x2, &y2)
}

/// [`by_two`] is a weak order.
pub proof fn by_two_weak(
    a1: Seq<char>,
    a2: Seq<char>,
    b1: Seq<char>,
    b2: Seq<char>,
    c1: Seq<char>,
    c2: Seq<char>,
)
    ensures
        by_two(a1, a2, c1, c2) ==> !by_two(c1, c2, a1, a2),
        by_two(a1, a2, c1, c2) ==> by_two(a1, a2, b1, b2) || by_two(b1, b2, c1, c2),
{
    if by_two(a1, a2, c1, c2) && by_two(c1, c2, a1, a2) {
        before_irreflexive(a1);
        before_irreflexive(a2);
        if before(a1, c1) && before(c1, a1) {
            before_transitive(a1, c1, a1);
        }
        if before(a2, c2) && before(c2, a2) {
            before_transitive(a2, c2, a2);
        }
    }
    if by_two(a1, a2, c1, c2) && !by_two(a1, a2, b1, b2) {
        before_total(a1, b1);
        before_total(a2, b2);
        if before(a1, c1) {
            if a1 != b1 {
                before_transitive(b1, a1, c1);
            }
        } else {
            if a1 == b1 {
                if a2 != b2 {
                    before_transitive(b2, a2, c2);
                }
            }
        }
    }
}

/// Whether one row stands before another in a listing: by the order of rows, and
/// by its place in the table where they tie.
pub open spec fn stands_before<T: Listed>(rows: Seq<T>, i: usize, j: usize) -> bool {
    rows[i as int].precedes(&rows[j as int]) || (!rows[j as int].precedes(&rows[i as int]) && i < j)
}

/// Rows and a choice of them have one listing.
pub proof fn a_listing_is_the_only_one<T: Listed>(
    rows: Seq<T>,
    keep: Seq<bool>,
    n: int,
    a: Seq<usize>,
    b: Seq<usize>,
)
    requires
        n <= rows.len(),
        ordered_listing(rows, keep, n, a),
        ordered_listing(rows, keep, n, b),
    ensures
        a == b,
{
    let m = if a.len() <= b.len() {
        a.len() as int
    } else {
        b.len() as int
    };
    same_start(rows, keep, n, a, b, m);
    if a.len() > m {
        listed_in(rows, keep, n, a, b, m);
        let j = choose|j: int| 0 <= j < b.len() && b[j] == a[m];
        assert(a[j] == b[j]);
        a_place_comes_once(rows, keep, n, a, j, m);
    }
    if b.len() > m {
        listed_in(rows, keep, n, b, a, m);
        let j = choose|j: int| 0 <= j < a.len() && a[j] == b[m];
        assert(a[j] == b[j]);
        a_place_comes_once(rows, keep, n, b, j, m);
    }
    assert(a =~= b);
}

/// What one listing holds another of the same choice holds.
proof fn listed_in<T: Listed>(
    rows: Seq<T>,
    keep: Seq<bool>,
    n: int,
    a: Seq<usize>,
    b: Seq<usize>,
    k: int,
)
    requires
        ordered_listing(rows, keep, n, a),
        ordered_listing(rows, keep, n, b),
        0 <= k < a.len(),
    ensures
        b.contains(a[k]),
{
    assert(a[k] < n && keep[a[k] as int]);
    assert(a[k] as int as usize == a[k]);
}

/// No place comes twice in a listing.
pub proof fn a_place_comes_once<T: Listed>(
    rows: Seq<T>,
    keep: Seq<bool>,
    n: int,
    list: Seq<usize>,
    i: int,
    j: int,
)
    requires
        ordered_listing(rows, keep, n, list),
        0 <= i < j < list.len(),
    ensures
        list[i] != list[j],
        stands_before(rows, list[i], list[j]),
{
    let x = rows[list[i] as int];
    let y = rows[list[j] as int];
    assert(x.precedes(&y) || (!y.precedes(&x) && list[i] < list[j]));
    T::weak_order(&x, &x, &y);
    T::weak_order(&x, &x, &x);
}

proof fn same_start<T: Listed>(
    rows: Seq<T>,
    keep: Seq<bool>,
    n: int,
    a: Seq<usize>,
    b: Seq<usize>,
    m: int,
)
    requires
        n <= rows.len(),
        ordered_listing(rows, keep, n, a),
        ordered_listing(rows, keep, n, b),
        0 <= m <= a.len(),
        m <= b.len(),
    ensures
        forall|i: int| 0 <= i < m ==> a[i] == b[i],
    decreases m,
{
    if m > 0 {
        let k = m - 1;
        same_start(rows, keep, n, a, b, k);
        listed_in(rows, keep, n, a, b, k);
        listed_in(rows, keep, n, b, a, k);
        let j = choose|j: int| 0 <= j < b.len() && b[j] == a[k];
        let i = choose|i: int| 0 <= i < a.len() && a[i] == b[k];
        if j < k {
            a_place_comes_once(rows, keep, n, a, j, k);
        }
        if i < k {
            a_place_comes_once(rows, keep, n, b, i, k);
        }
        if j > k && i > k {
            a_place_comes_once(rows, keep, n, b, k, j);
            a_place_comes_once(rows, keep, n, a, k, i);
            let x = rows[a[k] as int];
            let y = rows[b[k] as int];
            T::weak_order(&x, &x, &y);
            T::weak_order(&y, &y, &x);
        }
        assert(a[k] == b[k]);
    }
}

} // verus!
