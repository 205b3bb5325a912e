//! Keyed tables: rows in insertion order, no two under one key.

use vstd::prelude::*;

verus! {

/// A key of two parts; a table with one-part keys leaves the second empty.
pub type Key = (Seq<char>, Seq<char>);

/// The key of one text.
pub open spec fn key1(a: Seq<char>) -> Key {
    (a, Seq::<char>::empty())
}

/// What a table row is found by.
pub trait Row: Sized {
    spec fn key(&self) -> Key;

    fn has_key(&self, a: &str, b: &str) -> (r: bool)
        ensures
            r == (self.key() == (a@, b@)),
    ;
}

/// Rows in insertion order.
pub struct Table<T: Row> {
    pub rows: Vec<T>,
}

/// Whether some row stands under `k`.
pub open spec fn keyed<T: Row>(rows: Seq<T>, k: Key) -> bool {
    exists|i: int| 0 <= i < rows.len() && #[trigger] rows[i].key() == k
}

/// The position of a row under `k`.
pub open spec fn place<T: Row>(rows: Seq<T>, k: Key) -> int {
    choose|i: int| 0 <= i < rows.len() && #[trigger] rows[i].key() == k
}

impl<T: Row> View for Table<T> {
    type V = Map<Key, T>;

    open spec fn view(&self) -> Map<Key, T> {
        Map::new(|k: Key| keyed(self.rows@, k), |k: Key| self.rows@[place(self.rows@, k)])
    }
}

impl<T: Row> Table<T> {
    /// No key stands twice.
    pub open spec fn wf(&self) -> bool {
        forall|i: int, j: int|
            0 <= i < j < self.rows@.len() ==> #[trigger] self.rows@[i].key()
                != #[trigger] self.rows@[j].key()
    }

    pub fn new() -> (r: Table<T>)
        ensures
            r.wf(),
            r.rows@ == Seq::<T>::empty(),
            r@ == Map::<Key, T>::empty(),
    {
        let r = Table { rows: Vec::new() };
        assert(r@ =~= Map::<Key, T>::empty());
        r
    }

    /// Where the row under a key stands.
    pub fn position(&self, a: &str, b: &str) -> (r: Option<usize>)
        requires
            self.wf(),
        ensures
            match r {
                Some(i) => {
                    &&& i < self.rows.len()
                    &&& self.rows@[i as int].key() == (a@, b@)
                    &&& self@.contains_key((a@, b@))
                    &&& self@[(a@, b@)] == self.rows@[i as int]
                },
                None => !self@.contains_key((a@, b@)),
            },
    {
        let mut i: usize = 0;
        while i < self.rows.len()
            invariant
                self.wf(),
                i <= self.rows.len(),
                forall|j: int| 0 <= j < i ==> #[trigger] self.rows@[j].key() != (a@, b@),
            decreases self.rows.len() - i,
        {
            if self.rows[i].has_key(a, b) {
                proof {
                    table_at(*self, i as int);
                }
                return Some(i);
            }
            i = i + 1;
        }
        None
    }

    /// The row under a key.
    pub fn find(&self, a: &str, b: &str) -> (r: Option<&T>)
        requires
            self.wf(),
        ensures
            match r {
                Some(t) => self@.contains_key((a@, b@)) && *t == self@[(a@, b@)] && t.key() == (
                    a@,
                    b@,
                ),
                None => !self@.contains_key((a@, b@)),
            },
    {
        match self.position(a, b) {
            Some(i) => Some(&self.rows[i]),
            None => None,
        }
    }

    /// Appends a row under a key that is free.
    pub fn insert(&mut self, row: T)
        requires
            old(self).wf(),
            !old(self)@.contains_key(row.key()),
        ensures
            final(self).wf(),
            final(self).rows@ == old(self).rows@.push(row),
            final(self)@ == old(self)@.insert(row.key(), row),
    {
        let ghost before = self.rows@;
        let ghost old_map = self@;
        self.rows.push(row);
        proof {
            let after = self.rows@;
            let k0 = row.key();
            assert forall|i: int| 0 <= i < before.len() implies #[trigger] before[i].key() != k0 by {
                if before[i].key() == k0 {
                    assert(keyed(before, k0));
                }
            }
            assert(self.wf()) by {
                assert forall|i: int, j: int| 0 <= i < j < after.len() implies #[trigger] after[i].key()
                    != #[trigger] after[j].key() by {
                    assert(after[i] == before[i]);
                    assert(before[i].key() != k0);
                    if j < before.len() {
                        assert(after[j] == before[j]);
                    }
                }
            }
            assert forall|k: Key| keyed(after, k) == (k == k0 || keyed(before, k)) by {
                if keyed(after, k) {
                    let i = place(after, k);
                    if i < before.len() {
                        assert(before[i].key() == k);
                    }
                }
                if k == k0 {
                    assert(after[before.len() as int].key() == k0);
                }
                if keyed(before, k) {
                    let i = place(before, k);
                    assert(after[i].key() == k);
                }
            }
            assert forall|k: Key| keyed(after, k) implies after[place(after, k)] == (if k == k0 {
                row
            } else {
                before[place(before, k)]
            }) by {
                let i = place(after, k);
                if k == k0 {
                    if i < before.len() {
                        assert(before[i].key() == k0);
                    }
                } else {
                    let j = place(before, k);
                    assert(after[j].key() == k);
                    assert(i < before.len());
                    assert(before[i].key() == k);
                }
            }
            assert(self@ =~= old_map.insert(k0, row));
        }
    }

    /// Puts a row in place of the one under the same key.
    pub fn replace(&mut self, row: T, a: &str, b: &str)
        requires
            old(self).wf(),
            row.key() == (a@, b@),
            old(self)@.contains_key((a@, b@)),
        ensures
            final(self).wf(),
            final(self)@ == old(self)@.insert((a@, b@), row),
            final(self).rows@.len() == old(self).rows@.len(),
            forall|i: int|
                0 <= i < old(self).rows@.len() ==> #[trigger] final(self).rows@[i] == (if old(
                    self,
                ).rows@[i].key() == (a@, b@) {
                    row
                } else {
                    old(self).rows@[i]
                }),
    {
        let ghost before = self.rows@;
        let ghost old_map = self@;
        let found = self.position(a, b);
        if let Some(p) = found {
            self.rows.set(p, row);
            proof {
                let after = self.rows@;
                let k0: Key = (a@, b@);
                assert(after =~= before.update(p as int, row));
                assert forall|i: int| 0 <= i < after.len() implies #[trigger] after[i].key()
                    == before[i].key() by {}
                assert forall|i: int, j: int| 0 <= i < j < after.len() implies #[trigger] after[i].key()
                    != #[trigger] after[j].key() by {
                    assert(before[i].key() != before[j].key());
                }
                assert(forall|i: int|
                    0 <= i < before.len() && i != p ==> #[trigger] before[i].key() != k0);
                assert forall|k: Key| keyed(after, k) == keyed(before, k) by {
                    if keyed(after, k) {
                        let i = place(after, k);
                        assert(before[i].key() == k);
                    }
                    if keyed(before, k) {
                        let i = place(before, k);
                        assert(after[i].key() == k);
                    }
                }
                assert forall|k: Key| keyed(after, k) implies after[place(after, k)] == (if k == k0 {
                    row
                } else {
                    before[place(before, k)]
                }) by {
                    let i = place(after, k);
                    let j = place(before, k);
                    assert(before[j].key() == k) by {
                        assert(keyed(before, k));
                    }
                    assert(after[j].key() == k);
                    assert(i == j);
                }
                assert(self@ =~= old_map.insert(k0, row));
            }
        }
    }
}

/// Changing a row in place, its key kept, changes what the table maps that
/// key to and nothing else.
pub proof fn table_updated<T: Row>(before: Table<T>, after: Table<T>, i: int, row: T)
    requires
        before.wf(),
        0 <= i < before.rows@.len(),
        after.rows@ =~= before.rows@.update(i, row),
        row.key() == before.rows@[i].key(),
    ensures
        after.wf(),
        after@ == before@.insert(row.key(), row),
{
    let a = after.rows@;
    let b = before.rows@;
    assert forall|j: int| 0 <= j < a.len() implies #[trigger] a[j].key() == b[j].key() by {}
    assert forall|j: int, k: int| 0 <= j < k < a.len() implies #[trigger] a[j].key()
        != #[trigger] a[k].key() by {
        assert(b[j].key() != b[k].key());
    }
    assert forall|k: Key| keyed(a, k) == keyed(b, k) by {
        if keyed(a, k) {
            let j = place(a, k);
            assert(b[j].key() == k);
        }
        if keyed(b, k) {
            let j = place(b, k);
            assert(a[j].key() == k);
        }
    }
    assert forall|k: Key| keyed(a, k) implies a[place(a, k)] == (if k == row.key() {
        row
    } else {
        b[place(b, k)]
    }) by {
        let p = place(a, k);
        let q = place(b, k);
        assert(keyed(b, k));
        assert(b[q].key() == k);
        assert(a[q].key() == k);
        assert(p == q);
        if k == row.key() {
            assert(a[i].key() == k);
            assert(p == i);
        }
    }
    assert(keyed(b, row.key())) by {
        assert(b[i].key() == row.key());
    }
    assert(after@ =~= before@.insert(row.key(), row));
}

/// A row of a table is what the table maps its key to.
pub proof fn table_at<T: Row>(t: Table<T>, i: int)
    requires
        t.wf(),
        0 <= i < t.rows@.len(),
    ensures
        t@.contains_key(t.rows@[i].key()),
        t@[t.rows@[i].key()] == t.rows@[i],
{
    let k = t.rows@[i].key();
    assert(keyed(t.rows@, k));
    let p = place(t.rows@, k);
    assert(t.rows@[p].key() == k);
}

/// What a table maps a key to is one of its rows, and stands under that key.
pub proof fn table_row<T: Row>(t: Table<T>, k: Key) -> (i: int)
    requires
        t.wf(),
        t@.contains_key(k),
    ensures
        0 <= i < t.rows@.len(),
        t.rows@[i] == t@[k],
        t.rows@[i].key() == k,
{
    assert(keyed(t.rows@, k));
    place(t.rows@, k)
}

/// A row added at the end stands under its own key and moves no other row.
pub proof fn table_pushed<T: Row>(before: Table<T>, after: Table<T>, row: T)
    requires
        before.wf(),
        after.wf(),
        after.rows@ == before.rows@.push(row),
    ensures
        !before@.contains_key(row.key()),
        after@ == before@.insert(row.key(), row),
{
    let b = before.rows@;
    let a = after.rows@;
    let n = b.len() as int;
    assert(a[n] == row);
    assert forall|k: Key| #[trigger] after@.contains_key(k) == before@.insert(row.key(), row).contains_key(
        k,
    ) by {
        if keyed(b, k) {
            let i = choose|i: int| 0 <= i < b.len() && #[trigger] b[i].key() == k;
            assert(a[i].key() == k);
        }
        if keyed(a, k) {
            let i = choose|i: int| 0 <= i < a.len() && #[trigger] a[i].key() == k;
            if i < n {
                assert(b[i].key() == k);
            }
        }
    }
    if before@.contains_key(row.key()) {
        let i = choose|i: int| 0 <= i < b.len() && #[trigger] b[i].key() == row.key();
        assert(a[i].key() == a[n].key());
    }
    assert forall|k: Key| #[trigger] after@.contains_key(k) implies after@[k] == before@.insert(
        row.key(),
        row,
    )[k] by {
        let i = table_row(after, k);
        if i < n {
            table_at(before, i);
        }
    }
    assert(after@ =~= before@.insert(row.key(), row));
}

} // verus!
