//! A small keyed store from identities to values.

use crate::address::Address;
use vstd::prelude::*;

verus! {

/// Whether row `i` of `rows` is filed under `key`.
pub open spec fn row_has_key<V>(rows: Seq<(Address, V)>, i: int, key: Seq<char>) -> bool {
    0 <= i < rows.len() && rows[i].0@ == key
}

/// The map that a list of rows stands for: each key that some row is filed
/// under, with the value of such a row.
pub open spec fn rows_map<V>(rows: Seq<(Address, V)>) -> Map<Seq<char>, V> {
    Map::new(
        |key: Seq<char>| exists|i: int| row_has_key(rows, i, key),
        |key: Seq<char>| rows[choose|i: int| row_has_key(rows, i, key)].1,
    )
}

/// No two rows are filed under the same key.
pub open spec fn rows_distinct<V>(rows: Seq<(Address, V)>) -> bool {
    forall|i: int, j: int|
        0 <= i < j < rows.len() ==> (#[trigger] rows[i]).0@ != (#[trigger] rows[j]).0@
}

/// A finite map keyed by identity. A well-formed one has at most one row for
/// an identity.
pub struct AddressMap<V> {
    rows: Vec<(Address, V)>,
}

impl<V> View for AddressMap<V> {
    type V = Map<Seq<char>, V>;

    closed spec fn view(&self) -> Map<Seq<char>, V> {
        rows_map(self.rows@)
    }
}

impl<V> AddressMap<V> {
    /// No identity has two rows.
    pub closed spec fn wf(&self) -> bool {
        rows_distinct(self.rows@)
    }

    /// The empty map.
    pub fn new() -> (m: AddressMap<V>)
        ensures
            m.wf(),
            m@ == Map::<Seq<char>, V>::empty(),
    {
        let m = AddressMap { rows: Vec::new() };
        assert(m@ =~= Map::<Seq<char>, V>::empty());
        m
    }

    /// The map that `rows` stand for. Rows of which two are filed under the
    /// same key stand for no map.
    pub fn from_rows(rows: Vec<(Address, V)>) -> (r: Option<AddressMap<V>>)
        ensures
            match r {
                Some(m) => rows_distinct(rows@) && m.wf() && m@ == rows_map(rows@),
                None => !rows_distinct(rows@),
            },
    {
        let mut j: usize = 0;
        while j < rows.len()
            invariant
                j <= rows@.len(),
                forall|a: int, b: int|
                    0 <= a < b < j ==> (#[trigger] rows@[a]).0@ != (#[trigger] rows@[b]).0@,
            decreases rows@.len() - j,
        {
            let mut i: usize = 0;
            while i < j
                invariant
                    i <= j < rows@.len(),
                    forall|a: int| 0 <= a < i ==> (#[trigger] rows@[a]).0@ != rows@[j as int].0@,
                decreases j - i,
            {
                if rows[i].0 == rows[j].0 {
                    return None;
                }
                i += 1;
            }
            j += 1;
        }
        Some(AddressMap { rows })
    }

    /// The rows of the map, one for each key.
    pub fn rows(&self) -> (rows: &Vec<(Address, V)>)
        requires
            self.wf(),
        ensures
            rows_distinct(rows@),
            rows_map(rows@) == self@,
    {
        &self.rows
    }

    /// The index of the row filed under `key`, if there is one.
    fn position(&self, key: &Address) -> (r: Option<usize>)
        ensures
            match r {
                Some(i) => row_has_key(self.rows@, i as int, key@),
                None => forall|i: int| !row_has_key(self.rows@, i, key@),
            },
    {
        let mut i: usize = 0;
        while i < self.rows.len()
            invariant
                i <= self.rows@.len(),
                forall|j: int| 0 <= j < i ==> !row_has_key(self.rows@, j, key@),
            decreases self.rows@.len() - i,
        {
            if self.rows[i].0 == *key {
                return Some(i);
            }
            i += 1;
        }
        None
    }

    /// The value filed under `key`, if there is one.
    pub fn get(&self, key: &Address) -> (r: Option<&V>)
        requires
            self.wf(),
        ensures
            match r {
                Some(v) => self@.contains_key(key@) && *v == self@[key@],
                None => !self@.contains_key(key@),
            },
    {
        match self.position(key) {
            Some(i) => {
                proof {
                    let j = choose|j: int| row_has_key(self.rows@, j, key@);
                    assert(row_has_key(self.rows@, i as int, key@));
                    assert(j == i);
                }
                Some(&self.rows[i].1)
            },
            None => None,
        }
    }

    /// Files `value` under `key`, in place of what was filed there before.
    pub fn insert(&mut self, key: Address, value: V)
        requires
            old(self).wf(),
        ensures
            final(self).wf(),
            final(self)@ == old(self)@.insert(key@, value),
    {
        let ghost before = self.rows@;
        let ghost k = key@;
        let ghost at: int;
        match self.position(&key) {
            Some(i) => {
                self.rows.set(i, (key, value));
                proof {
                    at = i as int;
                }
            },
            None => {
                self.rows.push((key, value));
                proof {
                    at = before.len() as int;
                }
            },
        }
        proof {
            let after = self.rows@;
            assert(row_has_key(after, at, k) && after[at].1 == value);
            assert forall|j: int| 0 <= j < after.len() && j != at implies j < before.len()
                && after[j] == before[j] && !row_has_key(before, j, k) by {}
            assert(rows_distinct(after));
            assert forall|q: Seq<char>|
                rows_map(after).contains_key(q) <==> #[trigger] rows_map(before).insert(
                    k,
                    value,
                ).contains_key(q) by {
                if rows_map(after).contains_key(q) && q != k {
                    let j = choose|j: int| row_has_key(after, j, q);
                    assert(row_has_key(before, j, q));
                }
                if rows_map(before).contains_key(q) && q != k {
                    let j = choose|j: int| row_has_key(before, j, q);
                    assert(row_has_key(after, j, q));
                }
            }
            assert forall|q: Seq<char>| #[trigger]
                rows_map(after).contains_key(q) implies rows_map(after)[q] == rows_map(
                before,
            ).insert(k, value)[q] by {
                let j = choose|j: int| row_has_key(after, j, q);
                if q != k {
                    let j0 = choose|j0: int| row_has_key(before, j0, q);
                    assert(row_has_key(before, j, q));
                    assert(j0 == j);
                } else {
                    assert(j == at);
                }
            }
            assert(rows_map(after) =~= rows_map(before).insert(k, value));
        }
    }
}

impl<V: Copy> AddressMap<V> {
    /// A second map with the same rows.
    pub fn duplicate(&self) -> (copy: AddressMap<V>)
        requires
            self.wf(),
        ensures
            copy.wf(),
            copy@ == self@,
    {
        let mut rows: Vec<(Address, V)> = Vec::new();
        let mut i: usize = 0;
        while i < self.rows.len()
            invariant
                i <= self.rows@.len(),
                rows@.len() == i,
                forall|j: int|
                    0 <= j < i ==> (#[trigger] rows@[j]).0@ == self.rows@[j].0@ && rows@[j].1
                        == self.rows@[j].1,
            decreases self.rows@.len() - i,
        {
            let key = self.rows[i].0.clone();
            let value = self.rows[i].1;
            rows.push((key, value));
            i += 1;
        }
        let copy = AddressMap { rows };
        proof {
            let mine = self.rows@;
            let theirs = copy.rows@;
            assert forall|j: int, q: Seq<char>| row_has_key(mine, j, q) <==> row_has_key(
                theirs,
                j,
                q,
            ) by {
                if 0 <= j < mine.len() {
                    assert(theirs[j].0@ == mine[j].0@);
                }
            }
            assert forall|i: int, j: int| 0 <= i < j < theirs.len() implies (#[trigger] theirs[i]).0@
                != (#[trigger] theirs[j]).0@ by {
                assert(theirs[i].0@ == mine[i].0@);
                assert(theirs[j].0@ == mine[j].0@);
            }
            assert forall|q: Seq<char>| #[trigger]
                rows_map(theirs).contains_key(q) implies rows_map(theirs)[q] == rows_map(mine)[q] by {
                let j = choose|j: int| row_has_key(theirs, j, q);
                let j0 = choose|j0: int| row_has_key(mine, j0, q);
                assert(row_has_key(mine, j, q));
                assert(j0 == j);
            }
            assert(rows_map(theirs) =~= rows_map(mine));
        }
        copy
    }
}

/// The map that a list of rows stands for has finitely many keys.
pub proof fn lemma_rows_map_finite<V>(rows: Seq<(Address, V)>)
    ensures
        rows_map(rows).dom().finite(),
    decreases rows.len(),
{
    if rows.len() == 0 {
        assert(rows_map(rows).dom() =~= Set::<Seq<char>>::empty());
    } else {
        let head = rows.drop_last();
        lemma_rows_map_finite(head);
        let k = rows.last().0@;
        assert forall|q: Seq<char>|
            rows_map(rows).dom().contains(q) <==> rows_map(head).dom().insert(k).contains(
                q,
            ) by {
            if rows_map(rows).dom().contains(q) {
                let j = choose|j: int| row_has_key(rows, j, q);
                if j < rows.len() - 1 {
                    assert(row_has_key(head, j, q));
                }
            }
            if rows_map(head).dom().contains(q) {
                let j = choose|j: int| row_has_key(head, j, q);
                assert(row_has_key(rows, j, q));
            }
            if q == k {
                assert(row_has_key(rows, rows.len() - 1, q));
            }
        }
        assert(rows_map(rows).dom() =~= rows_map(head).dom().insert(k));
    }
}

/// The map of a list of rows with distinct keys is the map of the rows
/// before the last, with the last row written into it under a new key.
pub proof fn lemma_rows_map_last<V>(rows: Seq<(Address, V)>)
    requires
        rows.len() > 0,
        rows_distinct(rows),
    ensures
        rows_distinct(rows.drop_last()),
        !rows_map(rows.drop_last()).contains_key(rows.last().0@),
        rows_map(rows) == rows_map(rows.drop_last()).insert(rows.last().0@, rows.last().1),
{
    let head = rows.drop_last();
    let k = rows.last().0@;
    let last = rows.len() - 1;
    assert forall|i: int, j: int| 0 <= i < j < head.len() implies (#[trigger] head[i]).0@ != (
    #[trigger] head[j]).0@ by {
        assert(head[i] == rows[i] && head[j] == rows[j]);
    }
    if rows_map(head).contains_key(k) {
        let j = choose|j: int| row_has_key(head, j, k);
        assert(rows[j].0@ == rows[last].0@);
    }
    assert forall|q: Seq<char>|
        rows_map(rows).contains_key(q) <==> #[trigger] rows_map(head).insert(
            k,
            rows.last().1,
        ).contains_key(q) by {
        if rows_map(rows).contains_key(q) && q != k {
            let j = choose|j: int| row_has_key(rows, j, q);
            assert(row_has_key(head, j, q));
        }
        if rows_map(head).contains_key(q) {
            let j = choose|j: int| row_has_key(head, j, q);
            assert(row_has_key(rows, j, q));
        }
        if q == k {
            assert(row_has_key(rows, last, q));
        }
    }
    assert forall|q: Seq<char>| #[trigger] rows_map(rows).contains_key(q) implies rows_map(rows)[q]
        == rows_map(head).insert(k, rows.last().1)[q] by {
        let j = choose|j: int| row_has_key(rows, j, q);
        if q != k {
            let j0 = choose|j0: int| row_has_key(head, j0, q);
            assert(row_has_key(head, j, q));
            assert(rows[j0].0@ == rows[j].0@);
            assert(j0 == j);
        } else {
            assert(rows[j].0@ == rows[last].0@);
            assert(j == last);
        }
    }
    assert(rows_map(rows) =~= rows_map(head).insert(k, rows.last().1));
}

} // verus!
