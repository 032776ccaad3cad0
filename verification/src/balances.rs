//! The sum of a finite table of balances, and how it moves when one balance
//! is written.

use crate::address::Address;
use crate::address_map::{lemma_rows_map_finite, lemma_rows_map_last, rows_distinct, rows_map};
use vstd::prelude::*;

verus! {

/// A table of balances by identity.
pub type Balances = Map<Seq<char>, int>;

/// The sum of all balances of a finite table.
pub open spec fn total(m: Balances) -> int
    decreases m.dom().len(),
    when m.dom().finite()
    via total_decreases
{
    if m.dom().len() == 0 {
        0
    } else {
        let who = m.dom().choose();
        m[who] + total(m.remove(who))
    }
}

#[via_fn]
proof fn total_decreases(m: Balances) {
    if m.dom().len() != 0 {
        let who = m.dom().choose();
        assert(m.dom().contains(who));
        assert(m.remove(who).dom() =~= m.dom().remove(who));
    }
}

/// No balance of the table is negative.
pub open spec fn none_negative(m: Balances) -> bool {
    forall|who: Seq<char>| #[trigger] m.contains_key(who) ==> m[who] >= 0
}

/// The balance that the table holds for `who`: zero where it holds none.
pub open spec fn balance_in(m: Balances, who: Seq<char>) -> int {
    if m.contains_key(who) {
        m[who]
    } else {
        0
    }
}

/// The sum of the empty table is zero.
pub proof fn lemma_total_empty()
    ensures
        total(Map::<Seq<char>, int>::empty()) == 0,
{
    assert(Map::<Seq<char>, int>::empty().dom() =~= Set::<Seq<char>>::empty());
}

/// The sum is the balance of any one identity plus the sum of the others.
pub proof fn lemma_total_remove(m: Balances, who: Seq<char>)
    requires
        m.dom().finite(),
        m.contains_key(who),
    ensures
        total(m) == m[who] + total(m.remove(who)),
    decreases m.dom().len(),
{
    let first = m.dom().choose();
    assert(m.dom().len() != 0);
    assert(m.remove(first).dom() =~= m.dom().remove(first));
    if first != who {
        let rest = m.remove(first);
        lemma_total_remove(rest, who);
        let others = m.remove(who);
        assert(others.dom() =~= m.dom().remove(who));
        lemma_total_remove(others, first);
        assert(rest.remove(who) =~= others.remove(first));
    }
}

/// Writing one balance moves the sum by the difference between the new
/// balance and the one that stood there.
pub proof fn lemma_total_insert(m: Balances, who: Seq<char>, amount: int)
    requires
        m.dom().finite(),
    ensures
        total(m.insert(who, amount)) == total(m) - balance_in(m, who) + amount,
{
    let written = m.insert(who, amount);
    lemma_total_remove(written, who);
    if m.contains_key(who) {
        lemma_total_remove(m, who);
        assert(written.remove(who) =~= m.remove(who));
    } else {
        assert(written.remove(who) =~= m);
    }
}

/// Where no balance is negative, neither is the sum.
pub proof fn lemma_total_not_negative(m: Balances)
    requires
        m.dom().finite(),
        none_negative(m),
    ensures
        total(m) >= 0,
    decreases m.dom().len(),
{
    if m.dom().len() != 0 {
        let who = m.dom().choose();
        assert(m.contains_key(who));
        assert(m.remove(who).dom() =~= m.dom().remove(who));
        lemma_total_not_negative(m.remove(who));
    }
}

/// Where no balance is negative, no balance is above the sum.
pub proof fn lemma_balance_within_total(m: Balances, who: Seq<char>)
    requires
        m.dom().finite(),
        none_negative(m),
    ensures
        0 <= balance_in(m, who) <= total(m),
{
    if m.contains_key(who) {
        lemma_total_remove(m, who);
        lemma_total_not_negative(m.remove(who));
    } else {
        lemma_total_not_negative(m);
    }
}

/// Where no balance is negative, the balances of two different identities
/// together are not above the sum.
pub proof fn lemma_two_balances_within_total(m: Balances, first: Seq<char>, second: Seq<char>)
    requires
        m.dom().finite(),
        none_negative(m),
        first != second,
    ensures
        balance_in(m, first) + balance_in(m, second) <= total(m),
{
    if m.contains_key(first) {
        lemma_total_remove(m, first);
        lemma_balance_within_total(m.remove(first), second);
    } else {
        lemma_balance_within_total(m, second);
    }
}

/// The table of balances that a list of rows stands for.
pub open spec fn rows_balances(rows: Seq<(Address, i128)>) -> Balances {
    rows_map(rows).map_values(|amount: i128| amount as int)
}

/// The sum of the amounts of a list of rows.
pub open spec fn rows_total(rows: Seq<(Address, i128)>) -> int
    decreases rows.len(),
{
    if rows.len() == 0 {
        0
    } else {
        rows_total(rows.drop_last()) + rows.last().1
    }
}

/// No row holds a negative amount.
pub open spec fn rows_not_negative(rows: Seq<(Address, i128)>) -> bool {
    forall|i: int| 0 <= i < rows.len() ==> (#[trigger] rows[i]).1 >= 0
}

/// The balances that rows with distinct keys stand for add up to the sum of
/// the rows, and none of them is negative exactly when no row is.
pub proof fn lemma_rows_balances(rows: Seq<(Address, i128)>)
    requires
        rows_distinct(rows),
    ensures
        rows_balances(rows).dom().finite(),
        total(rows_balances(rows)) == rows_total(rows),
        none_negative(rows_balances(rows)) <==> rows_not_negative(rows),
    decreases rows.len(),
{
    lemma_rows_map_finite(rows);
    assert(rows_balances(rows).dom() =~= rows_map(rows).dom());
    if rows.len() == 0 {
        assert(rows_balances(rows) =~= Map::<Seq<char>, int>::empty());
        lemma_total_empty();
    } else {
        let head = rows.drop_last();
        let last = rows.last();
        lemma_rows_map_last(rows);
        lemma_rows_balances(head);
        assert(rows_balances(rows) =~= rows_balances(head).insert(last.0@, last.1 as int));
        lemma_total_insert(rows_balances(head), last.0@, last.1 as int);
        if none_negative(rows_balances(rows)) {
            assert(none_negative(rows_balances(head))) by {
                assert forall|who: Seq<char>| #[trigger]
                    rows_balances(head).contains_key(who) implies rows_balances(head)[who] >= 0 by {
                    assert(rows_balances(rows).contains_key(who));
                }
            }
            assert(rows_balances(rows).contains_key(last.0@));
            assert forall|i: int| 0 <= i < rows.len() implies (#[trigger] rows[i]).1 >= 0 by {
                if i < head.len() {
                    assert(head[i] == rows[i]);
                }
            }
        }
        if rows_not_negative(rows) {
            assert forall|i: int| 0 <= i < head.len() implies (#[trigger] head[i]).1 >= 0 by {
                assert(head[i] == rows[i]);
            }
            assert(last == rows[rows.len() - 1]);
        }
    }
}

/// Where no row holds a negative amount, the sum of the first rows is not
/// above the sum of all.
pub proof fn lemma_rows_total_grows(rows: Seq<(Address, i128)>, n: int)
    requires
        rows_not_negative(rows),
        0 <= n <= rows.len(),
    ensures
        0 <= rows_total(rows.take(n)) <= rows_total(rows),
    decreases rows.len() - n,
{
    if n == rows.len() {
        assert(rows.take(n) =~= rows);
        lemma_rows_total_not_negative(rows);
    } else {
        lemma_rows_total_grows(rows, n + 1);
        assert(rows.take(n + 1).drop_last() =~= rows.take(n));
        assert(rows.take(n + 1).last() == rows[n]);
        lemma_rows_total_not_negative(rows.take(n));
    }
}

proof fn lemma_rows_total_not_negative(rows: Seq<(Address, i128)>)
    requires
        rows_not_negative(rows),
    ensures
        rows_total(rows) >= 0,
    decreases rows.len(),
{
    if rows.len() > 0 {
        assert forall|i: int| 0 <= i < rows.drop_last().len() implies (#[trigger] rows.drop_last()[i]).1
            >= 0 by {
            assert(rows.drop_last()[i] == rows[i]);
        }
        lemma_rows_total_not_negative(rows.drop_last());
        assert(rows.last() == rows[rows.len() - 1]);
    }
}

} // verus!
