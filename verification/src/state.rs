//! The persisted state: ordered keyed tables and the ledger entries they
//! hold.
//!
//! A [`KeyedTable`] maps a two-component string key to a value. Its rows are
//! kept strictly sorted by key, so keys are unique and enumeration by key
//! prefix yields entries in ascending order of the second key component.

use vstd::prelude::*;

use crate::key_order::key_lt;
use crate::key_order::key_str_lt;
use crate::key_order::lemma_key_lt_connected;
use crate::key_order::lemma_key_lt_irreflexive;
use crate::key_order::lemma_key_lt_transitive;
use crate::key_order::str_eq;

verus! {

/// One stored row: the two key components and the value recorded under them.
pub struct Row<V> {
    pub k1: String,
    pub k2: String,
    pub val: V,
}

/// The entry of the native deposit ledger, keyed by (account, denomination).
#[derive(Clone, Copy, Debug, PartialEq, Eq, Structural)]
pub struct NativeEntry {
    /// Amount of the native coin held for the account.
    pub amount: u128,
    /// Incremented on each deposit, decremented on each withdrawal.
    pub count: u64,
}

/// The entry of the cw20 deposit ledger, keyed by (account, token contract).
#[derive(Clone, Copy, Debug, PartialEq, Eq, Structural)]
pub struct Cw20Entry {
    /// Amount of the cw20 token held for the account.
    pub amount: u128,
    /// Incremented on every deposit; never decremented on withdrawal.
    pub count: u64,
    /// Chain-height threshold of the lockdown timer.
    pub lockdown: u64,
}

/// Rows strictly sorted by key: this makes keys unique and enumeration
/// ordered.
pub open spec fn rows_sorted<V>(s: Seq<Row<V>>) -> bool {
    forall|i: int, j: int|
        0 <= i < j < s.len() ==> #[trigger] key_lt(s[i].k1@, s[i].k2@, s[j].k1@, s[j].k2@)
}

/// The value recorded under a key: the first (and, in a sorted table, only)
/// row whose key matches.
pub open spec fn lookup_rows<V>(s: Seq<Row<V>>, k1: Seq<char>, k2: Seq<char>) -> Option<V>
    decreases s.len(),
{
    if s.len() == 0 {
        None
    } else if s[0].k1@ == k1 && s[0].k2@ == k2 {
        Some(s[0].val)
    } else {
        lookup_rows(s.skip(1), k1, k2)
    }
}

proof fn lemma_lookup_none<V>(s: Seq<Row<V>>, k1: Seq<char>, k2: Seq<char>)
    requires
        forall|j: int| 0 <= j < s.len() ==> !((#[trigger] s[j]).k1@ == k1 && s[j].k2@ == k2),
    ensures
        lookup_rows(s, k1, k2) is None,
    decreases s.len(),
{
    if s.len() > 0 {
        assert forall|j: int| 0 <= j < s.skip(1).len() implies !((#[trigger] s.skip(1)[j]).k1@
            == k1 && s.skip(1)[j].k2@ == k2) by {
            assert(s.skip(1)[j] == s[j + 1]);
        }
        lemma_lookup_none(s.skip(1), k1, k2);
    }
}

proof fn lemma_lookup_found<V>(s: Seq<Row<V>>, i: int, k1: Seq<char>, k2: Seq<char>)
    requires
        0 <= i < s.len(),
        s[i].k1@ == k1 && s[i].k2@ == k2,
        forall|j: int| 0 <= j < i ==> !((#[trigger] s[j]).k1@ == k1 && s[j].k2@ == k2),
    ensures
        lookup_rows(s, k1, k2) == Some(s[i].val),
    decreases i,
{
    if i > 0 {
        assert forall|j: int| 0 <= j < i - 1 implies !((#[trigger] s.skip(1)[j]).k1@ == k1
            && s.skip(1)[j].k2@ == k2) by {
            assert(s.skip(1)[j] == s[j + 1]);
        }
        assert(s.skip(1)[i - 1] == s[i]);
        lemma_lookup_found(s.skip(1), i - 1, k1, k2);
    }
}

/// Replacing the row at `i` by a row with the same key changes the lookup of
/// that key and of no other.
proof fn lemma_lookup_update<V>(s: Seq<Row<V>>, i: int, r: Row<V>)
    requires
        0 <= i < s.len(),
        r.k1@ == s[i].k1@,
        r.k2@ == s[i].k2@,
        forall|j: int| 0 <= j < i ==> !((#[trigger] s[j]).k1@ == s[i].k1@ && s[j].k2@ == s[i].k2@),
    ensures
        lookup_rows(s.update(i, r), r.k1@, r.k2@) == Some(r.val),
        forall|q1: Seq<char>, q2: Seq<char>|
            !(q1 == r.k1@ && q2 == r.k2@) ==> lookup_rows(s.update(i, r), q1, q2) == lookup_rows(
                s,
                q1,
                q2,
            ),
    decreases i,
{
    let t = s.update(i, r);
    if i == 0 {
        assert(t[0] == r);
        assert(t.skip(1) =~= s.skip(1));
    } else {
        assert(t[0] == s[0]);
        assert(t.skip(1) =~= s.skip(1).update(i - 1, r));
        assert(s.skip(1)[i - 1] == s[i]);
        assert forall|j: int| 0 <= j < i - 1 implies !((#[trigger] s.skip(1)[j]).k1@
            == s.skip(1)[i - 1].k1@ && s.skip(1)[j].k2@ == s.skip(1)[i - 1].k2@) by {
            assert(s.skip(1)[j] == s[j + 1]);
        }
        lemma_lookup_update(s.skip(1), i - 1, r);
        assert(!(s[0].k1@ == r.k1@ && s[0].k2@ == r.k2@));
        assert forall|q1: Seq<char>, q2: Seq<char>| !(q1 == r.k1@ && q2 == r.k2@) implies
            lookup_rows(t, q1, q2) == lookup_rows(s, q1, q2) by {
            if s[0].k1@ == q1 && s[0].k2@ == q2 {
                assert(lookup_rows(t, q1, q2) == Some(s[0].val));
                assert(lookup_rows(s, q1, q2) == Some(s[0].val));
            } else {
                assert(lookup_rows(t, q1, q2) == lookup_rows(t.skip(1), q1, q2));
                assert(lookup_rows(s, q1, q2) == lookup_rows(s.skip(1), q1, q2));
            }
        }
    }
}

/// Inserting a row whose key is nowhere in the table makes that key's lookup
/// return the new value and changes the lookup of no other key.
proof fn lemma_lookup_insert<V>(s: Seq<Row<V>>, i: int, r: Row<V>)
    requires
        0 <= i <= s.len(),
        forall|j: int| 0 <= j < s.len() ==> !((#[trigger] s[j]).k1@ == r.k1@ && s[j].k2@ == r.k2@),
    ensures
        lookup_rows(s.insert(i, r), r.k1@, r.k2@) == Some(r.val),
        forall|q1: Seq<char>, q2: Seq<char>|
            !(q1 == r.k1@ && q2 == r.k2@) ==> lookup_rows(s.insert(i, r), q1, q2) == lookup_rows(
                s,
                q1,
                q2,
            ),
    decreases i,
{
    let t = s.insert(i, r);
    s.insert_ensures(i, r);
    if i == 0 {
        assert(t[0] == r);
        assert forall|m: int| 0 <= m < s.len() implies t[m + 1] == s[m] by {}
        assert(t.skip(1) =~= s);
    } else {
        assert(t[0] == s[0]);
        assert forall|j: int| 0 <= j < s.skip(1).len() implies !((#[trigger] s.skip(1)[j]).k1@
            == r.k1@ && s.skip(1)[j].k2@ == r.k2@) by {
            assert(s.skip(1)[j] == s[j + 1]);
        }
        lemma_lookup_insert(s.skip(1), i - 1, r);
        s.skip(1).insert_ensures(i - 1, r);
        assert(t.skip(1) =~= s.skip(1).insert(i - 1, r)) by {
            assert(t.skip(1).len() == s.skip(1).insert(i - 1, r).len());
            assert forall|m: int| 0 <= m < t.skip(1).len() implies t.skip(1)[m] == s.skip(1).insert(
                i - 1,
                r,
            )[m] by {
                assert(t.skip(1)[m] == t[m + 1]);
                if m + 1 < i {
                    assert(t[m + 1] == s[m + 1]);
                    assert(s.skip(1)[m] == s[m + 1]);
                } else if m + 1 == i {
                    assert(t[i] == r);
                } else {
                    assert(t[m + 1] == s[m]);
                    assert(s.skip(1)[m - 1] == s[m]);
                }
            }
        }
        assert(!(s[0].k1@ == r.k1@ && s[0].k2@ == r.k2@));
        assert forall|q1: Seq<char>, q2: Seq<char>| !(q1 == r.k1@ && q2 == r.k2@) implies
            lookup_rows(t, q1, q2) == lookup_rows(s, q1, q2) by {
            if s[0].k1@ == q1 && s[0].k2@ == q2 {
                assert(lookup_rows(t, q1, q2) == Some(s[0].val));
                assert(lookup_rows(s, q1, q2) == Some(s[0].val));
            } else {
                assert(lookup_rows(t, q1, q2) == lookup_rows(t.skip(1), q1, q2));
                assert(lookup_rows(s, q1, q2) == lookup_rows(s.skip(1), q1, q2));
            }
        }
    }
}

/// The (second key component, value) pairs of all rows whose first key
/// component equals `k1`, in row order.
pub open spec fn prefix_pairs<V>(s: Seq<Row<V>>, k1: Seq<char>) -> Seq<(String, V)>
    decreases s.len(),
{
    if s.len() == 0 {
        Seq::empty()
    } else if s[0].k1@ == k1 {
        seq![(s[0].k2, s[0].val)] + prefix_pairs(s.skip(1), k1)
    } else {
        prefix_pairs(s.skip(1), k1)
    }
}

/// Pairs strictly ascending in their first component.
pub open spec fn pairs_sorted<V>(p: Seq<(String, V)>) -> bool {
    forall|m: int, n: int|
        0 <= m < n < p.len() ==> #[trigger] crate::key_order::chars_lt(p[m].0@, p[n].0@)
}

proof fn lemma_rows_sorted_skip<V>(s: Seq<Row<V>>)
    requires
        rows_sorted(s),
        s.len() > 0,
    ensures
        rows_sorted(s.skip(1)),
{
    assert forall|p: int, q: int| 0 <= p < q < s.skip(1).len() implies #[trigger] key_lt(
        s.skip(1)[p].k1@,
        s.skip(1)[p].k2@,
        s.skip(1)[q].k1@,
        s.skip(1)[q].k2@,
    ) by {
        assert(s.skip(1)[p] == s[p + 1]);
        assert(s.skip(1)[q] == s[q + 1]);
        assert(key_lt(s[p + 1].k1@, s[p + 1].k2@, s[q + 1].k1@, s[q + 1].k2@));
    }
}

/// Every pair listed for `k1` has a second key component strictly above
/// `k2`, provided every row recorded under `k1` does.
proof fn lemma_prefix_pairs_above<V>(s: Seq<Row<V>>, k1: Seq<char>, k2: Seq<char>)
    requires
        forall|j: int|
            0 <= j < s.len() ==> ((#[trigger] s[j]).k1@ == k1 ==> crate::key_order::chars_lt(
                k2,
                s[j].k2@,
            )),
    ensures
        forall|m: int|
            0 <= m < prefix_pairs(s, k1).len() ==> crate::key_order::chars_lt(
                k2,
                (#[trigger] prefix_pairs(s, k1)[m]).0@,
            ),
    decreases s.len(),
{
    if s.len() > 0 {
        let rest = s.skip(1);
        assert forall|j: int|
            0 <= j < rest.len() && (#[trigger] rest[j]).k1@ == k1
            implies crate::key_order::chars_lt(k2, rest[j].k2@) by {
            assert(rest[j] == s[j + 1]);
        }
        lemma_prefix_pairs_above(rest, k1, k2);
        let pp = prefix_pairs(s, k1);
        let ppr = prefix_pairs(rest, k1);
        assert forall|m: int|
            0 <= m < pp.len() implies crate::key_order::chars_lt(k2, (#[trigger] pp[m]).0@) by {
            if s[0].k1@ == k1 {
                if m > 0 {
                    assert(pp[m] == ppr[m - 1]);
                }
            } else {
                assert(pp[m] == ppr[m]);
            }
        }
    }
}

/// In a sorted table, the pairs listed for one first key component come out
/// strictly ascending in the second component.
pub proof fn lemma_prefix_pairs_sorted<V>(s: Seq<Row<V>>, k1: Seq<char>)
    requires
        rows_sorted(s),
    ensures
        pairs_sorted(prefix_pairs(s, k1)),
    decreases s.len(),
{
    if s.len() > 0 {
        let rest = s.skip(1);
        lemma_rows_sorted_skip(s);
        lemma_prefix_pairs_sorted(rest, k1);
        let pp = prefix_pairs(s, k1);
        let ppr = prefix_pairs(rest, k1);
        if s[0].k1@ == k1 {
            assert forall|j: int|
                0 <= j < rest.len() && (#[trigger] rest[j]).k1@ == k1
                implies crate::key_order::chars_lt(s[0].k2@, rest[j].k2@) by {
                assert(rest[j] == s[j + 1]);
                assert(key_lt(s[0].k1@, s[0].k2@, s[j + 1].k1@, s[j + 1].k2@));
                crate::key_order::lemma_chars_lt_irreflexive(s[0].k1@);
            }
            lemma_prefix_pairs_above(rest, k1, s[0].k2@);
        }
        assert forall|m: int, n: int|
            0 <= m < n < pp.len() implies #[trigger] crate::key_order::chars_lt(
            pp[m].0@,
            pp[n].0@,
        ) by {
            if s[0].k1@ == k1 {
                if m == 0 {
                    assert(pp[n] == ppr[n - 1]);
                    assert(crate::key_order::chars_lt(s[0].k2@, ppr[n - 1].0@));
                } else {
                    assert(pp[m] == ppr[m - 1]);
                    assert(pp[n] == ppr[n - 1]);
                    assert(crate::key_order::chars_lt(ppr[m - 1].0@, ppr[n - 1].0@));
                }
            } else {
                assert(pp[m] == ppr[m]);
                assert(pp[n] == ppr[n]);
                assert(crate::key_order::chars_lt(ppr[m].0@, ppr[n].0@));
            }
        }
    }
}

/// A first key component under which no row is recorded lists no pairs.
pub proof fn lemma_prefix_pairs_empty<V>(s: Seq<Row<V>>, k1: Seq<char>)
    requires
        forall|j: int| 0 <= j < s.len() ==> (#[trigger] s[j]).k1@ != k1,
    ensures
        prefix_pairs(s, k1).len() == 0,
    decreases s.len(),
{
    if s.len() > 0 {
        assert forall|j: int| 0 <= j < s.skip(1).len() implies (#[trigger] s.skip(1)[j]).k1@
            != k1 by {
            assert(s.skip(1)[j] == s[j + 1]);
        }
        lemma_prefix_pairs_empty(s.skip(1), k1);
    }
}

/// An ordered table from a two-component string key to a value, with rows
/// kept strictly sorted by key.
pub struct KeyedTable<V> {
    pub rows: Vec<Row<V>>,
}

impl<V> KeyedTable<V> {
    /// Well-formedness: rows strictly sorted by key.
    pub open spec fn wf(&self) -> bool {
        rows_sorted(self.rows@)
    }

    /// The value recorded under a key, if any.
    pub open spec fn lookup(&self, k1: Seq<char>, k2: Seq<char>) -> Option<V> {
        lookup_rows(self.rows@, k1, k2)
    }

    /// Whether some value is recorded under a key.
    pub open spec fn has_entry(&self, k1: Seq<char>, k2: Seq<char>) -> bool {
        self.lookup(k1, k2) is Some
    }
}

impl<V: Copy> KeyedTable<V> {
    /// An empty table.
    pub fn new() -> (r: Self)
        ensures
            r.wf(),
            r.rows@.len() == 0,
            forall|k1: Seq<char>, k2: Seq<char>| #[trigger] r.lookup(k1, k2) is None,
    {
        let r = KeyedTable { rows: Vec::new() };
        proof {
            assert forall|k1: Seq<char>, k2: Seq<char>| #[trigger] r.lookup(k1, k2) is None by {
                lemma_lookup_none(r.rows@, k1, k2);
            }
        }
        r
    }

    /// Reads the value recorded under a key.
    pub fn load(&self, k1: &String, k2: &String) -> (r: Option<V>)
        ensures
            r == self.lookup(k1@, k2@),
    {
        let ghost s = self.rows@;
        proof {
            assert(s.skip(0) =~= s);
        }
        let n = self.rows.len();
        let mut i: usize = 0;
        while i < n
            invariant
                i <= n,
                n == s.len(),
                self.rows@ == s,
                lookup_rows(s, k1@, k2@) == lookup_rows(s.skip(i as int), k1@, k2@),
            decreases n - i,
        {
            let row = &self.rows[i];
            proof {
                assert(s.skip(i as int)[0] == s[i as int]);
            }
            if str_eq(row.k1.as_str(), k1.as_str()) && str_eq(row.k2.as_str(), k2.as_str()) {
                return Some(row.val);
            }
            proof {
                assert(s.skip(i as int).skip(1) =~= s.skip(i as int + 1));
            }
            i = i + 1;
        }
        proof {
            assert(s.skip(n as int).len() == 0);
        }
        None
    }

    /// Writes a value under a key, replacing any value recorded there, and
    /// keeping the rows sorted.
    pub fn save(&mut self, k1: &String, k2: &String, v: V)
        requires
            old(self).wf(),
        ensures
            final(self).wf(),
            final(self).lookup(k1@, k2@) == Some(v),
            forall|q1: Seq<char>, q2: Seq<char>|
                !(q1 == k1@ && q2 == k2@) ==> #[trigger] final(self).lookup(q1, q2) == old(
                    self,
                ).lookup(q1, q2),
            old(self).has_entry(k1@, k2@) ==> final(self).rows@.len() == old(self).rows@.len(),
            !old(self).has_entry(k1@, k2@) ==> final(self).rows@.len() == old(self).rows@.len()
                + 1,
    {
        let ghost s = self.rows@;
        let n = self.rows.len();
        let mut i: usize = 0;
        while i < n && key_str_lt(&self.rows[i].k1, &self.rows[i].k2, k1, k2)
            invariant
                i <= n,
                n == s.len(),
                self.rows@ == s,
                rows_sorted(s),
                forall|j: int| 0 <= j < i ==> key_lt((#[trigger] s[j]).k1@, s[j].k2@, k1@, k2@),
            decreases n - i,
        {
            i = i + 1;
        }
        let same_key = if i < n {
            str_eq(self.rows[i].k1.as_str(), k1.as_str()) && str_eq(
                self.rows[i].k2.as_str(),
                k2.as_str(),
            )
        } else {
            false
        };
        if same_key {
            proof {
                assert forall|j: int| 0 <= j < i implies !((#[trigger] s[j]).k1@ == s[i as int].k1@
                    && s[j].k2@ == s[i as int].k2@) by {
                    lemma_key_lt_irreflexive(k1@, k2@);
                }
                lemma_lookup_found(s, i as int, k1@, k2@);
            }
            let new_row = Row { k1: k1.clone(), k2: k2.clone(), val: v };
            self.rows[i] = new_row;
            proof {
                let t = self.rows@;
                assert(t == s.update(i as int, t[i as int]));
                lemma_lookup_update(s, i as int, t[i as int]);
                assert forall|p: int, q: int| 0 <= p < q < t.len() implies #[trigger] key_lt(
                    t[p].k1@,
                    t[p].k2@,
                    t[q].k1@,
                    t[q].k2@,
                ) by {
                    assert(key_lt(s[p].k1@, s[p].k2@, s[q].k1@, s[q].k2@));
                    assert(t[p].k1@ == s[p].k1@ && t[p].k2@ == s[p].k2@);
                    assert(t[q].k1@ == s[q].k1@ && t[q].k2@ == s[q].k2@);
                }
            }
        } else {
            proof {
                lemma_key_lt_irreflexive(k1@, k2@);
                assert forall|j: int| 0 <= j < s.len() implies !((#[trigger] s[j]).k1@ == k1@
                    && s[j].k2@ == k2@) by {
                    if j < i {
                    } else if j == i {
                        lemma_key_lt_connected(s[j].k1@, s[j].k2@, k1@, k2@);
                    } else {
                        if s[i as int].k1@ == k1@ && s[i as int].k2@ == k2@ {
                            lemma_key_lt_connected(s[j].k1@, s[j].k2@, k1@, k2@);
                        } else {
                            lemma_key_lt_connected(s[i as int].k1@, s[i as int].k2@, k1@, k2@);
                            assert(key_lt(s[i as int].k1@, s[i as int].k2@, s[j].k1@, s[j].k2@));
                            lemma_key_lt_transitive(
                                k1@,
                                k2@,
                                s[i as int].k1@,
                                s[i as int].k2@,
                                s[j].k1@,
                                s[j].k2@,
                            );
                        }
                    }
                }
                lemma_lookup_none(s, k1@, k2@);
            }
            let new_row = Row { k1: k1.clone(), k2: k2.clone(), val: v };
            self.rows.insert(i, new_row);
            proof {
                let t = self.rows@;
                let r = t[i as int];
                assert(t == s.insert(i as int, r)) by {
                    s.insert_ensures(i as int, t[i as int]);
                }
                lemma_lookup_insert(s, i as int, r);
                s.insert_ensures(i as int, r);
                assert(r.k1@ == k1@ && r.k2@ == k2@);
                assert forall|j: int| i < j < t.len() implies key_lt(k1@, k2@, t[j].k1@, t[j].k2@)
                    by {
                    assert(t[j] == s[j - 1]);
                    lemma_key_lt_connected(s[i as int].k1@, s[i as int].k2@, k1@, k2@);
                    if j - 1 > i {
                        assert(key_lt(
                            s[i as int].k1@,
                            s[i as int].k2@,
                            s[j - 1].k1@,
                            s[j - 1].k2@,
                        ));
                        lemma_key_lt_transitive(
                            k1@,
                            k2@,
                            s[i as int].k1@,
                            s[i as int].k2@,
                            s[j - 1].k1@,
                            s[j - 1].k2@,
                        );
                    }
                }
                assert forall|p: int, q: int| 0 <= p < q < t.len() implies #[trigger] key_lt(
                    t[p].k1@,
                    t[p].k2@,
                    t[q].k1@,
                    t[q].k2@,
                ) by {
                    if p < i && q < i {
                        assert(t[p] == s[p] && t[q] == s[q]);
                    } else if p < i && q == i {
                        assert(t[p] == s[p]);
                    } else if p < i && q > i {
                        assert(t[p] == s[p] && t[q] == s[q - 1]);
                    } else if p == i {
                        assert(key_lt(k1@, k2@, t[q].k1@, t[q].k2@));
                    } else {
                        assert(t[p] == s[p - 1] && t[q] == s[q - 1]);
                    }
                }
            }
        }
    }

    /// Lists the (second key component, value) pairs recorded under a first
    /// key component, in row order (ascending by second component when the
    /// table is well formed).
    pub fn list_by_prefix(&self, k1: &String) -> (r: Vec<(String, V)>)
        ensures
            r@ == prefix_pairs(self.rows@, k1@),
    {
        let ghost s = self.rows@;
        let mut out: Vec<(String, V)> = Vec::new();
        proof {
            assert(s.skip(0) =~= s);
            assert(out@ + prefix_pairs(s, k1@) =~= prefix_pairs(s, k1@));
        }
        let n = self.rows.len();
        let mut i: usize = 0;
        while i < n
            invariant
                i <= n,
                n == s.len(),
                self.rows@ == s,
                out@ + prefix_pairs(s.skip(i as int), k1@) == prefix_pairs(s, k1@),
            decreases n - i,
        {
            let row = &self.rows[i];
            proof {
                assert(s.skip(i as int)[0] == s[i as int]);
                assert(s.skip(i as int).skip(1) =~= s.skip(i as int + 1));
            }
            if str_eq(row.k1.as_str(), k1.as_str()) {
                let ghost out_before = out@;
                out.push((row.k2.clone(), row.val));
                proof {
                    assert(out@ =~= out_before + seq![(s[i as int].k2, s[i as int].val)]);
                    assert(out@ + prefix_pairs(s.skip(i as int + 1), k1@) =~= out_before + (seq![
                        (s[i as int].k2, s[i as int].val),
                    ] + prefix_pairs(s.skip(i as int + 1), k1@)));
                }
            }
            i = i + 1;
        }
        proof {
            assert(s.skip(n as int).len() == 0);
            assert(out@ + prefix_pairs(s.skip(n as int), k1@) =~= out@);
        }
        out
    }
}

/// The whole contract state: the two ledgers.
pub struct ContractState {
    pub deposits: KeyedTable<NativeEntry>,
    pub cw20_deposits: KeyedTable<Cw20Entry>,
}

impl ContractState {
    /// Both ledgers well-formed.
    pub open spec fn wf(&self) -> bool {
        self.deposits.wf() && self.cw20_deposits.wf()
    }

    /// The state of a freshly created contract: both ledgers empty.
    pub fn new() -> (r: Self)
        ensures
            r.wf(),
            r.deposits.rows@.len() == 0,
            r.cw20_deposits.rows@.len() == 0,
            forall|k1: Seq<char>, k2: Seq<char>| #[trigger] r.deposits.lookup(k1, k2) is None,
            forall|k1: Seq<char>, k2: Seq<char>| #[trigger] r.cw20_deposits.lookup(k1, k2) is None,
    {
        ContractState { deposits: KeyedTable::new(), cw20_deposits: KeyedTable::new() }
    }
}

} // verus!
