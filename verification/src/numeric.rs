//! Numeric columns: one named attribute of scalars across all rows.

use vstd::prelude::*;
use std::collections::HashSet;
use crate::comp::{compare, holds, Comp};
use crate::mask::{count_true, keep, keep_len, keep_push};
use crate::scalar::Scalar;
use crate::text::{column_text, texts, write_column};

verus! {

/// A column of scalars.
#[derive(Clone, Debug)]
pub struct NumericColumn<T> {
    pub key: String,
    pub items: Vec<T>,
}

/// For each item, whether `item op v` holds.
pub open spec fn numeric_mask<T: Scalar>(items: Seq<T>, op: Comp, v: T) -> Seq<bool> {
    Seq::new(items.len(), |i: int| holds(items[i].rank(), op, v.rank()))
}

/// The written forms of a sequence of scalars.
pub open spec fn scalar_texts<T: Scalar>(items: Seq<T>) -> Seq<Seq<char>> {
    Seq::new(items.len(), |i: int| items[i].text())
}

impl<T: Scalar> NumericColumn<T> {
    /// The rows whose entry in `picker` is `true`, in order, under the same
    /// name.
    pub fn binary_view(&self, picker: &[bool]) -> (r: NumericColumn<T>)
        requires
            picker@.len() == self.items@.len(),
        ensures
            r.key@ == self.key@,
            r.items@ == keep(self.items@, picker@),
            r.items@.len() == count_true(picker@),
    {
        let mut items: Vec<T> = Vec::new();
        let mut i: usize = 0;
        while i < self.items.len()
            invariant
                0 <= i <= self.items.len(),
                picker@.len() == self.items@.len(),
                items@ == keep(self.items@.take(i as int), picker@.take(i as int)),
            decreases self.items.len() - i,
        {
            proof {
                keep_push(
                    self.items@.take(i as int),
                    picker@.take(i as int),
                    self.items@[i as int],
                    picker@[i as int],
                );
                assert(self.items@.take(i + 1) =~= self.items@.take(i as int).push(
                    self.items@[i as int],
                ));
                assert(picker@.take(i + 1) =~= picker@.take(i as int).push(picker@[i as int]));
            }
            if picker[i] {
                items.push(self.items[i]);
            }
            i += 1;
        }
        proof {
            assert(self.items@.take(i as int) =~= self.items@);
            assert(picker@.take(i as int) =~= picker@);
            keep_len(self.items@, picker@);
        }
        NumericColumn { key: self.key.clone(), items }
    }

    /// The rows from `start` up to, not including, `end`, under the same
    /// name.
    pub fn slice(&self, start: usize, end: usize) -> (r: NumericColumn<T>)
        requires
            start <= end <= self.items@.len(),
        ensures
            r.key@ == self.key@,
            r.items@ == self.items@.subrange(start as int, end as int),
    {
        let mut items: Vec<T> = Vec::new();
        let mut i: usize = start;
        while i < end
            invariant
                start <= i <= end <= self.items@.len(),
                items@ == self.items@.subrange(start as int, i as int),
            decreases end - i,
        {
            items.push(self.items[i]);
            proof {
                assert(items@ =~= self.items@.subrange(start as int, i + 1));
            }
            i += 1;
        }
        NumericColumn { key: self.key.clone(), items }
    }

    /// The set of values that occur in the column.
    pub fn values(&self) -> (r: HashSet<T>)
        ensures
            r@ == self.items@.to_set(),
    {
        broadcast use vstd::std_specs::hash::group_hash_axioms;

        proof {
            T::hashes_by_value();
        }
        let mut r: HashSet<T> = HashSet::new();
        let mut i: usize = 0;
        while i < self.items.len()
            invariant
                0 <= i <= self.items.len(),
                vstd::std_specs::hash::obeys_key_model::<T>(),
                r@ == self.items@.take(i as int).to_set(),
            decreases self.items.len() - i,
        {
            r.insert(self.items[i]);
            proof {
                let before = self.items@.take(i as int);
                let after = self.items@.take(i + 1);
                assert(after =~= before.push(self.items@[i as int]));
                assert forall|x: T| after.to_set().contains(x) <==> before.to_set().insert(
                    self.items@[i as int],
                ).contains(x) by {
                    if after.contains(x) {
                        let j = choose|j: int| 0 <= j < after.len() && after[j] == x;
                        if j < i {
                            assert(before[j] == x);
                        }
                    }
                    if before.contains(x) {
                        let j = choose|j: int| 0 <= j < before.len() && before[j] == x;
                        assert(after[j] == x);
                    }
                    assert(after[i as int] == self.items@[i as int]);
                }
                assert(after.to_set() =~= before.to_set().insert(self.items@[i as int]));
            }
            i += 1;
        }
        proof {
            assert(self.items@.take(i as int) =~= self.items@);
        }
        r
    }

    /// Number of rows.
    pub fn len(&self) -> (r: usize)
        ensures
            r == self.items@.len(),
    {
        self.items.len()
    }

    /// The value at row `index`.
    pub fn get(&self, index: usize) -> (r: &T)
        requires
            index < self.items@.len(),
        ensures
            *r == self.items@[index as int],
    {
        &self.items[index]
    }

    /// For each row, whether `item comparison val` holds.
    pub fn filter_array(&self, val: &T, comparison: Comp) -> (r: Vec<bool>)
        ensures
            r@ == numeric_mask(self.items@, comparison, *val),
    {
        let mut r: Vec<bool> = Vec::new();
        let mut i: usize = 0;
        while i < self.items.len()
            invariant
                0 <= i <= self.items.len(),
                r@ == numeric_mask(self.items@, comparison, *val).take(i as int),
            decreases self.items.len() - i,
        {
            let b = compare(self.items[i], &comparison, *val);
            r.push(b);
            proof {
                assert(r@ =~= numeric_mask(self.items@, comparison, *val).take(i + 1));
            }
            i += 1;
        }
        proof {
            assert(r@ =~= numeric_mask(self.items@, comparison, *val));
        }
        r
    }

    /// The written form: `name: [v0, v1, ...]`.
    pub fn to_string(&self) -> (r: String)
        ensures
            r@ == column_text(self.key@, scalar_texts(self.items@)),
    {
        let mut cells: Vec<String> = Vec::new();
        let mut i: usize = 0;
        while i < self.items.len()
            invariant
                0 <= i <= self.items.len(),
                texts(cells@) == scalar_texts(self.items@).take(i as int),
            decreases self.items.len() - i,
        {
            let ghost before = texts(cells@);
            let cell = self.items[i].render();
            cells.push(cell);
            proof {
                assert(texts(cells@) =~= before.push(self.items@[i as int].text()));
                assert(texts(cells@) =~= scalar_texts(self.items@).take(i + 1));
            }
            i += 1;
        }
        proof {
            assert(texts(cells@) =~= scalar_texts(self.items@));
        }
        write_column(&self.key, &cells)
    }
}

/// The set of values does not depend on the order of the rows: two
/// sequences with the same entries, each as often in the one as in the
/// other, have the same set of values.
pub proof fn values_ignore_order<A>(a: Seq<A>, b: Seq<A>)
    requires
        a.to_multiset() == b.to_multiset(),
    ensures
        a.to_set() == b.to_set(),
{
    a.to_multiset_ensures();
    b.to_multiset_ensures();
    assert forall|x: A| a.to_set().contains(x) <==> b.to_set().contains(x) by {
        assert(a.contains(x) <==> a.to_multiset().count(x) > 0);
        assert(b.contains(x) <==> b.to_multiset().count(x) > 0);
    }
    assert(a.to_set() =~= b.to_set());
}

} // verus!
