//! Discrete columns: one named attribute of strings across all rows.

use vstd::prelude::*;
use crate::mask::{count_true, keep, keep_len, keep_push};
use crate::text::{column_text, texts, write_column};

verus! {

/// A column of strings.
#[derive(Clone, Debug)]
pub struct DiscreteColumn {
    pub key: String,
    pub items: Vec<String>,
}

/// For each item, whether it is the text `v`.
pub open spec fn discrete_mask(items: Seq<Seq<char>>, v: Seq<char>) -> Seq<bool> {
    Seq::new(items.len(), |i: int| items[i] == v)
}

/// Whether no text occurs twice.
pub open spec fn distinct(s: Seq<Seq<char>>) -> bool {
    forall|i: int, j: int| 0 <= i < j < s.len() ==> s[i] != s[j]
}

impl DiscreteColumn {
    /// The rows whose entry in `picker` is `true`, in order, under the same
    /// name.
    pub fn binary_view(&self, picker: &[bool]) -> (r: DiscreteColumn)
        requires
            picker@.len() == self.items@.len(),
        ensures
            r.key@ == self.key@,
            texts(r.items@) == keep(texts(self.items@), picker@),
            r.items@.len() == count_true(picker@),
    {
        let ghost all = texts(self.items@);
        let mut items: Vec<String> = Vec::new();
        let mut i: usize = 0;
        while i < self.items.len()
            invariant
                0 <= i <= self.items.len(),
                picker@.len() == self.items@.len(),
                all == texts(self.items@),
                texts(items@) == keep(all.take(i as int), picker@.take(i as int)),
            decreases self.items.len() - i,
        {
            proof {
                keep_push(all.take(i as int), picker@.take(i as int), all[i as int], picker@[i as int]);
                assert(all.take(i + 1) =~= all.take(i as int).push(all[i as int]));
                assert(picker@.take(i + 1) =~= picker@.take(i as int).push(picker@[i as int]));
            }
            if picker[i] {
                let ghost before = texts(items@);
                items.push(self.items[i].clone());
                proof {
                    assert(texts(items@) =~= before.push(all[i as int]));
                }
            }
            i += 1;
        }
        proof {
            assert(all.take(i as int) =~= all);
            assert(picker@.take(i as int) =~= picker@);
            keep_len(all, picker@);
        }
        DiscreteColumn { key: self.key.clone(), items }
    }

    /// The rows from `start` up to, not including, `end`, under the same
    /// name.
    pub fn slice(&self, start: usize, end: usize) -> (r: DiscreteColumn)
        requires
            start <= end <= self.items@.len(),
        ensures
            r.key@ == self.key@,
            texts(r.items@) == texts(self.items@).subrange(start as int, end as int),
    {
        let mut items: Vec<String> = Vec::new();
        let mut i: usize = start;
        while i < end
            invariant
                start <= i <= end <= self.items@.len(),
                texts(items@) == texts(self.items@).subrange(start as int, i as int),
            decreases end - i,
        {
            let ghost before = texts(items@);
            items.push(self.items[i].clone());
            proof {
                assert(texts(items@) =~= before.push(self.items@[i as int]@));
                assert(texts(items@) =~= texts(self.items@).subrange(start as int, i + 1));
            }
            i += 1;
        }
        DiscreteColumn { key: self.key.clone(), items }
    }

    /// The values that occur in the column, each once.
    pub fn values(&self) -> (r: Vec<String>)
        ensures
            distinct(texts(r@)),
            texts(r@).to_set() == texts(self.items@).to_set(),
    {
        let ghost all = texts(self.items@);
        let mut r: Vec<String> = Vec::new();
        let mut i: usize = 0;
        while i < self.items.len()
            invariant
                0 <= i <= self.items.len(),
                all == texts(self.items@),
                distinct(texts(r@)),
                texts(r@).to_set() == all.take(i as int).to_set(),
            decreases self.items.len() - i,
        {
            let ghost before = texts(r@);
            let mut seen = false;
            let mut j: usize = 0;
            while j < r.len()
                invariant
                    0 <= j <= r.len(),
                    i < self.items.len(),
                    seen == exists|k: int| 0 <= k < j && texts(r@)[k] == self.items@[i as int]@,
                decreases r.len() - j,
            {
                if r[j] == self.items[i] {
                    seen = true;
                    assert(texts(r@)[j as int] == self.items@[i as int]@);
                }
                j += 1;
            }
            if !seen {
                r.push(self.items[i].clone());
            }
            proof {
                let x = all[i as int];
                let next = all.take(i + 1);
                let now = texts(r@);
                assert(next =~= all.take(i as int).push(x));
                if seen {
                    let k = choose|k: int| 0 <= k < before.len() && before[k] == x;
                    assert(before.contains(x));
                    assert(all.take(i as int).to_set().contains(x));
                } else {
                    assert(now =~= before.push(x));
                    assert forall|a: int, b: int| 0 <= a < b < now.len() implies now[a] != now[b] by {
                        if b == now.len() - 1 {
                            assert(before[a] == now[a]);
                        } else {
                            assert(before[a] == now[a] && before[b] == now[b]);
                        }
                    }
                }
                assert forall|t: Seq<char>| now.to_set().contains(t) <==> next.to_set().contains(
                    t,
                ) by {
                    if now.contains(t) {
                        let k = choose|k: int| 0 <= k < now.len() && now[k] == t;
                        if k < before.len() {
                            assert(before[k] == t);
                            assert(before.contains(t));
                            assert(all.take(i as int).to_set().contains(t));
                            let m = choose|m: int|
                                0 <= m < all.take(i as int).len() && all.take(i as int)[m] == t;
                            assert(next[m] == t);
                        } else {
                            assert(next[i as int] == t);
                        }
                    }
                    if next.contains(t) {
                        let m = choose|m: int| 0 <= m < next.len() && next[m] == t;
                        if m < i {
                            assert(all.take(i as int)[m] == t);
                            assert(all.take(i as int).contains(t));
                            assert(before.to_set().contains(t));
                            let k = choose|k: int| 0 <= k < before.len() && before[k] == t;
                            assert(now[k] == t);
                        } else {
                            assert(t == x);
                            if seen {
                                let k = choose|k: int| 0 <= k < before.len() && before[k] == x;
                                assert(now[k] == t);
                            } else {
                                assert(now[now.len() - 1] == t);
                            }
                        }
                    }
                }
                assert(now.to_set() =~= next.to_set());
            }
            i += 1;
        }
        proof {
            assert(all.take(i as int) =~= all);
        }
        r
    }

    /// Number of rows.
    pub fn len(&self) -> (r: usize)
        ensures
            r == self.items@.len(),
    {
        self.items.len()
    }

    /// The value at row `index`.
    pub fn get(&self, index: usize) -> (r: &String)
        requires
            index < self.items@.len(),
        ensures
            r@ == self.items@[index as int]@,
    {
        &self.items[index]
    }

    /// For each row, whether its value is `val`.
    pub fn filter_array(&self, val: &String) -> (r: Vec<bool>)
        ensures
            r@ == discrete_mask(texts(self.items@), val@),
    {
        let mut r: Vec<bool> = Vec::new();
        let mut i: usize = 0;
        while i < self.items.len()
            invariant
                0 <= i <= self.items.len(),
                r@ == discrete_mask(texts(self.items@), val@).take(i as int),
            decreases self.items.len() - i,
        {
            let b = self.items[i] == *val;
            r.push(b);
            proof {
                assert(r@ =~= discrete_mask(texts(self.items@), val@).take(i + 1));
            }
            i += 1;
        }
        proof {
            assert(r@ =~= discrete_mask(texts(self.items@), val@));
        }
        r
    }

    /// The written form: `name: [v0, v1, ...]`.
    pub fn to_string(&self) -> (r: String)
        ensures
            r@ == column_text(self.key@, texts(self.items@)),
    {
        write_column(&self.key, &self.items)
    }
}

} // verus!
