//! The column of a frame: numeric or discrete, behind one interface.

use vstd::prelude::*;
use crate::comp::Comp;
use crate::discrete::{discrete_mask, DiscreteColumn};
use crate::mask::{count_true, keep};
use crate::numeric::{numeric_mask, scalar_texts, NumericColumn};
use crate::scalar::Scalar;
use crate::text::{column_text, texts};

verus! {

/// A column of either kind.
#[derive(Clone, Debug)]
pub enum Column<T> {
    Numeric(NumericColumn<T>),
    Discrete(DiscreteColumn),
}

/// What a column holds: its kind, its name and its cells in row order.
#[allow(inconsistent_fields)]
pub enum ColumnView<T> {
    Numeric { name: Seq<char>, items: Seq<T> },
    Discrete { name: Seq<char>, items: Seq<Seq<char>> },
}

/// The text inside an optional string.
pub open spec fn opt_text(s: Option<String>) -> Option<Seq<char>> {
    match s {
        Some(t) => Some(t@),
        None => None,
    }
}

impl<T> ColumnView<T> {
    /// The column's name.
    pub open spec fn name(self) -> Seq<char> {
        match self {
            ColumnView::Numeric { name, .. } => name,
            ColumnView::Discrete { name, .. } => name,
        }
    }

    /// Number of rows.
    pub open spec fn len(self) -> nat {
        match self {
            ColumnView::Numeric { items, .. } => items.len(),
            ColumnView::Discrete { items, .. } => items.len(),
        }
    }

    /// The rows that `mask` selects, under the same name and of the same
    /// kind.
    pub open spec fn masked(self, mask: Seq<bool>) -> ColumnView<T> {
        match self {
            ColumnView::Numeric { name, items } => ColumnView::Numeric {
                name,
                items: keep(items, mask),
            },
            ColumnView::Discrete { name, items } => ColumnView::Discrete {
                name,
                items: keep(items, mask),
            },
        }
    }
}

impl<T: Scalar> ColumnView<T> {
    /// The written cells, in row order.
    pub open spec fn cells(self) -> Seq<Seq<char>> {
        match self {
            ColumnView::Numeric { items, .. } => scalar_texts(items),
            ColumnView::Discrete { items, .. } => items,
        }
    }

    /// Whether the operand that the column's kind asks for is there.
    pub open spec fn accepts(self, val: Option<T>, text: Option<Seq<char>>) -> bool {
        match self {
            ColumnView::Numeric { .. } => val is Some,
            ColumnView::Discrete { .. } => text is Some,
        }
    }

    /// The row mask of a predicate. A numeric column compares each value with
    /// `val` by `op`; a discrete column tests each value for equality with
    /// `text`, whatever `op` is.
    pub open spec fn mask_for(self, op: Comp, val: Option<T>, text: Option<Seq<char>>) -> Seq<
        bool,
    > {
        match self {
            ColumnView::Numeric { items, .. } => numeric_mask(items, op, val->0),
            ColumnView::Discrete { items, .. } => discrete_mask(items, text->0),
        }
    }

    /// The written form of the column.
    pub open spec fn written(self) -> Seq<char> {
        column_text(self.name(), self.cells())
    }
}

impl<T> View for Column<T> {
    type V = ColumnView<T>;

    open spec fn view(&self) -> ColumnView<T> {
        match self {
            Column::Numeric(n) => ColumnView::Numeric { name: n.key@, items: n.items@ },
            Column::Discrete(d) => ColumnView::Discrete { name: d.key@, items: texts(d.items@) },
        }
    }
}

impl<T: Scalar> Column<T> {
    /// The column's name.
    pub fn get_key(&self) -> (r: &String)
        ensures
            r@ == self@.name(),
    {
        match self {
            Column::Discrete(x) => &x.key,
            Column::Numeric(x) => &x.key,
        }
    }

    /// The value at row `index` of a numeric column; nothing for a discrete
    /// column.
    pub fn get_num(&self, index: usize) -> (r: Option<&T>)
        requires
            self is Numeric ==> index < self@.len(),
        ensures
            match self@ {
                ColumnView::Numeric { items, .. } => r == Some(&items[index as int]),
                ColumnView::Discrete { .. } => r is None,
            },
    {
        match self {
            Column::Discrete(_) => None,
            Column::Numeric(n) => Some(n.get(index)),
        }
    }

    /// Whether the operand that the column's kind asks for is there: a
    /// scalar for a numeric column, a string for a discrete one.
    pub fn accepts(&self, val: &Option<T>, str_val: &Option<String>) -> (r: bool)
        ensures
            r == self@.accepts(*val, opt_text(*str_val)),
    {
        match self {
            Column::Discrete(_) => str_val.is_some(),
            Column::Numeric(_) => val.is_some(),
        }
    }

    /// The row mask of a predicate on this column.
    pub fn filter_array(&self, comp: Comp, val: Option<T>, str_val: Option<String>) -> (r: Vec<
        bool,
    >)
        requires
            self@.accepts(val, opt_text(str_val)),
        ensures
            r@ == self@.mask_for(comp, val, opt_text(str_val)),
    {
        match self {
            Column::Discrete(d) => d.filter_array(&str_val.unwrap()),
            Column::Numeric(n) => n.filter_array(&val.unwrap(), comp),
        }
    }

    /// The rows whose entry in `picker` is `true`, as a column of the same
    /// kind and name.
    pub fn binary_view(&self, picker: &[bool]) -> (r: Column<T>)
        requires
            picker@.len() == self@.len(),
        ensures
            r@ == self@.masked(picker@),
            r@.len() == count_true(picker@),
    {
        match self {
            Column::Numeric(n) => Column::Numeric(n.binary_view(picker)),
            Column::Discrete(d) => Column::Discrete(d.binary_view(picker)),
        }
    }

    /// The written cell at row `index`: a scalar in its canonical form, a
    /// string as it is.
    pub fn cell_text(&self, index: usize) -> (r: String)
        requires
            index < self@.len(),
        ensures
            r@ == self@.cells()[index as int],
    {
        match self {
            Column::Numeric(n) => n.get(index).render(),
            Column::Discrete(d) => d.get(index).clone(),
        }
    }

    /// Number of rows.
    pub fn len(&self) -> (r: usize)
        ensures
            r == self@.len(),
    {
        match self {
            Column::Numeric(n) => n.len(),
            Column::Discrete(d) => d.len(),
        }
    }

    /// The written form: `name: [v0, v1, ...]`.
    pub fn to_string(&self) -> (r: String)
        ensures
            r@ == self@.written(),
    {
        match self {
            Column::Numeric(n) => n.to_string(),
            Column::Discrete(d) => d.to_string(),
        }
    }
}

/// A numeric column of the given name and values.
pub fn build_column_numeric<T>(key: &str, data: Vec<T>) -> (r: Column<T>)
    ensures
        r@ == (ColumnView::Numeric { name: key@, items: data@ }),
{
    Column::Numeric(NumericColumn { key: key.to_owned(), items: data })
}

/// A discrete column of the given name and values.
pub fn build_column_discrete<T>(key: &str, data: Vec<String>) -> (r: Column<T>)
    ensures
        r@ == (ColumnView::<T>::Discrete { name: key@, items: texts(data@) }),
{
    Column::Discrete(DiscreteColumn { key: key.to_owned(), items: data })
}

} // verus!
