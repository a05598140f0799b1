//! Frames: columns of one common length under unique names.

use vstd::prelude::*;
use vstd::string::StringExecFns;
use crate::column::{opt_text, Column, ColumnView};
use crate::comp::Comp;
use crate::decimal::digits;
use crate::discrete::{distinct, DiscreteColumn};
use crate::mask::{count_true, keep_len};
use crate::numeric::NumericColumn;
use crate::scalar::Scalar;
use crate::text::texts;

verus! {

/// An ordered collection of columns that share a row count.
#[derive(Clone, Debug)]
pub struct NodFrame<T> {
    columns: Vec<Column<T>>,
    num_rows: usize,
    num_cols: usize,
}

/// The texts behind a sequence of string references.
pub open spec fn ref_texts(v: Seq<&String>) -> Seq<Seq<char>> {
    Seq::new(v.len(), |i: int| v[i]@)
}

/// Whether some column has the given name.
pub open spec fn has_name<T>(cols: Seq<ColumnView<T>>, name: Seq<char>) -> bool {
    exists|i: int| 0 <= i < cols.len() && (#[trigger] cols[i]).name() == name
}

/// The position of a column with the given name, where there is one.
pub open spec fn position_of<T>(cols: Seq<ColumnView<T>>, name: Seq<char>) -> int {
    choose|i: int| 0 <= i < cols.len() && (#[trigger] cols[i]).name() == name
}

/// Whether no two columns share a name.
pub open spec fn names_unique<T>(cols: Seq<ColumnView<T>>) -> bool {
    forall|i: int, j: int|
        0 <= i < j < cols.len() ==> (#[trigger] cols[i]).name() != (#[trigger] cols[j]).name()
}

/// Whether every column has `rows` rows.
pub open spec fn aligned<T>(cols: Seq<ColumnView<T>>, rows: nat) -> bool {
    forall|i: int| 0 <= i < cols.len() ==> (#[trigger] cols[i]).len() == rows
}

/// The names of the numeric columns, in frame order.
pub open spec fn numeric_names<T>(cols: Seq<ColumnView<T>>) -> Seq<Seq<char>>
    decreases cols.len(),
{
    if cols.len() == 0 {
        Seq::empty()
    } else {
        match cols.last() {
            ColumnView::Numeric { name, .. } => numeric_names(cols.drop_last()).push(name),
            ColumnView::Discrete { .. } => numeric_names(cols.drop_last()),
        }
    }
}

/// The positions of the numeric columns, in frame order.
pub open spec fn numeric_positions<T>(cols: Seq<ColumnView<T>>) -> Seq<int>
    decreases cols.len(),
{
    if cols.len() == 0 {
        Seq::empty()
    } else {
        match cols.last() {
            ColumnView::Numeric { .. } => numeric_positions(cols.drop_last()).push(cols.len() - 1),
            ColumnView::Discrete { .. } => numeric_positions(cols.drop_last()),
        }
    }
}

/// The values of row `row` in the numeric columns, in frame order.
pub open spec fn numeric_row<T>(cols: Seq<ColumnView<T>>, row: int) -> Seq<T>
    decreases cols.len(),
{
    if cols.len() == 0 {
        Seq::empty()
    } else {
        match cols.last() {
            ColumnView::Numeric { items, .. } => numeric_row(cols.drop_last(), row).push(
                items[row],
            ),
            ColumnView::Discrete { .. } => numeric_row(cols.drop_last(), row),
        }
    }
}

/// The written columns, each followed by a line break.
pub open spec fn columns_text<T: Scalar>(cols: Seq<ColumnView<T>>) -> Seq<char>
    decreases cols.len(),
{
    if cols.len() == 0 {
        Seq::empty()
    } else {
        columns_text(cols.drop_last()) + cols.last().written() + seq!['\n']
    }
}

/// The written form of a frame: a heading line, a line for each column, and
/// the row count.
pub open spec fn frame_text<T: Scalar>(cols: Seq<ColumnView<T>>, rows: nat) -> Seq<char> {
    seq!['f', 'r', 'a', 'm', 'e', ':', '\n'] + columns_text(cols) + seq![
        'N',
        'u',
        'm',
        ' ',
        'R',
        'o',
        'w',
        's',
        ':',
        ' ',
    ] + digits(rows)
}

/// Every column restricted to the rows that `mask` selects.
pub open spec fn masked_all<T>(cols: Seq<ColumnView<T>>, mask: Seq<bool>) -> Seq<ColumnView<T>> {
    Seq::new(cols.len(), |i: int| cols[i].masked(mask))
}

/// Whether a predicate can be asked of the columns: the named column is
/// there and the operand that its kind asks for is given.
pub open spec fn can_filter<T: Scalar>(
    cols: Seq<ColumnView<T>>,
    name: Seq<char>,
    val: Option<T>,
    text: Option<Seq<char>>,
) -> bool {
    has_name(cols, name) && cols[position_of(cols, name)].accepts(val, text)
}

/// The row mask of a predicate on the named column.
pub open spec fn filter_mask<T: Scalar>(
    cols: Seq<ColumnView<T>>,
    name: Seq<char>,
    op: Comp,
    val: Option<T>,
    text: Option<Seq<char>>,
) -> Seq<bool> {
    cols[position_of(cols, name)].mask_for(op, val, text)
}

impl<T> NodFrame<T> {
    /// The columns, in frame order.
    pub closed spec fn cols(&self) -> Seq<ColumnView<T>> {
        Seq::new(self.columns@.len(), |i: int| self.columns@[i]@)
    }

    /// The recorded number of rows.
    pub closed spec fn rows(&self) -> nat {
        self.num_rows as nat
    }

    /// The recorded number of columns.
    pub closed spec fn width(&self) -> nat {
        self.num_cols as nat
    }

    /// The frame's invariant: at least one column, the recorded counts are
    /// the true ones, every column has as many rows as the frame, and no
    /// name occurs twice.
    pub open spec fn wf(&self) -> bool {
        &&& self.cols().len() > 0
        &&& self.width() == self.cols().len()
        &&& aligned(self.cols(), self.rows())
        &&& names_unique(self.cols())
    }
}

impl<T: Scalar> NodFrame<T> {
    /// Number of rows.
    pub fn num_rows(&self) -> (r: usize)
        ensures
            r == self.rows(),
    {
        self.num_rows
    }

    /// Number of columns.
    pub fn num_cols(&self) -> (r: usize)
        ensures
            r == self.width(),
    {
        self.num_cols
    }

    /// The column at position `index`.
    pub fn column(&self, index: usize) -> (r: &Column<T>)
        requires
            index < self.cols().len(),
        ensures
            r@ == self.cols()[index as int],
    {
        &self.columns[index]
    }

    /// The position of the column named `name`, if there is one.
    pub fn position(&self, name: &String) -> (r: Option<usize>)
        requires
            self.wf(),
        ensures
            match r {
                Some(i) => has_name(self.cols(), name@) && i == position_of(self.cols(), name@),
                None => !has_name(self.cols(), name@),
            },
    {
        let mut i: usize = 0;
        while i < self.columns.len()
            invariant
                0 <= i <= self.columns.len(),
                self.wf(),
                forall|k: int| 0 <= k < i ==> (#[trigger] self.cols()[k]).name() != name@,
            decreases self.columns.len() - i,
        {
            if *self.columns[i].get_key() == *name {
                proof {
                    assert(self.cols()[i as int].name() == name@);
                    let p = position_of(self.cols(), name@);
                    assert(self.cols()[p].name() == name@);
                    if p < i {
                        assert(self.cols()[p].name() != self.cols()[i as int].name());
                    }
                    if i < p {
                        assert(self.cols()[i as int].name() != self.cols()[p].name());
                    }
                }
                return Some(i);
            }
            i += 1;
        }
        None
    }

    /// The names of the numeric columns, in frame order.
    pub fn numeric_cols(&self) -> (r: Vec<&String>)
        ensures
            ref_texts(r@) == numeric_names(self.cols()),
    {
        let mut r: Vec<&String> = Vec::new();
        let mut i: usize = 0;
        while i < self.columns.len()
            invariant
                0 <= i <= self.columns.len(),
                ref_texts(r@) == numeric_names(self.cols().take(i as int)),
            decreases self.columns.len() - i,
        {
            let ghost before = ref_texts(r@);
            proof {
                assert(self.cols().take(i + 1).drop_last() =~= self.cols().take(i as int));
                assert(self.cols().take(i + 1).last() == self.columns@[i as int]@);
            }
            if let Column::Numeric(a) = &self.columns[i] {
                r.push(&a.key);
                proof {
                    assert(ref_texts(r@) =~= before.push(a.key@));
                }
            }
            i += 1;
        }
        proof {
            assert(self.cols().take(i as int) =~= self.cols());
        }
        r
    }

    /// The positions of the numeric columns, in frame order.
    pub fn numeric_index(&self) -> (r: Vec<usize>)
        ensures
            r@.map_values(|p: usize| p as int) == numeric_positions(self.cols()),
    {
        let mut r: Vec<usize> = Vec::new();
        let mut i: usize = 0;
        while i < self.columns.len()
            invariant
                0 <= i <= self.columns.len(),
                r@.map_values(|p: usize| p as int) == numeric_positions(
                    self.cols().take(i as int),
                ),
            decreases self.columns.len() - i,
        {
            let ghost before = r@.map_values(|p: usize| p as int);
            proof {
                assert(self.cols().take(i + 1).drop_last() =~= self.cols().take(i as int));
                assert(self.cols().take(i + 1).last() == self.columns@[i as int]@);
            }
            if let Column::Numeric(_) = &self.columns[i] {
                r.push(i);
                proof {
                    assert(r@.map_values(|p: usize| p as int) =~= before.push(i as int));
                }
            }
            i += 1;
        }
        proof {
            assert(self.cols().take(i as int) =~= self.cols());
        }
        r
    }

    /// The numeric part of the frame, row by row: one row per frame row, one
    /// entry per numeric column in frame order.
    pub fn numeric_rows(&self) -> (r: Vec<Vec<T>>)
        requires
            self.wf(),
        ensures
            r@.len() == self.rows(),
            forall|i: int| 0 <= i < r@.len() ==> (#[trigger] r@[i])@ == numeric_row(self.cols(), i),
    {
        let mut data: Vec<Vec<T>> = Vec::new();
        let mut i: usize = 0;
        while i < self.num_rows
            invariant
                0 <= i <= self.num_rows,
                self.wf(),
                data@.len() == i,
                forall|k: int|
                    0 <= k < data@.len() ==> (#[trigger] data@[k])@ == numeric_row(self.cols(), k),
            decreases self.num_rows - i,
        {
            let mut row: Vec<T> = Vec::new();
            let mut c: usize = 0;
            while c < self.columns.len()
                invariant
                    0 <= c <= self.columns.len(),
                    i < self.num_rows,
                    self.wf(),
                    row@ == numeric_row(self.cols().take(c as int), i as int),
                decreases self.columns.len() - c,
            {
                proof {
                    assert(self.cols().take(c + 1).drop_last() =~= self.cols().take(c as int));
                    assert(self.cols().take(c + 1).last() == self.columns@[c as int]@);
                    assert(self.cols()[c as int].len() == self.rows());
                }
                match self.columns[c].get_num(i) {
                    Some(v) => {
                        row.push(*v);
                    },
                    None => {},
                }
                c += 1;
            }
            proof {
                assert(self.cols().take(c as int) =~= self.cols());
            }
            data.push(row);
            i += 1;
        }
        data
    }

    /// The rows on which the predicate on column `col` holds, in every
    /// column alike: each column of the result is the column of `self` at
    /// the same position under the one mask that the predicate gives.
    pub fn filter_frame(
        &self,
        col: String,
        comp: Comp,
        val: Option<T>,
        str_val: Option<String>,
    ) -> (r: NodFrame<T>)
        requires
            self.wf(),
            can_filter(self.cols(), col@, val, opt_text(str_val)),
        ensures
            r.wf(),
            r.cols() == masked_all(
                self.cols(),
                filter_mask(self.cols(), col@, comp, val, opt_text(str_val)),
            ),
            r.rows() == count_true(
                filter_mask(self.cols(), col@, comp, val, opt_text(str_val)),
            ),
            r.width() == self.width(),
    {
        let col_idx = self.position(&col).unwrap();
        let picker = self.columns[col_idx].filter_array(comp, val, str_val);
        let ghost mask = picker@;
        proof {
            assert(self.cols()[col_idx as int].len() == self.rows());
            assert(mask.len() == self.rows());
        }
        let mut columns: Vec<Column<T>> = Vec::new();
        let mut i: usize = 0;
        while i < self.columns.len()
            invariant
                0 <= i <= self.columns.len(),
                self.wf(),
                mask == picker@,
                mask.len() == self.rows(),
                columns@.len() == i,
                forall|k: int|
                    0 <= k < i ==> (#[trigger] columns@[k])@ == self.cols()[k].masked(mask),
            decreases self.columns.len() - i,
        {
            proof {
                assert(self.cols()[i as int].len() == self.rows());
            }
            let kept = self.columns[i].binary_view(picker.as_slice());
            columns.push(kept);
            i += 1;
        }
        let num_rows = columns[0].len();
        let r = NodFrame { columns, num_rows, num_cols: self.num_cols };
        proof {
            assert(r.cols() =~= masked_all(self.cols(), mask));
            assert forall|k: int| 0 <= k < r.cols().len() implies (#[trigger] r.cols()[k]).len()
                == count_true(mask) && r.cols()[k].name() == self.cols()[k].name() by {
                assert(self.cols()[k].len() == self.rows());
                match self.cols()[k] {
                    ColumnView::Numeric { name, items } => {
                        keep_len(items, mask);
                    },
                    ColumnView::Discrete { name, items } => {
                        keep_len(items, mask);
                    },
                }
            }
            assert(r.cols()[0].len() == count_true(mask));
            assert forall|a: int, b: int| 0 <= a < b < r.cols().len() implies (
            #[trigger] r.cols()[a]).name() != (#[trigger] r.cols()[b]).name() by {
                assert(self.cols()[a].name() != self.cols()[b].name());
            }
        }
        r
    }

    /// The written form: `frame:`, a line for each column, and
    /// `Num Rows: ` with the row count.
    pub fn to_string(&self) -> (r: String)
        ensures
            r@ == frame_text(self.cols(), self.rows()),
    {
        proof {
            reveal_strlit("frame:\n");
            reveal_strlit("\n");
            reveal_strlit("Num Rows: ");
            assert("frame:\n"@ =~= seq!['f', 'r', 'a', 'm', 'e', ':', '\n']);
            assert("\n"@ =~= seq!['\n']);
            assert("Num Rows: "@ =~= seq!['N', 'u', 'm', ' ', 'R', 'o', 'w', 's', ':', ' ']);
        }
        let mut result = String::from_str("frame:\n");
        let mut i: usize = 0;
        while i < self.columns.len()
            invariant
                0 <= i <= self.columns.len(),
                "\n"@ == seq!['\n'],
                result@ == "frame:\n"@ + columns_text(self.cols().take(i as int)),
            decreases self.columns.len() - i,
        {
            proof {
                assert(self.cols().take(i + 1).drop_last() =~= self.cols().take(i as int));
                assert(self.cols().take(i + 1).last() == self.columns@[i as int]@);
            }
            let ghost before = result@;
            let line = self.columns[i].to_string();
            result.append(line.as_str());
            result.append("\n");
            proof {
                assert(result@ =~= "frame:\n"@ + columns_text(self.cols().take(i + 1)));
            }
            i += 1;
        }
        proof {
            assert(self.cols().take(i as int) =~= self.cols());
        }
        result.append("Num Rows: ");
        let count = self.num_rows.render();
        result.append(count.as_str());
        result
    }

    /// As `filter_frame`, where the predicate can be asked; nothing where
    /// the named column is missing or the operand for its kind is not given.
    pub fn try_filter_frame(
        &self,
        col: String,
        comp: Comp,
        val: Option<T>,
        str_val: Option<String>,
    ) -> (r: Option<NodFrame<T>>)
        requires
            self.wf(),
        ensures
            r is Some == can_filter(self.cols(), col@, val, opt_text(str_val)),
            r is Some ==> {
                &&& r->0.wf()
                &&& r->0.cols() == masked_all(
                    self.cols(),
                    filter_mask(self.cols(), col@, comp, val, opt_text(str_val)),
                )
                &&& r->0.rows() == count_true(
                    filter_mask(self.cols(), col@, comp, val, opt_text(str_val)),
                )
                &&& r->0.width() == self.width()
            },
    {
        match self.position(&col) {
            None => None,
            Some(i) => {
                if self.columns[i].accepts(&val, &str_val) {
                    Some(self.filter_frame(col, comp, val, str_val))
                } else {
                    None
                }
            },
        }
    }
}

/// The smaller of two lengths: how many pairs a list of names and a list of
/// data make.
pub open spec fn paired(keys: nat, data: nat) -> nat {
    if keys <= data {
        keys
    } else {
        data
    }
}

/// The columns that names and data make: the numeric ones first, then the
/// discrete ones, each list in the order given. A name or a data vector
/// without a partner is left out.
pub open spec fn built_columns<T>(
    num_keys: Seq<String>,
    num_data: Seq<Vec<T>>,
    str_keys: Seq<String>,
    str_data: Seq<Vec<String>>,
) -> Seq<ColumnView<T>> {
    let n = paired(num_keys.len(), num_data.len());
    let m = paired(str_keys.len(), str_data.len());
    Seq::new(
        n + m,
        |i: int|
            if i < n {
                ColumnView::Numeric { name: num_keys[i]@, items: num_data[i]@ }
            } else {
                ColumnView::Discrete { name: str_keys[i - n]@, items: texts(str_data[i - n]@) }
            },
    )
}

/// Whether names and data make a frame: there is a numeric column, every
/// column has as many rows as the first numeric one, and no name occurs
/// twice.
pub open spec fn buildable<T>(
    num_keys: Seq<String>,
    num_data: Seq<Vec<T>>,
    str_keys: Seq<String>,
    str_data: Seq<Vec<String>>,
) -> bool {
    &&& num_keys.len() > 0
    &&& num_data.len() > 0
    &&& aligned(built_columns(num_keys, num_data, str_keys, str_data), num_data[0]@.len())
    &&& names_unique(built_columns(num_keys, num_data, str_keys, str_data))
}

fn copy_values<T: Copy>(v: &Vec<T>) -> (r: Vec<T>)
    ensures
        r@ == v@,
{
    let mut r: Vec<T> = Vec::new();
    let mut i: usize = 0;
    while i < v.len()
        invariant
            0 <= i <= v.len(),
            r@ == v@.take(i as int),
        decreases v.len() - i,
    {
        r.push(v[i]);
        proof {
            assert(r@ =~= v@.take(i + 1));
        }
        i += 1;
    }
    proof {
        assert(v@.take(i as int) =~= v@);
    }
    r
}

fn copy_texts(v: &Vec<String>) -> (r: Vec<String>)
    ensures
        texts(r@) == texts(v@),
{
    let mut r: Vec<String> = Vec::new();
    let mut i: usize = 0;
    while i < v.len()
        invariant
            0 <= i <= v.len(),
            texts(r@) == texts(v@).take(i as int),
        decreases v.len() - i,
    {
        let ghost before = texts(r@);
        r.push(v[i].clone());
        proof {
            assert(texts(r@) =~= before.push(v@[i as int]@));
            assert(texts(r@) =~= texts(v@).take(i + 1));
        }
        i += 1;
    }
    proof {
        assert(texts(v@).take(i as int) =~= texts(v@));
    }
    r
}

/// Builds a frame from names and data: the numeric columns first, then the
/// discrete ones. The row count is the length of the first numeric column.
pub fn frame_from_vecs<T: Scalar>(
    num_keys: Vec<String>,
    num_data: Vec<Vec<T>>,
    str_keys: Vec<String>,
    str_data: Vec<Vec<String>>,
) -> (r: NodFrame<T>)
    requires
        buildable(num_keys@, num_data@, str_keys@, str_data@),
    ensures
        r.wf(),
        r.cols() == built_columns(num_keys@, num_data@, str_keys@, str_data@),
        r.rows() == num_data@[0]@.len(),
{
    let ghost target = built_columns(num_keys@, num_data@, str_keys@, str_data@);
    let data_rows = num_data[0].len();
    let n = if num_keys.len() <= num_data.len() {
        num_keys.len()
    } else {
        num_data.len()
    };
    let m = if str_keys.len() <= str_data.len() {
        str_keys.len()
    } else {
        str_data.len()
    };
    let mut cols: Vec<Column<T>> = Vec::new();
    let mut i: usize = 0;
    while i < n
        invariant
            0 <= i <= n,
            n == paired(num_keys@.len(), num_data@.len()),
            m == paired(str_keys@.len(), str_data@.len()),
            target == built_columns(num_keys@, num_data@, str_keys@, str_data@),
            cols@.len() == i,
            forall|k: int| 0 <= k < i ==> (#[trigger] cols@[k])@ == target[k],
        decreases n - i,
    {
        cols.push(
            Column::Numeric(
                NumericColumn { key: num_keys[i].clone(), items: copy_values(&num_data[i]) },
            ),
        );
        i += 1;
    }
    let mut j: usize = 0;
    while j < m
        invariant
            0 <= j <= m,
            n == paired(num_keys@.len(), num_data@.len()),
            m == paired(str_keys@.len(), str_data@.len()),
            target == built_columns(num_keys@, num_data@, str_keys@, str_data@),
            cols@.len() == n + j,
            forall|k: int| 0 <= k < n + j ==> (#[trigger] cols@[k])@ == target[k],
        decreases m - j,
    {
        cols.push(
            Column::Discrete(
                DiscreteColumn { key: str_keys[j].clone(), items: copy_texts(&str_data[j]) },
            ),
        );
        j += 1;
    }
    let r = NodFrame { num_cols: cols.len(), columns: cols, num_rows: data_rows };
    proof {
        assert(r.cols() =~= target);
    }
    r
}

/// Whether no text occurs twice among `names`.
pub fn all_distinct(names: &Vec<&String>) -> (r: bool)
    ensures
        r == distinct(ref_texts(names@)),
{
    let ghost t = ref_texts(names@);
    let mut a: usize = 0;
    while a < names.len()
        invariant
            0 <= a <= names.len(),
            t == ref_texts(names@),
            forall|i: int, j: int| 0 <= i < a && i < j < t.len() ==> t[i] != t[j],
        decreases names.len() - a,
    {
        let mut b: usize = a + 1;
        while b < names.len()
            invariant
                a < b <= names.len(),
                t == ref_texts(names@),
                forall|j: int| a < j < b ==> t[a as int] != t[j],
            decreases names.len() - b,
        {
            if *names[a] == *names[b] {
                proof {
                    assert(t[a as int] == t[b as int]);
                }
                return false;
            }
            b += 1;
        }
        a += 1;
    }
    true
}

/// Whether names and data make a frame.
pub fn can_build<T>(
    num_keys: &Vec<String>,
    num_data: &Vec<Vec<T>>,
    str_keys: &Vec<String>,
    str_data: &Vec<Vec<String>>,
) -> (r: bool)
    ensures
        r == buildable(num_keys@, num_data@, str_keys@, str_data@),
{
    let ghost target = built_columns(num_keys@, num_data@, str_keys@, str_data@);
    if num_keys.len() == 0 || num_data.len() == 0 {
        return false;
    }
    let rows = num_data[0].len();
    let n = if num_keys.len() <= num_data.len() {
        num_keys.len()
    } else {
        num_data.len()
    };
    let m = if str_keys.len() <= str_data.len() {
        str_keys.len()
    } else {
        str_data.len()
    };
    let mut names: Vec<&String> = Vec::new();
    let mut i: usize = 0;
    while i < n
        invariant
            0 <= i <= n,
            n == paired(num_keys@.len(), num_data@.len()),
            m == paired(str_keys@.len(), str_data@.len()),
            target == built_columns(num_keys@, num_data@, str_keys@, str_data@),
            num_data@.len() > 0,
            rows == num_data@[0]@.len(),
            names@.len() == i,
            forall|k: int| 0 <= k < i ==> (#[trigger] names@[k])@ == target[k].name(),
            forall|k: int| 0 <= k < i ==> (#[trigger] target[k]).len() == rows,
        decreases n - i,
    {
        if num_data[i].len() != rows {
            proof {
                assert(target[i as int].len() != rows);
            }
            return false;
        }
        names.push(&num_keys[i]);
        i += 1;
    }
    let mut j: usize = 0;
    while j < m
        invariant
            0 <= j <= m,
            n == paired(num_keys@.len(), num_data@.len()),
            m == paired(str_keys@.len(), str_data@.len()),
            target == built_columns(num_keys@, num_data@, str_keys@, str_data@),
            num_data@.len() > 0,
            rows == num_data@[0]@.len(),
            names@.len() == n + j,
            forall|k: int| 0 <= k < n + j ==> (#[trigger] names@[k])@ == target[k].name(),
            forall|k: int| 0 <= k < n + j ==> (#[trigger] target[k]).len() == rows,
        decreases m - j,
    {
        if str_data[j].len() != rows {
            proof {
                assert(target[n + j].len() != rows);
            }
            return false;
        }
        names.push(&str_keys[j]);
        j += 1;
    }
    let unique = all_distinct(&names);
    proof {
        let t = ref_texts(names@);
        assert(t.len() == target.len());
        assert forall|k: int| 0 <= k < t.len() implies t[k] == (#[trigger] target[k]).name() by {
            assert(names@[k]@ == target[k].name());
        }
        if unique {
            assert forall|a: int, b: int| 0 <= a < b < target.len() implies (
            #[trigger] target[a]).name() != (#[trigger] target[b]).name() by {
                assert(t[a] != t[b]);
            }
        } else {
            let (a, b) = choose|a: int, b: int| 0 <= a < b < t.len() && t[a] == t[b];
            assert(target[a].name() == target[b].name());
        }
    }
    unique
}

/// As `frame_from_vecs`, where names and data make a frame; nothing where
/// they do not.
pub fn try_frame_from_vecs<T: Scalar>(
    num_keys: Vec<String>,
    num_data: Vec<Vec<T>>,
    str_keys: Vec<String>,
    str_data: Vec<Vec<String>>,
) -> (r: Option<NodFrame<T>>)
    ensures
        r is Some == buildable(num_keys@, num_data@, str_keys@, str_data@),
        r is Some ==> {
            &&& r->0.wf()
            &&& r->0.cols() == built_columns(num_keys@, num_data@, str_keys@, str_data@)
            &&& r->0.rows() == num_data@[0]@.len()
        },
{
    if can_build(&num_keys, &num_data, &str_keys, &str_data) {
        Some(frame_from_vecs(num_keys, num_data, str_keys, str_data))
    } else {
        None
    }
}

/// Under unique names the position found by name is the position of the
/// column that bears the name: looking up is the inverse of naming.
pub proof fn position_of_own_name<T>(cols: Seq<ColumnView<T>>, i: int)
    requires
        names_unique(cols),
        0 <= i < cols.len(),
    ensures
        has_name(cols, cols[i].name()),
        position_of(cols, cols[i].name()) == i,
{
    let p = position_of(cols, cols[i].name());
    assert(cols[i].name() == cols[i].name());
    if p < i {
        assert(cols[p].name() != cols[i].name());
    }
    if i < p {
        assert(cols[i].name() != cols[p].name());
    }
}

/// Selecting rows keeps the column set: as many columns, each under its
/// name and of its kind, and all of one length, the number of selected
/// rows.
pub proof fn masked_all_keeps_columns<T>(
    cols: Seq<ColumnView<T>>,
    rows: nat,
    mask: Seq<bool>,
)
    requires
        aligned(cols, rows),
        mask.len() == rows,
    ensures
        masked_all(cols, mask).len() == cols.len(),
        aligned(masked_all(cols, mask), count_true(mask)),
        forall|c: int|
            0 <= c < cols.len() ==> (#[trigger] masked_all(cols, mask)[c]).name()
                == cols[c].name(),
        forall|c: int|
            0 <= c < cols.len() ==> ((#[trigger] masked_all(cols, mask)[c]) is Numeric
                <==> cols[c] is Numeric),
{
    assert forall|c: int| 0 <= c < cols.len() implies (#[trigger] masked_all(cols, mask)[c]).len()
        == count_true(mask) by {
        assert(cols[c].len() == rows);
        match cols[c] {
            ColumnView::Numeric { name, items } => {
                keep_len(items, mask);
            },
            ColumnView::Discrete { name, items } => {
                keep_len(items, mask);
            },
        }
    }
}

/// Whether the operand of an equality predicate occurs nowhere in the
/// column.
pub open spec fn absent<T: Scalar>(
    col: ColumnView<T>,
    val: Option<T>,
    text: Option<Seq<char>>,
) -> bool {
    match col {
        ColumnView::Numeric { items, .. } => forall|i: int|
            0 <= i < items.len() ==> (#[trigger] items[i]).rank() != val->0.rank(),
        ColumnView::Discrete { items, .. } => forall|i: int|
            0 <= i < items.len() ==> #[trigger] items[i] != text->0,
    }
}

/// Filtering for equality with a value that the column does not hold
/// selects no row: every column of the result is empty, and the result has
/// the columns of the input, each under its name and of its kind.
pub proof fn filter_for_absent_value<T: Scalar>(
    cols: Seq<ColumnView<T>>,
    rows: nat,
    name: Seq<char>,
    val: Option<T>,
    text: Option<Seq<char>>,
)
    requires
        aligned(cols, rows),
        can_filter(cols, name, val, text),
        absent(cols[position_of(cols, name)], val, text),
    ensures
        count_true(filter_mask(cols, name, Comp::Eq, val, text)) == 0,
        masked_all(cols, filter_mask(cols, name, Comp::Eq, val, text)).len() == cols.len(),
        forall|c: int|
            0 <= c < cols.len() ==> {
                let kept = #[trigger] masked_all(
                    cols,
                    filter_mask(cols, name, Comp::Eq, val, text),
                )[c];
                &&& kept.len() == 0
                &&& kept.name() == cols[c].name()
                &&& (kept is Numeric <==> cols[c] is Numeric)
            },
{
    let mask = filter_mask(cols, name, Comp::Eq, val, text);
    let col = cols[position_of(cols, name)];
    assert(col.len() == rows);
    assert forall|i: int| 0 <= i < mask.len() implies !mask[i] by {
        match col {
            ColumnView::Numeric { items, .. } => {
                assert(items[i].rank() != val->0.rank());
            },
            ColumnView::Discrete { items, .. } => {
                assert(items[i] != text->0);
            },
        }
    }
    crate::mask::keep_none(mask, mask);
    masked_all_keeps_columns(cols, rows, mask);
}

} // verus!
