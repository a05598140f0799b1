//! Frames and delimited text: a frame as a table of strings, and a table of
//! strings as a frame.

use vstd::prelude::*;
use crate::codec::{
    csv_bytes, csv_table, error_text, read_table, rectangular, table_texts, write_table,
};
use crate::column::ColumnView;
use crate::frame::{aligned, built_columns, names_unique, try_frame_from_vecs, NodFrame};
use crate::mask::{
    inverse, keep, keep_agree, keep_from, keep_index, keep_push, keep_then_rest,
};
use crate::scalar::Scalar;
use crate::text::texts;

verus! {

/// Why a frame could not be read or written.
#[derive(Debug, Clone, PartialEq, Eq)]
pub enum FrameError {
    /// The codec reported an error; its message.
    Codec(String),
    /// A data row has more or fewer fields than the header.
    UnequalLengths,
    /// The table has no data row.
    NoRows,
    /// No column reads as numeric.
    NoNumericColumn,
    /// Two columns share a name.
    DuplicateName,
}

/// The names of the columns, in frame order.
pub open spec fn names<T>(cols: Seq<ColumnView<T>>) -> Seq<Seq<char>> {
    Seq::new(cols.len(), |c: int| cols[c].name())
}

/// Row `row` of the frame as written cells, one for each column in frame
/// order.
pub open spec fn record<T: Scalar>(cols: Seq<ColumnView<T>>, row: int) -> Seq<Seq<char>> {
    Seq::new(cols.len(), |c: int| cols[c].cells()[row])
}

/// The data rows of the frame as written cells.
pub open spec fn records<T: Scalar>(cols: Seq<ColumnView<T>>, rows: nat) -> Seq<Seq<Seq<char>>> {
    Seq::new(rows, |i: int| record(cols, i))
}

impl<T: Scalar> NodFrame<T> {
    /// The frame as a table of strings: the column names, and one record of
    /// written cells for each row.
    pub fn to_table(&self) -> (r: (Vec<String>, Vec<Vec<String>>))
        requires
            self.wf(),
        ensures
            texts(r.0@) == names(self.cols()),
            table_texts(r.1@) == records(self.cols(), self.rows()),
    {
        let width = self.num_cols();
        let height = self.num_rows();
        let mut header: Vec<String> = Vec::new();
        let mut c: usize = 0;
        while c < width
            invariant
                0 <= c <= width,
                width == self.cols().len(),
                texts(header@) == names(self.cols()).take(c as int),
            decreases width - c,
        {
            let ghost before = texts(header@);
            header.push(self.column(c).get_key().clone());
            proof {
                assert(texts(header@) =~= before.push(self.cols()[c as int].name()));
                assert(texts(header@) =~= names(self.cols()).take(c + 1));
            }
            c += 1;
        }
        proof {
            assert(names(self.cols()).take(c as int) =~= names(self.cols()));
        }
        let mut rows: Vec<Vec<String>> = Vec::new();
        let mut i: usize = 0;
        while i < height
            invariant
                0 <= i <= height,
                self.wf(),
                width == self.cols().len(),
                height == self.rows(),
                table_texts(rows@) == records(self.cols(), self.rows()).take(i as int),
            decreases height - i,
        {
            let mut row: Vec<String> = Vec::new();
            let mut k: usize = 0;
            while k < width
                invariant
                    0 <= k <= width,
                    i < height,
                    self.wf(),
                    width == self.cols().len(),
                    height == self.rows(),
                    texts(row@) == record(self.cols(), i as int).take(k as int),
                decreases width - k,
            {
                let ghost before = texts(row@);
                proof {
                    assert(self.cols()[k as int].len() == self.rows());
                }
                row.push(self.column(k).cell_text(i));
                proof {
                    assert(texts(row@) =~= before.push(self.cols()[k as int].cells()[i as int]));
                    assert(texts(row@) =~= record(self.cols(), i as int).take(k + 1));
                }
                k += 1;
            }
            proof {
                assert(record(self.cols(), i as int).take(k as int) =~= record(
                    self.cols(),
                    i as int,
                ));
            }
            let ghost before = table_texts(rows@);
            rows.push(row);
            proof {
                assert(table_texts(rows@) =~= before.push(record(self.cols(), i as int)));
                assert(table_texts(rows@) =~= records(self.cols(), self.rows()).take(i + 1));
            }
            i += 1;
        }
        proof {
            assert(records(self.cols(), self.rows()).take(i as int) =~= records(
                self.cols(),
                self.rows(),
            ));
        }
        (header, rows)
    }

    /// The frame as delimited text: the column names as the first record,
    /// then one record for each row. The text is what the codec makes of
    /// the table; where the codec reports an error, its message comes back.
    pub fn to_csv(&self) -> (r: Result<Vec<u8>, FrameError>)
        requires
            self.wf(),
        ensures
            match csv_bytes(names(self.cols()), records(self.cols(), self.rows())) {
                Some(b) => r matches Ok(v) && v@ == b,
                None => r matches Err(FrameError::Codec(_)),
            },
    {
        let (header, rows) = self.to_table();
        match write_table(&header, &rows) {
            Ok(bytes) => Ok(bytes),
            Err(e) => Err(FrameError::Codec(error_text(&e))),
        }
    }
}

/// Column `c` of a table of fields, top to bottom.
pub open spec fn field_column(rows: Seq<Seq<Seq<char>>>, c: int) -> Seq<Seq<char>> {
    Seq::new(rows.len(), |i: int| rows[i][c])
}

/// Whether every cell reads as a scalar.
pub open spec fn reads_as<T: Scalar>(cells: Seq<Seq<char>>) -> bool {
    forall|i: int| 0 <= i < cells.len() ==> T::parsed(#[trigger] cells[i]) is Some
}

/// The scalars that the cells read as.
pub open spec fn read_values<T: Scalar>(cells: Seq<Seq<char>>) -> Seq<T> {
    Seq::new(cells.len(), |i: int| T::parsed(cells[i])->0)
}

/// For each column of the table, whether it is numeric: whether every one
/// of its cells reads as a scalar.
pub open spec fn kinds<T: Scalar>(header: Seq<Seq<char>>, rows: Seq<Seq<Seq<char>>>) -> Seq<bool> {
    Seq::new(header.len(), |c: int| reads_as::<T>(field_column(rows, c)))
}

/// Every column of the table read as a numeric column.
pub open spec fn as_numeric<T: Scalar>(
    header: Seq<Seq<char>>,
    rows: Seq<Seq<Seq<char>>>,
) -> Seq<ColumnView<T>> {
    Seq::new(
        header.len(),
        |c: int|
            ColumnView::Numeric { name: header[c], items: read_values::<T>(field_column(rows, c)) },
    )
}

/// Every column of the table taken as a discrete column.
pub open spec fn as_discrete<T>(header: Seq<Seq<char>>, rows: Seq<Seq<Seq<char>>>) -> Seq<
    ColumnView<T>,
> {
    Seq::new(
        header.len(),
        |c: int| ColumnView::Discrete { name: header[c], items: field_column(rows, c) },
    )
}

/// The numeric columns of the table, in header order.
pub open spec fn numeric_part<T: Scalar>(
    header: Seq<Seq<char>>,
    rows: Seq<Seq<Seq<char>>>,
) -> Seq<ColumnView<T>> {
    keep(as_numeric::<T>(header, rows), kinds::<T>(header, rows))
}

/// The discrete columns of the table, in header order.
pub open spec fn discrete_part<T: Scalar>(
    header: Seq<Seq<char>>,
    rows: Seq<Seq<Seq<char>>>,
) -> Seq<ColumnView<T>> {
    keep(as_discrete::<T>(header, rows), inverse(kinds::<T>(header, rows)))
}

/// The columns of the frame that a table is read as: the numeric columns,
/// then the discrete ones.
pub open spec fn loaded_columns<T: Scalar>(
    header: Seq<Seq<char>>,
    rows: Seq<Seq<Seq<char>>>,
) -> Seq<ColumnView<T>> {
    numeric_part::<T>(header, rows) + discrete_part::<T>(header, rows)
}

/// Why a table is not read as a frame, if it is not.
pub open spec fn load_fault<T: Scalar>(
    header: Seq<Seq<char>>,
    rows: Seq<Seq<Seq<char>>>,
) -> Option<FrameError> {
    if !rectangular(rows, header.len()) {
        Some(FrameError::UnequalLengths)
    } else if rows.len() == 0 {
        Some(FrameError::NoRows)
    } else if numeric_part::<T>(header, rows).len() == 0 {
        Some(FrameError::NoNumericColumn)
    } else if !names_unique(loaded_columns::<T>(header, rows)) {
        Some(FrameError::DuplicateName)
    } else {
        None
    }
}

/// Whether `r` is what reading the table gives: the fault where there is
/// one, else the frame of the loaded columns with one row for each data
/// row.
pub open spec fn loads_as<T: Scalar>(
    header: Seq<Seq<char>>,
    rows: Seq<Seq<Seq<char>>>,
    r: Result<NodFrame<T>, FrameError>,
) -> bool {
    match load_fault::<T>(header, rows) {
        Some(e) => r == Err::<NodFrame<T>, FrameError>(e),
        None => {
            &&& r matches Ok(f)
            &&& f.wf()
            &&& f.cols() == loaded_columns::<T>(header, rows)
            &&& f.rows() == rows.len()
        },
    }
}

fn parse_column<T: Scalar>(rows: &Vec<Vec<String>>, c: usize) -> (r: Option<Vec<T>>)
    requires
        forall|i: int| 0 <= i < rows@.len() ==> c < (#[trigger] rows@[i])@.len(),
    ensures
        match r {
            Some(v) => reads_as::<T>(field_column(table_texts(rows@), c as int)) && v@
                == read_values::<T>(field_column(table_texts(rows@), c as int)),
            None => !reads_as::<T>(field_column(table_texts(rows@), c as int)),
        },
{
    let ghost cells = field_column(table_texts(rows@), c as int);
    let mut v: Vec<T> = Vec::new();
    let mut i: usize = 0;
    while i < rows.len()
        invariant
            0 <= i <= rows.len(),
            cells == field_column(table_texts(rows@), c as int),
            forall|k: int| 0 <= k < rows@.len() ==> c < (#[trigger] rows@[k])@.len(),
            forall|k: int| 0 <= k < i ==> T::parsed(#[trigger] cells[k]) is Some,
            v@ == read_values::<T>(cells).take(i as int),
        decreases rows.len() - i,
    {
        proof {
            assert(c < rows@[i as int]@.len());
            assert(cells[i as int] == rows@[i as int]@[c as int]@);
        }
        match T::parse(rows[i][c].as_str()) {
            Some(x) => {
                v.push(x);
                proof {
                    assert(v@ =~= read_values::<T>(cells).take(i + 1));
                }
            },
            None => {
                proof {
                    assert(T::parsed(cells[i as int]) is None);
                }
                return None;
            },
        }
        i += 1;
    }
    proof {
        assert(v@ =~= read_values::<T>(cells));
    }
    Some(v)
}

fn copy_column(rows: &Vec<Vec<String>>, c: usize) -> (r: Vec<String>)
    requires
        forall|i: int| 0 <= i < rows@.len() ==> c < (#[trigger] rows@[i])@.len(),
    ensures
        texts(r@) == field_column(table_texts(rows@), c as int),
{
    let ghost cells = field_column(table_texts(rows@), c as int);
    let mut v: Vec<String> = Vec::new();
    let mut i: usize = 0;
    while i < rows.len()
        invariant
            0 <= i <= rows.len(),
            cells == field_column(table_texts(rows@), c as int),
            forall|k: int| 0 <= k < rows@.len() ==> c < (#[trigger] rows@[k])@.len(),
            texts(v@) == cells.take(i as int),
        decreases rows.len() - i,
    {
        let ghost before = texts(v@);
        proof {
            assert(c < rows@[i as int]@.len());
        }
        v.push(rows[i][c].clone());
        proof {
            assert(texts(v@) =~= before.push(rows@[i as int]@[c as int]@));
            assert(texts(v@) =~= cells.take(i + 1));
        }
        i += 1;
    }
    proof {
        assert(texts(v@) =~= cells);
    }
    v
}

/// The numeric columns that names and data make.
spec fn numeric_views<T>(keys: Seq<String>, data: Seq<Vec<T>>) -> Seq<ColumnView<T>> {
    Seq::new(keys.len(), |k: int| ColumnView::Numeric { name: keys[k]@, items: data[k]@ })
}

/// The discrete columns that names and data make.
spec fn discrete_views<T>(keys: Seq<String>, data: Seq<Vec<String>>) -> Seq<
    ColumnView<T>,
> {
    Seq::new(keys.len(), |k: int| ColumnView::Discrete { name: keys[k]@, items: texts(data[k]@) })
}

/// Reads a table of strings as a frame. A column is numeric where every
/// one of its cells reads as a scalar, and discrete otherwise; the numeric
/// columns come first. A table with rows of unequal length, without a data
/// row, without a numeric column or with a name that occurs twice is not
/// read.
pub fn frame_from_table<T: Scalar>(header: Vec<String>, rows: Vec<Vec<String>>) -> (r: Result<
    NodFrame<T>,
    FrameError,
>)
    ensures
        loads_as(texts(header@), table_texts(rows@), r),
{
    let ghost h = texts(header@);
    let ghost t = table_texts(rows@);
    let width = header.len();
    let mut i: usize = 0;
    while i < rows.len()
        invariant
            0 <= i <= rows.len(),
            t == table_texts(rows@),
            width == header@.len(),
            forall|k: int| 0 <= k < i ==> (#[trigger] t[k]).len() == width,
        decreases rows.len() - i,
    {
        if rows[i].len() != width {
            proof {
                assert(t[i as int].len() != width);
            }
            return Err(FrameError::UnequalLengths);
        }
        i += 1;
    }
    if rows.len() == 0 {
        return Err(FrameError::NoRows);
    }
    proof {
        assert forall|k: int| 0 <= k < rows@.len() implies (#[trigger] rows@[k])@.len()
            == width by {
            assert(t[k].len() == width);
        }
    }
    let ghost flags = kinds::<T>(h, t);
    let ghost others = inverse(kinds::<T>(h, t));
    let ghost all_num = as_numeric::<T>(h, t);
    let ghost all_disc = as_discrete::<T>(h, t);
    let mut num_keys: Vec<String> = Vec::new();
    let mut num_data: Vec<Vec<T>> = Vec::new();
    let mut str_keys: Vec<String> = Vec::new();
    let mut str_data: Vec<Vec<String>> = Vec::new();
    let mut c: usize = 0;
    while c < width
        invariant
            0 <= c <= width,
            width == header@.len(),
            h == texts(header@),
            t == table_texts(rows@),
            flags == kinds::<T>(h, t),
            others == inverse(kinds::<T>(h, t)),
            all_num == as_numeric::<T>(h, t),
            all_disc == as_discrete::<T>(h, t),
            forall|k: int| 0 <= k < rows@.len() ==> (#[trigger] rows@[k])@.len() == width,
            num_keys@.len() == num_data@.len(),
            str_keys@.len() == str_data@.len(),
            numeric_views(num_keys@, num_data@) == keep(
                all_num.take(c as int),
                flags.take(c as int),
            ),
            discrete_views::<T>(str_keys@, str_data@) == keep(
                all_disc.take(c as int),
                others.take(c as int),
            ),
        decreases width - c,
    {
        proof {
            keep_push(all_num.take(c as int), flags.take(c as int), all_num[c as int], flags[c as int]);
            keep_push(
                all_disc.take(c as int),
                others.take(c as int),
                all_disc[c as int],
                others[c as int],
            );
            assert(all_num.take(c + 1) =~= all_num.take(c as int).push(all_num[c as int]));
            assert(all_disc.take(c + 1) =~= all_disc.take(c as int).push(all_disc[c as int]));
            assert(flags.take(c + 1) =~= flags.take(c as int).push(flags[c as int]));
            assert(others.take(c + 1) =~= others.take(c as int).push(others[c as int]));
        }
        let ghost num_before = numeric_views(num_keys@, num_data@);
        let ghost disc_before = discrete_views::<T>(str_keys@, str_data@);
        match parse_column::<T>(&rows, c) {
            Some(v) => {
                num_keys.push(header[c].clone());
                num_data.push(v);
                proof {
                    assert(numeric_views(num_keys@, num_data@) =~= num_before.push(
                        all_num[c as int],
                    ));
                    assert(discrete_views::<T>(str_keys@, str_data@) =~= disc_before);
                }
            },
            None => {
                str_keys.push(header[c].clone());
                str_data.push(copy_column(&rows, c));
                proof {
                    assert(discrete_views::<T>(str_keys@, str_data@) =~= disc_before.push(
                        all_disc[c as int],
                    ));
                    assert(numeric_views(num_keys@, num_data@) =~= num_before);
                }
            },
        }
        c += 1;
    }
    proof {
        assert(all_num.take(c as int) =~= all_num);
        assert(all_disc.take(c as int) =~= all_disc);
        assert(flags.take(c as int) =~= flags);
        assert(others.take(c as int) =~= others);
        assert(numeric_views(num_keys@, num_data@).len() == num_keys@.len());
    }
    if num_keys.len() == 0 {
        return Err(FrameError::NoNumericColumn);
    }
    proof {
        let target = built_columns(num_keys@, num_data@, str_keys@, str_data@);
        let nv = numeric_views(num_keys@, num_data@);
        let dv = discrete_views::<T>(str_keys@, str_data@);
        assert(target =~= nv + dv);
        assert(target == loaded_columns::<T>(h, t));
        loaded_columns_aligned::<T>(h, t);
        assert(target[0].len() == t.len());
        assert(target[0] == nv[0]);
        assert(aligned(target, num_data@[0]@.len()));
    }
    match try_frame_from_vecs(num_keys, num_data, str_keys, str_data) {
        Some(f) => Ok(f),
        None => Err(FrameError::DuplicateName),
    }
}

/// Every loaded column has one cell for each data row.
pub proof fn loaded_columns_aligned<T: Scalar>(header: Seq<Seq<char>>, rows: Seq<Seq<Seq<char>>>)
    ensures
        aligned(loaded_columns::<T>(header, rows), rows.len()),
{
    let flags = kinds::<T>(header, rows);
    let others = inverse(kinds::<T>(header, rows));
    let np = numeric_part::<T>(header, rows);
    let dp = discrete_part::<T>(header, rows);
    keep_from(as_numeric::<T>(header, rows), flags);
    keep_from(as_discrete::<T>(header, rows), others);
    assert forall|i: int| 0 <= i < loaded_columns::<T>(header, rows).len() implies (
    #[trigger] loaded_columns::<T>(header, rows)[i]).len() == rows.len() by {
        if i < np.len() {
            assert(loaded_columns::<T>(header, rows)[i] == np[i]);
        } else {
            assert(loaded_columns::<T>(header, rows)[i] == dp[i - np.len()]);
        }
    }
}

/// Reads delimited text as a frame: the codec finds the header and the
/// data rows, and `frame_from_table` reads them. Where the codec reports
/// an error, its message comes back.
pub fn frame_from_csv<T: Scalar>(text: &[u8]) -> (r: Result<NodFrame<T>, FrameError>)
    ensures
        match csv_table(text@) {
            Some(table) => loads_as(table.0, table.1, r),
            None => r matches Err(FrameError::Codec(_)),
        },
{
    match read_table(text) {
        Ok(table) => frame_from_table(table.0, table.1),
        Err(e) => Err(FrameError::Codec(error_text(&e))),
    }
}

/// Whether every numeric column stands before every discrete one.
pub open spec fn numeric_first<T>(cols: Seq<ColumnView<T>>) -> bool {
    forall|i: int, j: int|
        0 <= i < j < cols.len() && (#[trigger] cols[j]) is Numeric ==> (
        #[trigger] cols[i]) is Numeric
}

/// Whether a column, once written, is read as a column of the same kind: a
/// discrete column has a cell that does not read as a scalar.
pub open spec fn keeps_kind<T: Scalar>(col: ColumnView<T>) -> bool {
    match col {
        ColumnView::Numeric { .. } => true,
        ColumnView::Discrete { items, .. } => !reads_as::<T>(items),
    }
}

/// Reading the table of a frame gives the frame's columns back, where the
/// numeric columns stand first and every discrete column has a cell that
/// does not read as a scalar.
pub proof fn table_round_trip<T: Scalar>(cols: Seq<ColumnView<T>>, rows: nat)
    requires
        aligned(cols, rows),
        numeric_first(cols),
        forall|c: int| 0 <= c < cols.len() ==> keeps_kind(#[trigger] cols[c]),
    ensures
        loaded_columns::<T>(names(cols), records(cols, rows)) == cols,
{
    let h = names(cols);
    let t = records(cols, rows);
    let flags = kinds::<T>(h, t);
    let nums = as_numeric::<T>(h, t);
    let discs = as_discrete::<T>(h, t);
    assert forall|c: int| 0 <= c < cols.len() implies (flags[c] <==> (#[trigger] cols[c]) is Numeric)
        && (flags[c] ==> nums[c] == cols[c]) && (!flags[c] ==> discs[c] == cols[c]) by {
        let cells = field_column(t, c);
        assert(cols[c].len() == rows);
        assert(keeps_kind(cols[c]));
        assert(cells =~= cols[c].cells());
        match cols[c] {
            ColumnView::Numeric { name, items } => {
                assert forall|i: int| 0 <= i < cells.len() implies T::parsed(
                    #[trigger] cells[i],
                ) == Some(items[i]) by {
                    T::text_reads_back(items[i]);
                }
                assert(read_values::<T>(cells) =~= items);
            },
            ColumnView::Discrete { name, items } => {},
        }
    }
    assert forall|i: int, j: int| 0 <= i < j < flags.len() && flags[j] implies flags[i] by {
        assert(cols[j] is Numeric);
        assert(cols[i] is Numeric);
    }
    keep_agree(nums, cols, flags);
    keep_agree(discs, cols, inverse(flags));
    keep_then_rest(cols, flags);
}

/// A frame that was written as a table is read from it: where it has a
/// row, a numeric column at its head and unique names, and is read back
/// column by column as `table_round_trip` says, reading its table finds no
/// fault and gives its columns and its row count.
pub proof fn written_table_loads<T: Scalar>(
    cols: Seq<ColumnView<T>>,
    rows: nat,
    r: Result<NodFrame<T>, FrameError>,
)
    requires
        aligned(cols, rows),
        names_unique(cols),
        numeric_first(cols),
        forall|c: int| 0 <= c < cols.len() ==> keeps_kind(#[trigger] cols[c]),
        rows > 0,
        cols.len() > 0,
        cols[0] is Numeric,
        loads_as(names(cols), records(cols, rows), r),
    ensures
        r matches Ok(f) && f.wf() && f.cols() == cols && f.rows() == rows,
{
    let h = names(cols);
    let t = records(cols, rows);
    table_round_trip(cols, rows);
    let flags = kinds::<T>(h, t);
    let nums = as_numeric::<T>(h, t);
    assert(flags[0]) by {
        let cells = field_column(t, 0);
        assert(cols[0].len() == rows);
        assert(cells =~= cols[0].cells());
        match cols[0] {
            ColumnView::Numeric { name, items } => {
                assert forall|i: int| 0 <= i < cells.len() implies T::parsed(
                    #[trigger] cells[i],
                ) is Some by {
                    T::text_reads_back(items[i]);
                }
            },
            ColumnView::Discrete { .. } => {},
        }
    }
    keep_index(nums, flags, 0);
    assert(numeric_part::<T>(h, t).len() > 0);
    assert(rectangular(t, h.len()));
}

/// The columns that names and data make have the numeric ones first.
pub proof fn built_columns_numeric_first<T>(
    num_keys: Seq<String>,
    num_data: Seq<Vec<T>>,
    str_keys: Seq<String>,
    str_data: Seq<Vec<String>>,
)
    ensures
        numeric_first(built_columns(num_keys, num_data, str_keys, str_data)),
{
}

} // verus!
