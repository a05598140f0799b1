//! The delimited-text codec: the `csv` crate's reader and writer on bytes
//! in memory.

use vstd::prelude::*;
use crate::text::texts;

verus! {

/// The error type of the `csv` crate.
#[verifier::external_type_specification]
#[verifier::external_body]
pub struct ExCsvError(csv::Error);

/// The texts of a table of strings, row by row.
pub open spec fn table_texts(rows: Seq<Vec<String>>) -> Seq<Seq<Seq<char>>> {
    Seq::new(rows.len(), |i: int| texts(rows[i]@))
}

/// Whether every row has `width` fields.
pub open spec fn rectangular(rows: Seq<Seq<Seq<char>>>, width: nat) -> bool {
    forall|i: int| 0 <= i < rows.len() ==> (#[trigger] rows[i]).len() == width
}

/// The header and the data rows that the `csv` reader, as `csv::Reader`
/// configures it, finds in a text; nothing where it reports an error.
pub uninterp spec fn csv_table(bytes: Seq<u8>) -> Option<(Seq<Seq<char>>, Seq<Seq<Seq<char>>>)>;

/// The text that the `csv` writer, as `csv::Writer` configures it, makes of
/// a header and data rows; nothing where it reports an error.
pub uninterp spec fn csv_bytes(header: Seq<Seq<char>>, rows: Seq<Seq<Seq<char>>>) -> Option<
    Seq<u8>,
>;

/// Reads a table with `csv::Reader::from_reader`, `headers` and `records`:
/// the first record is the header, the others are the data rows. The result
/// is what `csv_table` names. The reader is not flexible, so where it
/// succeeds every data row has as many fields as the header.
#[verifier::external_body]
pub(crate) fn read_table(bytes: &[u8]) -> (r: Result<(Vec<String>, Vec<Vec<String>>), csv::Error>)
    ensures
        match r {
            Ok(t) => csv_table(bytes@) == Some((texts(t.0@), table_texts(t.1@))) && rectangular(
                table_texts(t.1@),
                t.0@.len(),
            ),
            Err(_) => csv_table(bytes@) is None,
        },
{
    let mut reader = csv::Reader::from_reader(bytes);
    let header: Vec<String> = reader.headers()?.iter().map(String::from).collect();
    let rows: Result<Vec<Vec<String>>, csv::Error> = reader.records().map(
        |rec| rec.map(|fields| fields.iter().map(String::from).collect()),
    ).collect();
    Ok((header, rows?))
}

/// Writes a table with `csv::Writer::from_writer`, `write_record` and
/// `into_inner`: the header as the first record, then the data rows. The
/// result is what `csv_bytes` names.
#[verifier::external_body]
pub(crate) fn write_table(header: &Vec<String>, rows: &Vec<Vec<String>>) -> (r: Result<
    Vec<u8>,
    csv::Error,
>)
    ensures
        match r {
            Ok(b) => csv_bytes(texts(header@), table_texts(rows@)) == Some(b@),
            Err(_) => csv_bytes(texts(header@), table_texts(rows@)) is None,
        },
{
    let mut writer = csv::Writer::from_writer(Vec::new());
    writer.write_record(header)?;
    for row in rows {
        writer.write_record(row)?;
    }
    writer.into_inner().map_err(|e| csv::Error::from(e.into_error()))
}

/// The message of a `csv::Error`, by its `Display`.
#[verifier::external_body]
pub(crate) fn error_text(e: &csv::Error) -> String {
    e.to_string()
}

} // verus!
