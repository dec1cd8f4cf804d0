//! The comma-separated table, as the `csv` crate reads and writes it.
//!
//! Nothing in this file is proved: it states what the rest of the crate takes
//! from `csv`. What the writer writes is stated in full. What the reader
//! yields is a function of the bytes handed over, and gets a name under which
//! contracts can speak of it.

use vstd::prelude::*;
use vstd::utf8::encode_utf8;
use crate::text::texts;

verus! {

/// Trusted: the error type of the `csv` crate, carried through unread.
#[verifier::external_type_specification]
#[verifier::external_body]
pub struct ExCsvError(csv::Error);

/// The rows below the header row that a `csv::Reader` with its default
/// settings yields for the bytes `data`, each row as its fields in order, or
/// `None` where the reader reports an error before it reaches the end.
pub uninterp spec fn read_rows(data: Seq<u8>) -> Option<Seq<Seq<Seq<char>>>>;

/// The bytes that make a field be written between quotes: the delimiter `,`,
/// the quote `"`, and the line ends `\r` and `\n`.
pub open spec fn is_special_byte(b: u8) -> bool {
    b == 0x2c || b == 0x22 || b == 0x0d || b == 0x0a
}

/// Whether a field is written between quotes: it is where it holds a special
/// byte.
pub open spec fn needs_quotes(field: Seq<u8>) -> bool {
    exists|i: int| 0 <= i < field.len() && is_special_byte(#[trigger] field[i])
}

/// The bytes of a field with every quote written twice.
pub open spec fn with_doubled_quotes(field: Seq<u8>) -> Seq<u8>
    decreases field.len(),
{
    if field.len() == 0 {
        Seq::empty()
    } else if field.last() == 0x22 {
        with_doubled_quotes(field.drop_last()) + seq![0x22u8, 0x22u8]
    } else {
        with_doubled_quotes(field.drop_last()) + seq![field.last()]
    }
}

/// The bytes written for one field: the field as it is, or between quotes
/// with its own quotes doubled.
pub open spec fn written_field(field: Seq<u8>) -> Seq<u8> {
    if needs_quotes(field) {
        seq![0x22u8] + with_doubled_quotes(field) + seq![0x22u8]
    } else {
        field
    }
}

/// The bytes written for the fields of one record, with a `,` between each
/// two.
pub open spec fn written_fields(fields: Seq<Seq<u8>>) -> Seq<u8>
    decreases fields.len(),
{
    if fields.len() == 0 {
        Seq::empty()
    } else if fields.len() == 1 {
        written_field(fields[0])
    } else {
        written_fields(fields.drop_last()) + seq![0x2cu8] + written_field(fields.last())
    }
}

/// The UTF-8 form of each field of a record.
pub open spec fn field_bytes(fields: Seq<Seq<char>>) -> Seq<Seq<u8>> {
    Seq::new(fields.len(), |i: int| encode_utf8(fields[i]))
}

/// The bytes that a fresh `csv::Writer` with its default settings writes for
/// one record with the given fields: the fields, then `\n`. A record that
/// would come out empty is written as `""`.
pub open spec fn written_row(fields: Seq<Seq<char>>) -> Seq<u8> {
    let body = written_fields(field_bytes(fields));
    if body.len() == 0 {
        seq![0x22u8, 0x22u8, 0x0au8]
    } else {
        body + seq![0x0au8]
    }
}

/// The fields of each row of a list, in order.
pub open spec fn rows_view(rows: Seq<Vec<String>>) -> Seq<Seq<Seq<char>>> {
    Seq::new(rows.len(), |i: int| texts(rows[i]@))
}

/// Trusted: `csv::Reader::from_reader` on a byte slice, walked to its end with
/// `Reader::records`. The reader's default settings treat the first record as
/// a header and leave it out. The call returns the remaining records, each
/// field copied into a `String`, and stops at the first record for which the
/// reader gives an error, returning that error. The outcome depends on the
/// bytes alone.
#[verifier::external_body]
pub(crate) fn parse_table(data: &[u8]) -> (parsed: Result<Vec<Vec<String>>, csv::Error>)
    ensures
        match parsed {
            Ok(rows) => read_rows(data@) == Some(rows_view(rows@)),
            Err(_) => read_rows(data@) is None,
        },
{
    let mut reader = csv::Reader::from_reader(data);
    let mut rows: Vec<Vec<String>> = Vec::new();
    for record in reader.records() {
        rows.push(record?.iter().map(String::from).collect());
    }
    Ok(rows)
}

/// Trusted: `csv::Writer::write_record` on a fresh `csv::Writer` over an empty
/// `Vec<u8>`, followed by `Writer::into_inner`.
///
/// The call succeeds. The only error that the writer raises of its own is
/// that a record has another number of fields than the first one written,
/// which cannot be on the first record of a writer; every other error is one
/// of the sink, and writing to a `Vec<u8>` gives none.
///
/// The bytes are those of the one record written. With its default settings
/// the writer separates fields by `,`, ends the record with `\n`, and puts a
/// field between quotes, doubling the quotes inside it, exactly where the
/// field holds a delimiter, a quote or a line end.
#[verifier::external_body]
pub(crate) fn format_row(fields: &Vec<String>) -> (written: Result<Vec<u8>, csv::Error>)
    ensures
        written is Ok,
        written->Ok_0@ == written_row(texts(fields@)),
{
    let mut writer = csv::Writer::from_writer(Vec::new());
    writer.write_record(fields)?;
    match writer.into_inner() {
        Ok(bytes) => Ok(bytes),
        Err(failed) => Err(csv::Error::from(failed.into_error())),
    }
}

} // verus!
