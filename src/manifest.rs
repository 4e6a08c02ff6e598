//! Reading transfer manifests: CSV text with an `address` and an `amount`
//! column.
use vstd::prelude::*;

use crate::batch::TransferTarget;
use crate::text::{parse_u64, parse_u64_spec};

verus! {

/// The records that csv's reader finds in a text, each as its fields, or
/// `None` where the reader reports an error.
pub uninterp spec fn csv_records_of(text: Seq<char>) -> Option<Seq<Seq<Seq<char>>>>;

/// Relies on csv's `ReaderBuilder` (with no header row set apart) and its
/// `records` iterator: every record of the text, in order, as its fields.
#[verifier::external_body]
fn csv_records(text: &str) -> (r: Option<Vec<Vec<String>>>)
    ensures
        r is Some <==> csv_records_of(text@) is Some,
        r is Some ==> r->0.deep_view() == csv_records_of(text@)->0,
{
    let mut rdr = csv::ReaderBuilder::new().has_headers(false).from_reader(text.as_bytes());
    let mut out = Vec::new();
    for rec in rdr.records() {
        out.push(rec.ok()?.iter().map(|f| f.to_string()).collect());
    }
    Some(out)
}

/// Why a manifest row could not be read.
#[derive(Clone, Copy, Debug, PartialEq, Eq, Structural)]
pub enum RowError {
    /// The row has no field under one of the two columns.
    ShortRow,
    /// The amount is not an unsigned decimal number that fits 64 bits.
    InvalidAmount,
}

/// Why a manifest could not be read.
#[derive(Clone, Copy, Debug, PartialEq, Eq, Structural)]
pub enum ManifestError {
    /// The text is not well-formed CSV.
    Malformed,
    /// The header row names no `address` or no `amount` column.
    MissingColumn,
    /// The data row at `row` (counted from zero, after the header) is wrong.
    Row { row: usize, kind: RowError },
}

/// Position of the first header field equal to `name`, or -1.
pub open spec fn column_of(header: Seq<Seq<char>>, name: Seq<char>) -> int
    decreases header.len(),
{
    if header.len() == 0 {
        -1
    } else {
        let c = column_of(header.drop_last(), name);
        if c >= 0 {
            c
        } else if header.last() == name {
            header.len() - 1
        } else {
            -1
        }
    }
}

/// What one data row gives, with the address at column `ca` and the amount
/// at column `cm`.
pub open spec fn row_spec(row: Seq<Seq<char>>, ca: int, cm: int) -> Result<(Seq<char>, u64), RowError> {
    if ca >= row.len() || cm >= row.len() {
        Err(RowError::ShortRow)
    } else {
        match parse_u64_spec(row[cm]) {
            None => Err(RowError::InvalidAmount),
            Some(v) => Ok((row[ca], v)),
        }
    }
}

/// The target matches the data row at `i` of `rows`.
pub open spec fn target_matches(t: TransferTarget, rows: Seq<Seq<Seq<char>>>, i: int) -> bool {
    row_spec(rows[i + 1], column_of(rows[0], "address"@), column_of(rows[0], "amount"@))
        == Ok::<(Seq<char>, u64), RowError>((t.address@, t.amount))
}

fn find_column(header: &Vec<String>, name: &str) -> (r: Option<usize>)
    ensures
        match r {
            Some(c) => column_of(header.deep_view(), name@) == c as int,
            None => column_of(header.deep_view(), name@) == -1,
        },
{
    let key = name.to_owned();
    let mut i: usize = 0;
    while i < header.len()
        invariant
            i <= header@.len(),
            key@ == name@,
            column_of(header.deep_view().subrange(0, i as int), name@) == -1,
        decreases header@.len() - i,
    {
        let ghost h = header.deep_view();
        assert(h.subrange(0, i as int + 1).drop_last() =~= h.subrange(0, i as int));
        if header[i] == key {
            proof { lemma_column_of_prefix(h, name@, i as int + 1); }
            return Some(i);
        }
        i += 1;
    }
    assert(header.deep_view().subrange(0, i as int) =~= header.deep_view());
    None
}

/// A column found in a prefix of the header is the column of the header.
proof fn lemma_column_of_prefix(h: Seq<Seq<char>>, name: Seq<char>, k: int)
    requires
        0 <= k <= h.len(),
        column_of(h.subrange(0, k), name) >= 0,
    ensures
        column_of(h, name) == column_of(h.subrange(0, k), name),
    decreases h.len() - k,
{
    if k < h.len() {
        assert(h.subrange(0, k + 1).drop_last() =~= h.subrange(0, k));
        lemma_column_of_prefix(h, name, k + 1);
    } else {
        assert(h.subrange(0, k) =~= h);
    }
}

/// `r` is what reading targets from the records `d` gives.
pub open spec fn records_result(d: Seq<Seq<Seq<char>>>, r: Result<Vec<TransferTarget>, ManifestError>) -> bool {
    if d.len() == 0 {
        r matches Ok(v) && v@.len() == 0
    } else {
        let ca = column_of(d[0], "address"@);
        let cm = column_of(d[0], "amount"@);
        if ca < 0 || cm < 0 {
            r == Err::<Vec<TransferTarget>, ManifestError>(ManifestError::MissingColumn)
        } else {
            match r {
                Ok(v) => v@.len() == d.len() - 1 && forall|i: int|
                    0 <= i < v@.len() ==> target_matches(#[trigger] v@[i], d, i),
                Err(ManifestError::Row { row, kind }) => row < d.len() - 1 && row_spec(
                    d[row + 1],
                    ca,
                    cm,
                ) == Err::<(Seq<char>, u64), RowError>(kind) && forall|i: int|
                    0 <= i < row ==> #[trigger] row_spec(d[i + 1], ca, cm) is Ok,
                Err(_) => false,
            }
        }
    }
}

/// Reads transfer targets from CSV records: the first record is the header,
/// which must name an `address` and an `amount` column; every later record
/// is one target. Stops at the first row that cannot be read.
pub fn targets_from_records(rows: &Vec<Vec<String>>) -> (r: Result<Vec<TransferTarget>, ManifestError>)
    ensures
        records_result(rows.deep_view(), r),
{
    let mut out: Vec<TransferTarget> = Vec::new();
    if rows.len() == 0 {
        return Ok(out);
    }
    let ghost d = rows.deep_view();
    let ca = match find_column(&rows[0], "address") {
        Some(c) => c,
        None => return Err(ManifestError::MissingColumn),
    };
    let cm = match find_column(&rows[0], "amount") {
        Some(c) => c,
        None => return Err(ManifestError::MissingColumn),
    };
    let mut i: usize = 1;
    while i < rows.len()
        invariant
            1 <= i <= rows@.len(),
            d == rows.deep_view(),
            ca as int == column_of(d[0], "address"@),
            cm as int == column_of(d[0], "amount"@),
            out@.len() == i - 1,
            forall|j: int| 0 <= j < i - 1 ==> target_matches(#[trigger] out@[j], d, j),
        decreases rows@.len() - i,
    {
        let row = &rows[i];
        assert(row.deep_view() == d[i as int]);
        if ca >= row.len() || cm >= row.len() {
            proof { lemma_rows_ok(out@, d, (i - 1) as int); }
            return Err(ManifestError::Row { row: i - 1, kind: RowError::ShortRow });
        }
        match parse_u64(row[cm].as_str()) {
            Some(amount) => {
                out.push(TransferTarget { address: row[ca].clone(), amount });
            },
            None => {
                proof { lemma_rows_ok(out@, d, (i - 1) as int); }
                return Err(ManifestError::Row { row: i - 1, kind: RowError::InvalidAmount });
            },
        }
        i += 1;
    }
    Ok(out)
}

proof fn lemma_rows_ok(out: Seq<TransferTarget>, d: Seq<Seq<Seq<char>>>, n: int)
    requires
        0 <= n <= out.len(),
        forall|j: int| 0 <= j < n ==> target_matches(#[trigger] out[j], d, j),
    ensures
        forall|j: int|
            0 <= j < n ==> #[trigger] row_spec(
                d[j + 1],
                column_of(d[0], "address"@),
                column_of(d[0], "amount"@),
            ) is Ok,
{
    assert forall|j: int| 0 <= j < n implies #[trigger] row_spec(
        d[j + 1],
        column_of(d[0], "address"@),
        column_of(d[0], "amount"@),
    ) is Ok by {
        assert(target_matches(out[j], d, j));
    }
}

/// Reads the transfer targets of a manifest's CSV text.
pub fn load_transfer_targets(text: &str) -> (r: Result<Vec<TransferTarget>, ManifestError>)
    ensures
        match csv_records_of(text@) {
            None => r == Err::<Vec<TransferTarget>, ManifestError>(ManifestError::Malformed),
            Some(d) => records_result(d, r),
        },
{
    match csv_records(text) {
        None => Err(ManifestError::Malformed),
        Some(rows) => targets_from_records(&rows),
    }
}

} // verus!
