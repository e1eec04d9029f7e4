//! Reading batch data from CSV text (a header line naming the columns, then
//! one record per row).
use vstd::prelude::*;
use super::combinatorial::BatchError;
use super::types::{BatchData, BatchRow, rows_view, rows_wf};
use super::json::{document_outcome, parse_json_document, JsonDocument};
use crate::json_text::{document_matches, read_json_document};

verus! {

/// What the CSV reader makes of `content` (header line required, every
/// record as long as the header): the header fields or the reader's error
/// message, then, in order, each record's fields or the error that record
/// raised.
pub uninterp spec fn csv_reading(content: Seq<char>) -> (
    Result<Seq<Seq<char>>, Seq<char>>,
    Seq<Result<Seq<Seq<char>>, Seq<char>>>,
);

/// The view of a list of strings.
pub open spec fn strings_view(v: Seq<String>) -> Seq<Seq<char>> {
    v.map_values(|s: String| s@)
}

/// The view of a reader result.
pub open spec fn fields_view(r: Result<Vec<String>, String>) -> Result<Seq<Seq<char>>, Seq<char>> {
    match r {
        Ok(v) => Ok(strings_view(v@)),
        Err(e) => Err(e@),
    }
}

/// Reads CSV text with the `csv` crate (`ReaderBuilder` with headers
/// required and fixed record length, then `headers` and `records`). The
/// result is what `csv_reading` names.
#[verifier::external_body]
fn read_csv(content: &str) -> (r: (Result<Vec<String>, String>, Vec<Result<Vec<String>, String>>))
    ensures
        fields_view(r.0) == csv_reading(content@).0,
        r.1@.map_values(|x: Result<Vec<String>, String>| fields_view(x)) == csv_reading(content@).1,
{
    let mut reader = csv::ReaderBuilder::new().has_headers(true).flexible(false).from_reader(
        content.as_bytes(),
    );
    let headers: Result<Vec<String>, String> = match reader.headers() {
        Ok(h) => Ok(h.iter().map(String::from).collect()),
        Err(e) => Err(e.to_string()),
    };
    let mut records: Vec<Result<Vec<String>, String>> = Vec::new();
    for r in reader.records() {
        records.push(match r {
            Ok(rec) => Ok(rec.iter().map(String::from).collect()),
            Err(e) => Err(e.to_string()),
        });
    }
    (headers, records)
}

/// The row a record makes: the first `n` fields under the first `n`
/// column names.
pub open spec fn record_map(cols: Seq<Seq<char>>, fields: Seq<Seq<char>>, n: nat) -> Map<
    Seq<char>,
    Seq<char>,
>
    decreases n,
{
    if n == 0 {
        Map::empty()
    } else {
        record_map(cols, fields, (n - 1) as nat).insert(cols[n - 1], fields[n - 1])
    }
}

/// The row a record makes: each field under the column of the same
/// position (fields beyond the last column are dropped).
pub open spec fn record_row(cols: Seq<Seq<char>>, fields: Seq<Seq<char>>) -> Map<Seq<char>, Seq<char>> {
    record_map(cols, fields, if fields.len() < cols.len() { fields.len() } else { cols.len() })
}

/// The first record, counting from `i`, that the reader could not read.
pub open spec fn first_bad_record(records: Seq<Result<Seq<Seq<char>>, Seq<char>>>, i: int) -> Option<
    int,
>
    decreases records.len() - i,
{
    if i < 0 || i >= records.len() {
        None
    } else if records[i] is Err {
        Some(i)
    } else {
        first_bad_record(records, i + 1)
    }
}

/// The rows the records make (all records read).
pub open spec fn records_rows(
    cols: Seq<Seq<char>>,
    records: Seq<Result<Seq<Seq<char>>, Seq<char>>>,
) -> Seq<Map<Seq<char>, Seq<char>>> {
    records.map_values(
        |r: Result<Seq<Seq<char>>, Seq<char>>|
            match r {
                Ok(f) => record_row(cols, f),
                Err(_) => Map::empty(),
            },
    )
}

/// A row holding the record's fields under the column names.
fn row_of_record(cols: &Vec<String>, fields: &Vec<String>) -> (r: BatchRow)
    ensures
        r.wf(),
        r@ == record_row(strings_view(cols@), strings_view(fields@)),
{
    let n = if fields.len() < cols.len() {
        fields.len()
    } else {
        cols.len()
    };
    let mut row = BatchRow::new();
    let mut i: usize = 0;
    while i < n
        invariant
            i <= n,
            n <= cols@.len(),
            n <= fields@.len(),
            row.wf(),
            row@ == record_map(strings_view(cols@), strings_view(fields@), i as nat),
        decreases n - i,
    {
        row.insert(cols[i].clone(), fields[i].clone());
        i = i + 1;
    }
    row
}

/// What parsing `content` gives (see `parse_csv`).
pub open spec fn csv_outcome(content: Seq<char>, r: Result<BatchData, BatchError>) -> bool {
    let (header, records) = csv_reading(content);
    match header {
        Err(m) => r matches Err(BatchError::CsvHeaders(e)) && e@ == m,
        Ok(cols) => if cols.len() == 0 {
            r matches Err(BatchError::CsvNoColumns)
        } else {
            match first_bad_record(records, 0) {
                Some(i) => r matches Err(BatchError::CsvRow(n, e)) && n == i + 1
                    && records[i] == Result::<Seq<Seq<char>>, Seq<char>>::Err(e@),
                None => if records.len() == 0 {
                    r matches Err(BatchError::CsvNoRows)
                } else {
                    r matches Ok(data) && strings_view(data.columns@) == cols && rows_wf(
                        data.rows@,
                    ) && rows_view(data.rows@) == records_rows(cols, records)
                },
            }
        },
    }
}

/// Parses CSV text whose first line names the columns. A header the reader
/// rejects, a header without columns, a record the reader rejects (the
/// first one, numbered from one) and the lack of records are errors.
pub fn parse_csv(content: &str) -> (r: Result<BatchData, BatchError>)
    ensures
        csv_outcome(content@, r),
{
    let (header, records) = read_csv(content);
    let ghost reading = csv_reading(content@);
    let columns = match header {
        Err(m) => {
            return Err(BatchError::CsvHeaders(m));
        },
        Ok(c) => c,
    };
    if columns.len() == 0 {
        return Err(BatchError::CsvNoColumns);
    }
    let ghost cols = strings_view(columns@);
    let ghost recs = reading.1;
    let mut rows: Vec<BatchRow> = Vec::new();
    let mut i: usize = 0;
    while i < records.len()
        invariant
            i <= records@.len(),
            cols == strings_view(columns@),
            recs == records@.map_values(|x: Result<Vec<String>, String>| fields_view(x)),
            recs == csv_reading(content@).1,
            csv_reading(content@).0 == Result::<Seq<Seq<char>>, Seq<char>>::Ok(cols),
            cols.len() > 0,
            first_bad_record(recs, 0) == first_bad_record(recs, i as int),
            rows_wf(rows@),
            rows_view(rows@) == records_rows(cols, recs.take(i as int)),
        decreases records@.len() - i,
    {
        match &records[i] {
            Err(m) => {
                assert(recs[i as int] == fields_view(records@[i as int]));
                assert(first_bad_record(recs, i as int) == Some(i as int));
                let n = records.len();
                assert(i < n);
                let e = m.clone();
                assert(e@ == m@);
                assert(recs[i as int] == Result::<Seq<Seq<char>>, Seq<char>>::Err(e@));
                return Err(BatchError::CsvRow(i + 1, e));
            },
            Ok(fields) => {
                let row = row_of_record(&columns, fields);
                let ghost prev = rows@;
                rows.push(row);
                proof {
                    assert forall|k: int| 0 <= k < rows@.len() implies (#[trigger] rows@[k]).wf() by {
                        if k < prev.len() {
                            assert(rows@[k] == prev[k]);
                        }
                    }
                    assert(recs.take(i + 1) =~= recs.take(i as int).push(recs[i as int]));
                    assert(recs[i as int] == fields_view(records@[i as int]));
                    assert(rows_view(rows@) =~= rows_view(prev).push(rows@[prev.len() as int]@));
                    assert(records_rows(cols, recs.take(i + 1)) =~= records_rows(
                        cols,
                        recs.take(i as int),
                    ).push(record_row(cols, strings_view(fields@))));
                    assert(rows_view(rows@) =~= records_rows(cols, recs.take(i + 1)));
                }
            },
        }
        i = i + 1;
    }
    proof {
        assert(recs.take(i as int) =~= recs);
    }
    if rows.len() == 0 {
        return Err(BatchError::CsvNoRows);
    }
    Ok(BatchData { columns, rows })
}

/// Parses JSON text as batch data: an array of objects or an object of
/// arrays (see `parse_json_document`); text that is not JSON, and any other
/// value, is an error.
pub fn parse_json(content: &str) -> (r: Result<BatchData, BatchError>)
    ensures
        exists|d: JsonDocument| document_matches(d, content@) && document_outcome(d, r),
{
    let doc = read_json_document(content);
    let r = parse_json_document(&doc);
    assert(document_matches(doc, content@) && document_outcome(doc, r));
    r
}

} // verus!
