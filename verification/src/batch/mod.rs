//! Batch generation: reading tabular prompt data (CSV, or JSON parsed by the
//! caller) and rendering a prompt template for each row.
use vstd::prelude::*;
use crate::text::{chars_of, concat, decimal, decimal_string, str_equal, to_lowercase, trim, trim_bounds, unicode_lowercase};

pub mod combinatorial;
pub mod json;
pub mod parser;
pub mod renderer;
pub mod types;

pub use combinatorial::{generate_combinations, BatchError};
pub use json::{parse_json_document, JsonDocument, JsonValue};
pub use parser::{parse_csv, parse_json};
pub use renderer::render_template;
pub use types::{BatchData, BatchRow, RenderError, RenderResult, TemplateHistoryEntry};

verus! {

impl BatchError {
    /// The message shown for the error.
    pub open spec fn text(&self) -> Seq<char> {
        match self {
            BatchError::CsvHeaders(_) => "Failed to read CSV headers"@,
            BatchError::CsvNoColumns => "CSV file has no columns"@,
            BatchError::CsvRow(n, _) => "Failed to parse CSV row "@ + decimal(*n as nat),
            BatchError::CsvNoRows => "CSV file has no data rows"@,
            BatchError::JsonArrayEmpty => "JSON array is empty"@,
            BatchError::JsonNoKeys => "JSON objects have no keys"@,
            BatchError::JsonObjectEmpty => "JSON object is empty"@,
            BatchError::JsonValueNotArray => "All values in JSON object must be arrays"@,
            BatchError::JsonLengthMismatch(expected, found, key) => "All arrays must have the same length. Expected "@
                + decimal(*expected as nat) + ", got "@ + decimal(*found as nat) + " for key '"@ + key@
                + "'"@,
            BatchError::JsonArraysEmpty => "Arrays are empty"@,
            BatchError::JsonShape => "JSON must be either an array of objects or an object with arrays"@,
        }
    }

    /// The message shown for the error.
    pub fn message(&self) -> (s: String)
        ensures
            s@ == self.text(),
    {
        match self {
            BatchError::CsvHeaders(_) => "Failed to read CSV headers".to_owned(),
            BatchError::CsvNoColumns => "CSV file has no columns".to_owned(),
            BatchError::CsvRow(n, _) => concat(
                "Failed to parse CSV row ",
                decimal_string(*n as u64).as_str(),
            ),
            BatchError::CsvNoRows => "CSV file has no data rows".to_owned(),
            BatchError::JsonArrayEmpty => "JSON array is empty".to_owned(),
            BatchError::JsonNoKeys => "JSON objects have no keys".to_owned(),
            BatchError::JsonObjectEmpty => "JSON object is empty".to_owned(),
            BatchError::JsonValueNotArray => "All values in JSON object must be arrays".to_owned(),
            BatchError::JsonLengthMismatch(expected, found, key) => {
                let a = concat(
                    "All arrays must have the same length. Expected ",
                    decimal_string(*expected as u64).as_str(),
                );
                let b = concat(a.as_str(), ", got ");
                let c = concat(b.as_str(), decimal_string(*found as u64).as_str());
                let d = concat(c.as_str(), " for key '");
                let e = concat(d.as_str(), key.as_str());
                concat(e.as_str(), "'")
            },
            BatchError::JsonArraysEmpty => "Arrays are empty".to_owned(),
            BatchError::JsonShape => "JSON must be either an array of objects or an object with arrays".to_owned(),
        }
    }
}

/// The formats batch data can be given in.
#[derive(Debug, Clone, Copy, PartialEq, Eq, Structural)]
pub enum DataFormat {
    Csv,
    Json,
}

/// The format a name (compared case-insensitively) stands for.
pub open spec fn format_named(lower: Seq<char>) -> Option<DataFormat> {
    if lower == "csv"@ {
        Some(DataFormat::Csv)
    } else if lower == "json"@ {
        Some(DataFormat::Json)
    } else {
        None
    }
}

/// Parses a data format name, ignoring case; other names are an error
/// naming the supported formats.
pub fn data_format(format: &str) -> (r: Result<DataFormat, String>)
    ensures
        r matches Ok(f) ==> format_named(unicode_lowercase(format@)) == Some(f),
        r matches Err(e) ==> format_named(unicode_lowercase(format@)) is None && e@ == "Unsupported format: "@
            + format@ + ". Use 'csv' or 'json'"@,
{
    let lower = to_lowercase(format);
    if str_equal(lower.as_str(), "csv") {
        Ok(DataFormat::Csv)
    } else if str_equal(lower.as_str(), "json") {
        Ok(DataFormat::Json)
    } else {
        let a = concat("Unsupported format: ", format);
        Err(concat(a.as_str(), ". Use 'csv' or 'json'"))
    }
}

/// Parses CSV batch data, with errors reported as "CSV parse error: " and
/// the error's message.
pub fn batch_parse_csv(content: &str) -> (r: Result<BatchData, String>)
    ensures
        match r {
            Ok(d) => parser::csv_outcome(content@, Ok(d)),
            Err(m) => exists|e: BatchError|
                parser::csv_outcome(content@, Err(e)) && m@ == "CSV parse error: "@ + e.text(),
        },
{
    match parse_csv(content) {
        Ok(d) => Ok(d),
        Err(e) => {
            let m = concat("CSV parse error: ", e.message().as_str());
            assert(parser::csv_outcome(content@, Err(e)) && m@ == "CSV parse error: "@ + e.text());
            Err(m)
        },
    }
}

/// Reads JSON batch data, with errors reported as "JSON parse error: " and
/// the error's message.
pub fn batch_parse_json(doc: &JsonDocument) -> (r: Result<BatchData, String>)
    ensures
        match r {
            Ok(d) => json::document_outcome(*doc, Ok(d)),
            Err(m) => exists|e: BatchError|
                json::document_outcome(*doc, Err(e)) && m@ == "JSON parse error: "@ + e.text(),
        },
{
    match parse_json_document(doc) {
        Ok(d) => Ok(d),
        Err(e) => {
            let m = concat("JSON parse error: ", e.message().as_str());
            assert(json::document_outcome(*doc, Err(e)) && m@ == "JSON parse error: "@ + e.text());
            Err(m)
        },
    }
}

/// What the batch command answers for CSV text: the data, or "CSV parse
/// error: " and the error's message.
pub open spec fn csv_reply(content: Seq<char>, r: Result<BatchData, String>) -> bool {
    match r {
        Ok(d) => parser::csv_outcome(content, Ok(d)),
        Err(m) => exists|e: BatchError| parser::csv_outcome(content, Err(e)) && m@ == "CSV parse error: "@ + e.text(),
    }
}

/// What the batch command answers for a JSON document: the data, or "JSON
/// parse error: " and the error's message.
pub open spec fn json_reply(doc: JsonDocument, r: Result<BatchData, String>) -> bool {
    match r {
        Ok(d) => json::document_outcome(doc, Ok(d)),
        Err(m) => exists|e: BatchError| json::document_outcome(doc, Err(e)) && m@ == "JSON parse error: "@ + e.text(),
    }
}

/// Parses batch data given as text in the named format ("csv" or "json",
/// any case); another format is an error naming the supported ones.
pub fn batch_parse_data(content: &str, format: &str) -> (r: Result<BatchData, String>)
    ensures
        format_named(unicode_lowercase(format@)) is None ==> (r matches Err(e) && e@ == "Unsupported format: "@
            + format@ + ". Use 'csv' or 'json'"@),
        format_named(unicode_lowercase(format@)) == Some(DataFormat::Csv) ==> csv_reply(content@, r),
        format_named(unicode_lowercase(format@)) == Some(DataFormat::Json) ==> exists|d: JsonDocument|
            crate::json_text::document_matches(d, content@) && json_reply(d, r),
{
    match data_format(format) {
        Err(e) => Err(e),
        Ok(DataFormat::Csv) => batch_parse_csv(content),
        Ok(DataFormat::Json) => {
            let doc = crate::json_text::read_json_document(content);
            let r = batch_parse_json(&doc);
            assert(crate::json_text::document_matches(doc, content@) && json_reply(doc, r));
            r
        },
    }
}

/// Renders the template for every row; an empty (or all white space)
/// template and an empty row list are refused.
pub fn batch_render_template(template: &str, rows: Vec<BatchRow>) -> (r: Result<RenderResult, String>)
    requires
        types::rows_wf(rows@),
    ensures
        trim(template@).len() == 0 ==> (r matches Err(m) && m@ == "Template cannot be empty"@),
        trim(template@).len() > 0 && rows@.len() == 0 ==> (r matches Err(m) && m@
            == "No data rows provided"@),
        trim(template@).len() > 0 && rows@.len() > 0 ==> (r matches Ok(res) && renderer::render_outcome(
            template@,
            rows@,
            res,
        )),
{
    let t = chars_of(template);
    let (a, b) = trim_bounds(&t, 0, t.len());
    proof {
        assert(t@.subrange(0, t@.len() as int) =~= t@);
    }
    if a == b {
        return Err("Template cannot be empty".to_owned());
    }
    if rows.len() == 0 {
        return Err("No data rows provided".to_owned());
    }
    Ok(render_template(template, rows))
}

/// The data formats by name: "csv" names CSV, "json" names JSON, and no
/// other lowercase name names a format.
pub proof fn lemma_format_names(lower: Seq<char>)
    ensures
        format_named(lower) == Some(DataFormat::Csv) <==> lower == "csv"@,
        format_named(lower) == Some(DataFormat::Json) <==> lower == "json"@,
        format_named(lower) is None <==> !(lower == "csv"@ || lower == "json"@),
{
    reveal_strlit("csv");
    reveal_strlit("json");
    assert("csv"@.len() == 3 && "json"@.len() == 4);
}

} // verus!
