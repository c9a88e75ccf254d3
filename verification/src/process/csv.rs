//! Conversion of CSV input to JSON or YAML.
use vstd::prelude::*;

use crate::cli::csv::OutputFormat;
use crate::process::ReadError;
use crate::text::append_str;

verus! {

/// Which read of a CSV input failed.
#[derive(Debug, Clone, Copy, PartialEq, Eq, Structural)]
pub enum CsvFailure {
    /// Reading the header row failed.
    Header,
    /// Reading a data row failed.
    Record,
}

/// What `csv::ReaderBuilder` with `has_headers(true)` reads from `data`
/// with the given field delimiter: the header row and the data rows, or
/// which read failed and the text of the crate's error.
pub uninterp spec fn csv_with_header(data: Seq<u8>, delimiter: u8) -> Result<
    (Seq<Seq<char>>, Seq<Seq<Seq<char>>>),
    (CsvFailure, Seq<char>),
>;

/// What `csv::ReaderBuilder` with `has_headers(false)` reads from `data`:
/// all rows, or the text of the crate's error where a read fails.
pub uninterp spec fn csv_without_header(data: Seq<u8>, delimiter: u8) -> Result<
    Seq<Seq<Seq<char>>>,
    Seq<char>,
>;

/// The pretty-printed JSON text (`serde_json::to_string_pretty`) of the
/// array that holds one object per row, built from the row's key-value
/// pairs by `serde_json::Value`'s `FromIterator`; or the text of the
/// crate's error.
pub uninterp spec fn json_of_objects(rows: Seq<Seq<(Seq<char>, Seq<char>)>>) -> Result<
    Seq<char>,
    Seq<char>,
>;

/// The pretty-printed JSON text of the array that holds one array of
/// strings per row, or the text of the crate's error.
pub uninterp spec fn json_of_arrays(rows: Seq<Seq<Seq<char>>>) -> Result<Seq<char>, Seq<char>>;

/// The YAML text (`yaml_serde::to_string`) of the same array of objects as
/// [`json_of_objects`], or the text of the crate's error.
pub uninterp spec fn yaml_of_objects(rows: Seq<Seq<(Seq<char>, Seq<char>)>>) -> Result<
    Seq<char>,
    Seq<char>,
>;

/// The YAML text of the same array of arrays as [`json_of_arrays`], or
/// the text of the crate's error.
pub uninterp spec fn yaml_of_arrays(rows: Seq<Seq<Seq<char>>>) -> Result<Seq<char>, Seq<char>>;

/// The texts of a list of strings.
pub open spec fn string_views(v: Seq<String>) -> Seq<Seq<char>> {
    v.map_values(|s: String| s@)
}

/// The texts of a list of rows.
pub open spec fn row_views(v: Seq<Vec<String>>) -> Seq<Seq<Seq<char>>> {
    v.map_values(|r: Vec<String>| string_views(r@))
}

/// The texts of a list of key-value pairs.
pub open spec fn pair_views(v: Seq<(String, String)>) -> Seq<(Seq<char>, Seq<char>)> {
    v.map_values(|p: (String, String)| (p.0@, p.1@))
}

/// The texts of a list of rows of key-value pairs.
pub open spec fn pair_row_views(v: Seq<Vec<(String, String)>>) -> Seq<Seq<(Seq<char>, Seq<char>)>> {
    v.map_values(|r: Vec<(String, String)>| pair_views(r@))
}

/// A header and rows as read from CSV input.
pub open spec fn table_read(header: Seq<String>, rows: Seq<Vec<String>>) -> Result<
    (Seq<Seq<char>>, Seq<Seq<Seq<char>>>),
    (CsvFailure, Seq<char>),
> {
    Ok((string_views(header), row_views(rows)))
}

/// A failed read of CSV input: which read, and the error text.
pub open spec fn table_failed(stage: CsvFailure, cause: Seq<char>) -> Result<
    (Seq<Seq<char>>, Seq<Seq<Seq<char>>>),
    (CsvFailure, Seq<char>),
> {
    Err((stage, cause))
}

/// Rows as read from CSV input without header.
pub open spec fn rows_read(rows: Seq<Vec<String>>) -> Result<Seq<Seq<Seq<char>>>, Seq<char>> {
    Ok(row_views(rows))
}

/// A failed read of CSV input without header.
pub open spec fn rows_failed(cause: Seq<char>) -> Result<Seq<Seq<Seq<char>>>, Seq<char>> {
    Err(cause)
}

/// A serialized text.
pub open spec fn text_made(text: Seq<char>) -> Result<Seq<char>, Seq<char>> {
    Ok(text)
}

/// A failed serialization, with the error text.
pub open spec fn text_failed(cause: Seq<char>) -> Result<Seq<char>, Seq<char>> {
    Err(cause)
}

/// Reads `data` as CSV with a header row.
#[verifier::external_body]
fn read_csv_with_header(data: &[u8], delimiter: u8) -> (res: Result<(Vec<String>, Vec<Vec<String>>), (CsvFailure, String)>)
    ensures
        (match res {
            Ok(table) => csv_with_header(data@, delimiter) == table_read(table.0@, table.1@),
            Err(failure) => csv_with_header(data@, delimiter) == table_failed(failure.0, failure.1@),
        }),
{
    let mut reader = csv::ReaderBuilder::new().delimiter(delimiter).has_headers(true).from_reader(data);
    let header = match reader.headers() {
        Ok(h) => h.iter().map(String::from).collect(),
        Err(e) => return Err((CsvFailure::Header, e.to_string())),
    };
    let mut rows = Vec::new();
    for record in reader.records() {
        match record {
            Ok(r) => rows.push(r.iter().map(String::from).collect()),
            Err(e) => return Err((CsvFailure::Record, e.to_string())),
        }
    }
    Ok((header, rows))
}

/// Reads `data` as CSV without a header row.
#[verifier::external_body]
fn read_csv_without_header(data: &[u8], delimiter: u8) -> (res: Result<Vec<Vec<String>>, String>)
    ensures
        (match res {
            Ok(rows) => csv_without_header(data@, delimiter) == rows_read(rows@),
            Err(cause) => csv_without_header(data@, delimiter) == rows_failed(cause@),
        }),
{
    let mut reader = csv::ReaderBuilder::new().delimiter(delimiter).has_headers(false).from_reader(data);
    let mut rows = Vec::new();
    for record in reader.records() {
        match record {
            Ok(r) => rows.push(r.iter().map(String::from).collect()),
            Err(e) => return Err(e.to_string()),
        }
    }
    Ok(rows)
}

/// Serializes rows of key-value pairs as a JSON array of objects.
#[verifier::external_body]
fn objects_to_json(rows: &Vec<Vec<(String, String)>>) -> (res: Result<String, String>)
    ensures
        (match res {
            Ok(t) => json_of_objects(pair_row_views(rows@)) == text_made(t@),
            Err(e) => json_of_objects(pair_row_views(rows@)) == text_failed(e@),
        }),
{
    let values: Vec<serde_json::Value> = rows.iter().map(|r| r.iter().map(|p| (p.0.clone(), p.1.clone())).collect()).collect();
    serde_json::to_string_pretty(&values).map_err(|e| e.to_string())
}

/// Serializes rows of strings as a JSON array of arrays.
#[verifier::external_body]
fn arrays_to_json(rows: &Vec<Vec<String>>) -> (res: Result<String, String>)
    ensures
        (match res {
            Ok(t) => json_of_arrays(row_views(rows@)) == text_made(t@),
            Err(e) => json_of_arrays(row_views(rows@)) == text_failed(e@),
        }),
{
    let values: Vec<serde_json::Value> = rows.iter().map(|r| r.iter().cloned().collect()).collect();
    serde_json::to_string_pretty(&values).map_err(|e| e.to_string())
}

/// Serializes rows of key-value pairs as a YAML sequence of mappings.
#[verifier::external_body]
fn objects_to_yaml(rows: &Vec<Vec<(String, String)>>) -> (res: Result<String, String>)
    ensures
        (match res {
            Ok(t) => yaml_of_objects(pair_row_views(rows@)) == text_made(t@),
            Err(e) => yaml_of_objects(pair_row_views(rows@)) == text_failed(e@),
        }),
{
    let values: Vec<serde_json::Value> = rows.iter().map(|r| r.iter().map(|p| (p.0.clone(), p.1.clone())).collect()).collect();
    yaml_serde::to_string(&values).map_err(|e| e.to_string())
}

/// Serializes rows of strings as a YAML sequence of sequences.
#[verifier::external_body]
fn arrays_to_yaml(rows: &Vec<Vec<String>>) -> (res: Result<String, String>)
    ensures
        (match res {
            Ok(t) => yaml_of_arrays(row_views(rows@)) == text_made(t@),
            Err(e) => yaml_of_arrays(row_views(rows@)) == text_failed(e@),
        }),
{
    let values: Vec<serde_json::Value> = rows.iter().map(|r| r.iter().cloned().collect()).collect();
    yaml_serde::to_string(&values).map_err(|e| e.to_string())
}

/// The step of a CSV conversion that failed.
#[derive(Debug, Clone, Copy, PartialEq, Eq, Structural)]
pub enum CsvStep {
    /// Reading the header row.
    Header,
    /// Reading a data row after a header.
    RawRecord,
    /// Reading a row of a file without header.
    Record,
    /// Writing the rows as JSON.
    Json,
    /// Writing the rows as YAML.
    Yaml,
}

/// The text that describes a failed step.
pub open spec fn csv_step_text(step: CsvStep) -> Seq<char> {
    match step {
        CsvStep::Header => "failed to read header"@,
        CsvStep::RawRecord => "failed to read raw record"@,
        CsvStep::Record => "failed to read record"@,
        CsvStep::Json => "failed to convert to json"@,
        CsvStep::Yaml => "failed to convert to yaml"@,
    }
}

/// Why a CSV conversion failed.
#[derive(Debug, PartialEq, Eq)]
pub enum CsvError {
    /// The delimiter is the NUL character.
    NullDelimiter,
    /// The delimiter takes more than one byte in UTF-8.
    MultiByteDelimiter,
    /// The input file could not be opened: its path, and the reason.
    Open { path: String, cause: String },
    /// A step failed, for the reason held.
    Failed { step: CsvStep, cause: String },
}

/// The text that describes a CSV conversion error.
pub open spec fn csv_error_text(e: CsvError) -> Seq<char> {
    match e {
        CsvError::NullDelimiter => "delimiter cannot be null character"@,
        CsvError::MultiByteDelimiter => "delimiter must be a single-byte character"@,
        CsvError::Open { path, .. } => "failed to open file "@ + path@,
        CsvError::Failed { step, .. } => csv_step_text(step),
    }
}

impl CsvError {
    /// The text shown for this error.
    pub fn message(&self) -> (m: String)
        ensures
            m@ == csv_error_text(*self),
    {
        match self {
            CsvError::NullDelimiter => String::from_str("delimiter cannot be null character"),
            CsvError::MultiByteDelimiter => String::from_str(
                "delimiter must be a single-byte character",
            ),
            CsvError::Open { path, .. } => {
                let mut m = String::from_str("failed to open file ");
                append_str(&mut m, path.as_str());
                m
            },
            CsvError::Failed { step, .. } => match step {
                CsvStep::Header => String::from_str("failed to read header"),
                CsvStep::RawRecord => String::from_str("failed to read raw record"),
                CsvStep::Record => String::from_str("failed to read record"),
                CsvStep::Json => String::from_str("failed to convert to json"),
                CsvStep::Yaml => String::from_str("failed to convert to yaml"),
            },
        }
    }

    /// The underlying reason shown below the message, where there is one.
    pub fn cause(&self) -> (c: Option<String>)
        ensures
            (match *self {
                CsvError::Open { cause, .. } => c matches Some(t) && t@ == cause@,
                CsvError::Failed { cause, .. } => c matches Some(t) && t@ == cause@,
                _ => c is None,
            }),
    {
        match self {
            CsvError::Open { cause, .. } => Some(cause.clone()),
            CsvError::Failed { cause, .. } => Some(cause.clone()),
            _ => None,
        }
    }
}

/// Whether `delimiter` is accepted: not NUL, and one byte in UTF-8.
pub open spec fn delimiter_ok(delimiter: char) -> bool {
    delimiter != '\0' && (delimiter as u32) < 0x80
}

/// Accepts a delimiter that is not NUL and takes one byte in UTF-8.
pub fn validate_delimiter(delimiter: char) -> (res: Result<(), CsvError>)
    ensures
        delimiter == '\0' ==> res == Err::<(), CsvError>(CsvError::NullDelimiter),
        delimiter != '\0' && (delimiter as u32) >= 0x80 ==> res == Err::<(), CsvError>(
            CsvError::MultiByteDelimiter,
        ),
        delimiter_ok(delimiter) ==> res is Ok,
{
    if delimiter == '\0' {
        return Err(CsvError::NullDelimiter);
    }
    if (delimiter as u32) >= 0x80 {
        return Err(CsvError::MultiByteDelimiter);
    }
    Ok(())
}

/// A data row paired with the header: the `j`-th field under the `j`-th
/// name, as far as both reach.
pub open spec fn record_pairs(header: Seq<Seq<char>>, row: Seq<Seq<char>>) -> Seq<
    (Seq<char>, Seq<char>),
> {
    Seq::new(
        if header.len() <= row.len() {
            header.len()
        } else {
            row.len()
        },
        |j: int| (header[j], row[j]),
    )
}

/// The text a CSV input is converted to, or the step that fails and why.
pub open spec fn csv_document(
    data: Seq<u8>,
    delimiter: u8,
    with_header: bool,
    format: OutputFormat,
) -> Result<Seq<char>, (CsvStep, Seq<char>)> {
    if with_header {
        match csv_with_header(data, delimiter) {
            Err((CsvFailure::Header, cause)) => Err((CsvStep::Header, cause)),
            Err((CsvFailure::Record, cause)) => Err((CsvStep::RawRecord, cause)),
            Ok((header, rows)) => {
                let objects = rows.map_values(|row: Seq<Seq<char>>| record_pairs(header, row));
                match format {
                    OutputFormat::Json => match json_of_objects(objects) {
                        Ok(t) => Ok(t),
                        Err(cause) => Err((CsvStep::Json, cause)),
                    },
                    OutputFormat::Yaml => match yaml_of_objects(objects) {
                        Ok(t) => Ok(t),
                        Err(cause) => Err((CsvStep::Yaml, cause)),
                    },
                }
            },
        }
    } else {
        match csv_without_header(data, delimiter) {
            Err(cause) => Err((CsvStep::Record, cause)),
            Ok(rows) => match format {
                OutputFormat::Json => match json_of_arrays(rows) {
                    Ok(t) => Ok(t),
                    Err(cause) => Err((CsvStep::Json, cause)),
                },
                OutputFormat::Yaml => match yaml_of_arrays(rows) {
                    Ok(t) => Ok(t),
                    Err(cause) => Err((CsvStep::Yaml, cause)),
                },
            },
        }
    }
}

/// With a header row, every data row becomes an object that holds the row's
/// `j`-th field under the header's `j`-th name (as far as both reach), and
/// the JSON and the YAML output are both written from that same list of
/// objects; the header's names are never dropped from either.
pub proof fn lemma_header_rows_become_objects(
    data: Seq<u8>,
    delimiter: u8,
    header: Seq<Seq<char>>,
    rows: Seq<Seq<Seq<char>>>,
)
    requires
        csv_with_header(data, delimiter) == Ok::<
            (Seq<Seq<char>>, Seq<Seq<Seq<char>>>),
            (CsvFailure, Seq<char>),
        >((header, rows)),
    ensures
        ({
            let objects = Seq::new(
                rows.len(),
                |i: int|
                    Seq::new(
                        if header.len() <= rows[i].len() {
                            header.len()
                        } else {
                            rows[i].len()
                        },
                        |j: int| (header[j], rows[i][j]),
                    ),
            );
            &&& csv_document(data, delimiter, true, OutputFormat::Json) == match json_of_objects(
                objects,
            ) {
                Ok(t) => Ok::<Seq<char>, (CsvStep, Seq<char>)>(t),
                Err(c) => Err((CsvStep::Json, c)),
            }
            &&& csv_document(data, delimiter, true, OutputFormat::Yaml) == match yaml_of_objects(
                objects,
            ) {
                Ok(t) => Ok::<Seq<char>, (CsvStep, Seq<char>)>(t),
                Err(c) => Err((CsvStep::Yaml, c)),
            }
        }),
{
    let objects = Seq::new(
        rows.len(),
        |i: int|
            Seq::new(
                if header.len() <= rows[i].len() {
                    header.len()
                } else {
                    rows[i].len()
                },
                |j: int| (header[j], rows[i][j]),
            ),
    );
    assert(rows.map_values(|row: Seq<Seq<char>>| record_pairs(header, row)) =~= objects);
}

/// Without a header row, every row stays a list of its fields, in order, in
/// both the JSON and the YAML output.
pub proof fn lemma_rows_without_header_stay_lists(
    data: Seq<u8>,
    delimiter: u8,
    rows: Seq<Seq<Seq<char>>>,
)
    requires
        csv_without_header(data, delimiter) == Ok::<Seq<Seq<Seq<char>>>, Seq<char>>(rows),
    ensures
        csv_document(data, delimiter, false, OutputFormat::Json) == match json_of_arrays(rows) {
            Ok(t) => Ok::<Seq<char>, (CsvStep, Seq<char>)>(t),
            Err(c) => Err((CsvStep::Json, c)),
        },
        csv_document(data, delimiter, false, OutputFormat::Yaml) == match yaml_of_arrays(rows) {
            Ok(t) => Ok::<Seq<char>, (CsvStep, Seq<char>)>(t),
            Err(c) => Err((CsvStep::Yaml, c)),
        },
{
}

/// How many bytes a fresh `csv_core::Reader`, set up as `csv::ReaderBuilder`
/// sets it up with the given delimiter, consumes from the start of `data`
/// before it finds the end of a record; `None` where `data` ends first.
pub uninterp spec fn csv_record_len(data: Seq<u8>, delimiter: u8) -> Option<nat>;

/// Reads one record from the start of `data` with `csv_core::Reader::read_record`.
/// The result is named by [`csv_record_len`]. As the source shows, a
/// record's end consumes at least one byte and no more than the input.
#[verifier::external_body]
fn record_end(data: &[u8], delimiter: u8) -> (n: Option<usize>)
    ensures
        (match n {
            Some(k) => csv_record_len(data@, delimiter) == Some(k as nat),
            None => csv_record_len(data@, delimiter) is None,
        }),
        n matches Some(k) ==> 1 <= k <= data@.len(),
{
    let mut reader = csv_core::ReaderBuilder::new().delimiter(delimiter).build();
    let mut output = vec![0u8; data.len() + 1];
    let mut ends = vec![0usize; data.len() + 1];
    match reader.read_record(data, &mut output, &mut ends) {
        (csv_core::ReadRecordResult::Record, consumed, _, _) => Some(consumed),
        _ => None,
    }
}

/// The length of the records at the start of `data` whose end the CSV
/// reader finds within `data`, one after the other.
pub open spec fn complete_len(data: Seq<u8>, delimiter: u8) -> nat
    decreases data.len(),
{
    match csv_record_len(data, delimiter) {
        Some(k) => if 1 <= k <= data.len() {
            k + complete_len(data.subrange(k as int, data.len() as int), delimiter)
        } else {
            0
        },
        None => 0,
    }
}

/// The length of the complete records at the start of `data`.
fn complete_records_len(data: &[u8], delimiter: u8) -> (n: usize)
    ensures
        n == complete_len(data@, delimiter),
        n <= data@.len(),
{
    let len = data.len();
    let mut pos: usize = 0;
    assert(data@.subrange(0, len as int) =~= data@);
    loop
        invariant
            len == data@.len(),
            pos <= len,
            complete_len(data@, delimiter) == pos + complete_len(
                data@.subrange(pos as int, len as int),
                delimiter,
            ),
        decreases len - pos,
    {
        let rest = vstd::slice::slice_subrange(data, pos, len);
        match record_end(rest, delimiter) {
            Some(k) => {
                assert(rest@.subrange(k as int, rest@.len() as int) =~= data@.subrange(
                    pos + k,
                    len as int,
                ));
                pos = pos + k;
            },
            None => {
                return pos;
            },
        }
    }
}

/// What the conversion reports when reading the input failed after the
/// bytes `read`, for the reason `cause`: the reader meets the failure when
/// it needs more than the records that end within `read`. Without a
/// complete header row that is the header's read; otherwise a record of
/// those that did end may fail first, and the failure is otherwise met
/// reading the next row.
pub open spec fn interrupted_read(
    read: Seq<u8>,
    cause: Seq<char>,
    with_header: bool,
    delimiter: u8,
) -> (CsvStep, Seq<char>) {
    let done = read.take(complete_len(read, delimiter) as int);
    if with_header {
        if csv_record_len(read, delimiter) is None {
            (CsvStep::Header, cause)
        } else {
            match csv_with_header(done, delimiter) {
                Err((CsvFailure::Header, c)) => (CsvStep::Header, c),
                Err((CsvFailure::Record, c)) => (CsvStep::RawRecord, c),
                Ok(_) => (CsvStep::RawRecord, cause),
            }
        }
    } else {
        match csv_without_header(done, delimiter) {
            Err(c) => (CsvStep::Record, c),
            Ok(_) => (CsvStep::Record, cause),
        }
    }
}

/// The error for a read of the input that failed after the bytes `read`.
fn read_failure(read: &Vec<u8>, cause: String, with_header: bool, delimiter: u8) -> (e: CsvError)
    ensures
        e matches CsvError::Failed { step, cause: k } && (step, k@) == interrupted_read(
            read@,
            cause@,
            with_header,
            delimiter,
        ),
{
    let n = complete_records_len(read.as_slice(), delimiter);
    let done = vstd::slice::slice_subrange(read.as_slice(), 0, n);
    assert(done@ =~= read@.take(complete_len(read@, delimiter) as int));
    if with_header {
        if record_end(read.as_slice(), delimiter).is_none() {
            return CsvError::Failed { step: CsvStep::Header, cause };
        }
        match read_csv_with_header(done, delimiter) {
            Err((CsvFailure::Header, c)) => CsvError::Failed { step: CsvStep::Header, cause: c },
            Err((CsvFailure::Record, c)) => CsvError::Failed { step: CsvStep::RawRecord, cause: c },
            Ok(_) => CsvError::Failed { step: CsvStep::RawRecord, cause },
        }
    } else {
        match read_csv_without_header(done, delimiter) {
            Err(c) => CsvError::Failed { step: CsvStep::Record, cause: c },
            Ok(_) => CsvError::Failed { step: CsvStep::Record, cause },
        }
    }
}

/// The error for text that could not be written in `format`.
fn conversion_failure(format: OutputFormat, cause: String) -> (e: CsvError)
    ensures
        e matches CsvError::Failed { step, cause: c } && c@ == cause@ && step == (match format {
            OutputFormat::Json => CsvStep::Json,
            OutputFormat::Yaml => CsvStep::Yaml,
        }),
{
    match format {
        OutputFormat::Json => CsvError::Failed { step: CsvStep::Json, cause },
        OutputFormat::Yaml => CsvError::Failed { step: CsvStep::Yaml, cause },
    }
}

/// Pairs the fields of `row` with the names of `header`.
fn zip_record(header: &Vec<String>, row: &Vec<String>) -> (pairs: Vec<(String, String)>)
    ensures
        pair_views(pairs@) == record_pairs(string_views(header@), string_views(row@)),
{
    let n = if header.len() <= row.len() {
        header.len()
    } else {
        row.len()
    };
    let mut pairs: Vec<(String, String)> = Vec::with_capacity(n);
    let mut j: usize = 0;
    while j < n
        invariant
            n <= header@.len(),
            n <= row@.len(),
            n == header@.len() || n == row@.len(),
            j <= n,
            pairs@.len() == j,
            forall|k: int|
                0 <= k < j ==> #[trigger] pairs@[k].0@ == header@[k]@ && pairs@[k].1@ == row@[k]@,
        decreases n - j,
    {
        pairs.push((header[j].clone(), row[j].clone()));
        j = j + 1;
    }
    assert(pair_views(pairs@) =~= record_pairs(string_views(header@), string_views(row@)));
    pairs
}

/// Pairs every data row with the header, as [`record_pairs`] describes.
pub fn pair_records(header: &Vec<String>, rows: &Vec<Vec<String>>) -> (objects: Vec<
    Vec<(String, String)>,
>)
    ensures
        pair_row_views(objects@) == row_views(rows@).map_values(
            |row: Seq<Seq<char>>| record_pairs(string_views(header@), row),
        ),
{
    let mut objects: Vec<Vec<(String, String)>> = Vec::with_capacity(rows.len());
    let n = rows.len();
    let mut i: usize = 0;
    while i < n
        invariant
            n == rows@.len(),
            i <= n,
            objects@.len() == i,
            forall|k: int|
                0 <= k < i ==> pair_views(#[trigger] objects@[k]@) == record_pairs(
                    string_views(header@),
                    string_views(rows@[k]@),
                ),
        decreases n - i,
    {
        objects.push(zip_record(header, &rows[i]));
        i = i + 1;
    }
    assert(pair_row_views(objects@) =~= row_views(rows@).map_values(
        |row: Seq<Seq<char>>| record_pairs(string_views(header@), row),
    ));
    objects
}

/// Converts CSV text to JSON or YAML. `content` is what reading `input`
/// gave; the delimiter is checked before the input is looked at. Where
/// reading failed after the input was opened, the conversion reports what
/// the CSV reader meets first, as [`interrupted_read`] describes.
pub fn process_csv(
    input: &str,
    content: Result<Vec<u8>, ReadError>,
    with_header: bool,
    delimiter: char,
    format: OutputFormat,
) -> (res: Result<String, CsvError>)
    ensures
        delimiter == '\0' ==> res == Err::<String, CsvError>(CsvError::NullDelimiter),
        delimiter != '\0' && (delimiter as u32) >= 0x80 ==> res == Err::<String, CsvError>(
            CsvError::MultiByteDelimiter,
        ),
        delimiter_ok(delimiter) ==> (content matches Err(ReadError::Open(c)) ==> (res matches Err(
            CsvError::Open { path: p, cause: k },
        ) && p@ == input@ && k@ == c@)),
        delimiter_ok(delimiter) ==> (content matches Err(ReadError::Read { read, cause: c }) ==> (
        res matches Err(CsvError::Failed { step, cause: k }) && (step, k@) == interrupted_read(
            read@,
            c@,
            with_header,
            delimiter as u8,
        ))),
        delimiter_ok(delimiter) ==> (content matches Ok(data) ==> match csv_document(
            data@,
            delimiter as u8,
            with_header,
            format,
        ) {
            Ok(t) => res matches Ok(s) && s@ == t,
            Err((step, cause)) => res matches Err(CsvError::Failed { step: st, cause: k }) && st
                == step && k@ == cause,
        }),
{
    validate_delimiter(delimiter)?;
    let data = match content {
        Ok(data) => data,
        Err(ReadError::Open(cause)) => return Err(
            CsvError::Open { path: String::from_str(input), cause },
        ),
        Err(ReadError::Read { read, cause }) => return Err(
            read_failure(&read, cause, with_header, delimiter as u8),
        ),
    };
    let d = delimiter as u8;
    if with_header {
        let (header, rows) = match read_csv_with_header(data.as_slice(), d) {
            Ok(table) => table,
            Err((CsvFailure::Header, cause)) => return Err(
                CsvError::Failed { step: CsvStep::Header, cause },
            ),
            Err((CsvFailure::Record, cause)) => return Err(
                CsvError::Failed { step: CsvStep::RawRecord, cause },
            ),
        };
        let objects = pair_records(&header, &rows);
        let text = match format {
            OutputFormat::Json => objects_to_json(&objects),
            OutputFormat::Yaml => objects_to_yaml(&objects),
        };
        match text {
            Ok(t) => Ok(t),
            Err(cause) => Err(conversion_failure(format, cause)),
        }
    } else {
        let rows = match read_csv_without_header(data.as_slice(), d) {
            Ok(rows) => rows,
            Err(cause) => return Err(CsvError::Failed { step: CsvStep::Record, cause }),
        };
        let text = match format {
            OutputFormat::Json => arrays_to_json(&rows),
            OutputFormat::Yaml => arrays_to_yaml(&rows),
        };
        match text {
            Ok(t) => Ok(t),
            Err(cause) => Err(conversion_failure(format, cause)),
        }
    }
}

} // verus!
