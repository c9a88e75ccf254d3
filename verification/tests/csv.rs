use std::io::{Read, Write};

use rcli::{process_csv, validate_delimiter, CsvError, CsvOpts, CsvStep, OutputFormat, ReadError};

fn write_temp(content: &[u8]) -> (tempfile::NamedTempFile, String) {
    let mut file = tempfile::NamedTempFile::new().unwrap();
    file.write_all(content).unwrap();
    let path = file.path().to_str().unwrap().to_string();
    (file, path)
}

fn read_bytes(file: &tempfile::NamedTempFile) -> Result<Vec<u8>, ReadError> {
    let mut reader = file.reopen().map_err(|e| ReadError::Open(e.to_string()))?;
    let mut buffer = Vec::new();
    if let Err(e) = reader.read_to_end(&mut buffer) {
        return Err(ReadError::Read { read: buffer, cause: e.to_string() });
    }
    Ok(buffer)
}

/// What a real attempt to open a file in a missing directory reports.
fn open_failure() -> ReadError {
    let err = tempfile::NamedTempFile::new_in("/nonexistent/dir").unwrap_err();
    ReadError::Open(err.to_string())
}

/// The failed step of a conversion, if it failed at one.
fn failed_step(res: &Result<String, CsvError>) -> Option<CsvStep> {
    match res {
        Err(CsvError::Failed { step, .. }) => Some(*step),
        _ => None,
    }
}

fn convert(content: &str, with_header: bool, delimiter: char, format: OutputFormat) -> Result<String, CsvError> {
    process_csv("input.csv", Ok(content.as_bytes().to_vec()), with_header, delimiter, format)
}

#[test]
fn test_process_csv_to_json() {
    let csv_content = r#"name,age,city
Alice,30,New York
Bob,25,London
"#;
    let (input_file, input_path) = write_temp(csv_content.as_bytes());

    let file_content = process_csv(
        &input_path,
        read_bytes(&input_file),
        true,
        ',',
        OutputFormat::Json,
    )
    .unwrap();

    assert!(file_content.contains("Alice"));
    assert!(file_content.contains("New York"));
    assert!(file_content.contains("25"));

    let json: serde_json::Value = serde_json::from_str(&file_content).unwrap();
    assert_eq!(json.as_array().unwrap().len(), 2);
}

#[test]
fn test_process_csv_to_yaml() {
    let csv_content = "id,skill\n1,Rust\n2,Testing\n";
    let (input_file, input_path) = write_temp(csv_content.as_bytes());

    let file_content = process_csv(
        &input_path,
        read_bytes(&input_file),
        true,
        ',',
        OutputFormat::Yaml,
    )
    .unwrap();

    assert!(file_content.contains("Rust"));
    assert!(file_content.contains("Testing"));

    let yaml: yaml_serde::Value = yaml_serde::from_str(&file_content).unwrap();
    assert!(yaml.is_sequence());
}

#[test]
fn test_csv_file_not_found() {
    // the file cannot be opened
    let res = process_csv("not_exist.csv", Err(open_failure()), true, ',', OutputFormat::Json);
    assert!(res.is_err());
}

#[test]
fn open_failure_names_the_file() {
    let res = process_csv(
        "not_exist.csv",
        Err(ReadError::Open("No such file or directory (os error 2)".to_string())),
        true,
        ',',
        OutputFormat::Json,
    );
    let err = res.unwrap_err();
    assert_eq!(err.message(), "failed to open file not_exist.csv");
    assert_eq!(err.cause(), Some("No such file or directory (os error 2)".to_string()));
}

#[test]
fn json_objects_have_sorted_keys() {
    let out = convert("name,age\nAlice,30\n", true, ',', OutputFormat::Json).unwrap();
    assert_eq!(out, "[\n  {\n    \"age\": \"30\",\n    \"name\": \"Alice\"\n  }\n]");
}

#[test]
fn rows_without_header_become_arrays() {
    let out = convert("a;b\nc;d\n", false, ';', OutputFormat::Json).unwrap();
    assert_eq!(out, "[\n  [\n    \"a\",\n    \"b\"\n  ],\n  [\n    \"c\",\n    \"d\"\n  ]\n]");
}

#[test]
fn header_only_gives_empty_list() {
    let out = convert("name,age\n", true, ',', OutputFormat::Json).unwrap();
    assert_eq!(out, "[]");
}

#[test]
fn yaml_without_header() {
    let out = convert("x\ty\n", false, '\t', OutputFormat::Yaml).unwrap();
    let yaml: yaml_serde::Value = yaml_serde::from_str(&out).unwrap();
    assert!(yaml.is_sequence());
    assert!(out.contains('x') && out.contains('y'));
}

#[test]
fn null_delimiter_is_refused_first() {
    let res = process_csv("not_exist.csv", Err(open_failure()), true, '\0', OutputFormat::Json);
    assert_eq!(res, Err(CsvError::NullDelimiter));
    assert_eq!(validate_delimiter('\0').unwrap_err().message(), "delimiter cannot be null character");
}

#[test]
fn multibyte_delimiter_is_refused() {
    assert_eq!(validate_delimiter('é'), Err(CsvError::MultiByteDelimiter));
    assert_eq!(
        validate_delimiter('，').unwrap_err().message(),
        "delimiter must be a single-byte character"
    );
    assert_eq!(validate_delimiter('|'), Ok(()));
    assert_eq!(validate_delimiter('\u{7f}'), Ok(()));
}

#[test]
fn uneven_rows_fail_after_header() {
    let res = convert("a,b\n1,2,3\n", true, ',', OutputFormat::Json);
    assert_eq!(failed_step(&res), Some(CsvStep::RawRecord));
    let err = res.unwrap_err();
    assert_eq!(err.message(), "failed to read raw record");
    assert_eq!(
        err.cause(),
        Some("CSV error: record 1 (line: 2, byte: 4): found record with 3 fields, but the previous record has 2 fields".to_string())
    );
}

#[test]
fn uneven_rows_fail_without_header() {
    let res = convert("a,b\n1,2,3\n", false, ',', OutputFormat::Yaml);
    assert_eq!(failed_step(&res), Some(CsvStep::Record));
    assert_eq!(res.unwrap_err().message(), "failed to read record");
}

/// A reader that gives `data` as a file does, as much as is asked for, then
/// fails.
struct FailsAfter {
    data: Vec<u8>,
    pos: usize,
}

impl std::io::Read for FailsAfter {
    fn read(&mut self, buf: &mut [u8]) -> std::io::Result<usize> {
        if self.pos >= self.data.len() {
            return Err(std::io::Error::other("boom"));
        }
        let n = buf.len().min(self.data.len() - self.pos);
        buf[..n].copy_from_slice(&self.data[self.pos..self.pos + n]);
        self.pos += n;
        Ok(n)
    }
}

/// What streaming the csv crate over a reader that fails after `data`
/// reports: the failed step and the reason.
fn streamed_failure(data: &[u8], with_header: bool) -> (CsvStep, String) {
    let source = FailsAfter { data: data.to_vec(), pos: 0 };
    let mut reader = csv::ReaderBuilder::new().has_headers(with_header).from_reader(source);
    if with_header {
        if let Err(e) = reader.headers() {
            return (CsvStep::Header, e.to_string());
        }
        for record in reader.records() {
            if let Err(e) = record {
                return (CsvStep::RawRecord, e.to_string());
            }
        }
    } else {
        for record in reader.records() {
            if let Err(e) = record {
                return (CsvStep::Record, e.to_string());
            }
        }
    }
    panic!("the reader cannot succeed: {:?} {}", String::from_utf8_lossy(data), with_header);
}

fn interrupted(data: &[u8], with_header: bool) -> (CsvStep, String) {
    let content = Err(ReadError::Read { read: data.to_vec(), cause: "boom".to_string() });
    match process_csv("in.csv", content, with_header, ',', OutputFormat::Json) {
        Err(CsvError::Failed { step, cause }) => (step, cause),
        other => panic!("unexpected {other:?}"),
    }
}

#[test]
fn read_failure_before_header_ends_is_a_header_failure() {
    assert_eq!(interrupted(b"", true), (CsvStep::Header, "boom".to_string()));
    assert_eq!(interrupted(b"name,a", true), (CsvStep::Header, "boom".to_string()));
    assert_eq!(interrupted(b"\"a\nb", true), (CsvStep::Header, "boom".to_string()));
    assert_eq!(interrupted(b"", false), (CsvStep::Record, "boom".to_string()));
}

#[test]
fn read_failure_after_header_is_a_raw_record_failure() {
    assert_eq!(interrupted(b"a,b\n", true), (CsvStep::RawRecord, "boom".to_string()));
    assert_eq!(interrupted(b"a,b\n1,2\n3", true), (CsvStep::RawRecord, "boom".to_string()));
    let (step, cause) = interrupted(b"a,b\n1,2,3\n4", true);
    assert_eq!(step, CsvStep::RawRecord);
    assert!(cause.contains("found record with 3 fields"));
    let (step, cause) = interrupted(b"\xff\n1\n", true);
    assert_eq!(step, CsvStep::Header);
    assert_ne!(cause, "boom");
}

#[test]
fn read_failure_matches_streaming_reader() {
    let prefixes: [&[u8]; 14] = [
        b"",
        b"a",
        b"a,b",
        b"a,b\n",
        b"a,b\r",
        b"a,b\r\n",
        b"a,b\n\n1,2",
        b"a,b\n1,2\n",
        b"a,\"b\nc\"\n1,2",
        b"a,\"b\nc",
        b"a,b\n1,2,3\n",
        b"a,b\n1,2,3",
        b"\xef\xbb\xbfa,b\n1,2\n",
        b"a,b\n\xff,1\n2,3\n",
    ];
    for prefix in prefixes {
        for with_header in [true, false] {
            assert_eq!(
                interrupted(prefix, with_header),
                streamed_failure(prefix, with_header),
                "{:?} with_header={}",
                String::from_utf8_lossy(prefix),
                with_header
            );
        }
    }
}

#[test]
fn invalid_utf8_header_fails() {
    let res = process_csv("in.csv", Ok(vec![0xff, 0xfe, b'\n', b'a', b'\n']), true, ',', OutputFormat::Json);
    assert_eq!(failed_step(&res), Some(CsvStep::Header));
    assert_eq!(res.unwrap_err().message(), "failed to read header");
}

#[test]
fn default_output_path_follows_format() {
    let opts = CsvOpts {
        input: "input.csv".to_string(),
        output: None,
        delimiter: ',',
        no_header: false,
        format: OutputFormat::Yaml,
    };
    assert_eq!(opts.output_path(), "output.yaml");
    assert!(opts.with_header());
    let opts = CsvOpts { output: Some("r.json".to_string()), no_header: true, ..opts };
    assert_eq!(opts.output_path(), "r.json");
    assert!(!opts.with_header());
}

#[test]
fn rows_are_paired_with_header() {
    let header = vec!["a".to_string(), "b".to_string()];
    let rows = vec![
        vec!["1".to_string(), "2".to_string()],
        vec!["3".to_string()],
        vec!["4".to_string(), "5".to_string(), "6".to_string()],
    ];
    let objects = rcli::process::csv::pair_records(&header, &rows);
    let pair = |k: &str, v: &str| (k.to_string(), v.to_string());
    assert_eq!(
        objects,
        vec![
            vec![pair("a", "1"), pair("b", "2")],
            vec![pair("a", "3")],
            vec![pair("a", "4"), pair("b", "5")],
        ]
    );
}
