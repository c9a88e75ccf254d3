use std::io::{Read, Write};

use base64::engine::general_purpose::STANDARD;
use base64::Engine;
use rcli::{process_base64_decode, process_base64_encode, Base64Error, Base64Format, ReadError};

// helper: write bytes to a temp file, return it with its path
fn write_temp(content: &[u8]) -> (tempfile::NamedTempFile, String) {
    let mut file = tempfile::NamedTempFile::new().unwrap();
    file.write_all(content).unwrap();
    let path = file.path().to_str().unwrap().to_string();
    (file, path)
}

// what reading the input gives: the bytes of the temp file
fn read_bytes(file: &tempfile::NamedTempFile) -> Result<Vec<u8>, ReadError> {
    let mut reader = file.reopen().map_err(|e| ReadError::Open(e.to_string()))?;
    let mut buffer = Vec::new();
    if let Err(e) = reader.read_to_end(&mut buffer) {
        return Err(ReadError::Read { read: buffer, cause: e.to_string() });
    }
    Ok(buffer)
}

// what a real attempt to open a file in a missing directory reports
fn open_failure() -> ReadError {
    let err = tempfile::NamedTempFile::new_in("/nonexistent/dir").unwrap_err();
    ReadError::Open(err.to_string())
}

fn read_text(file: &tempfile::NamedTempFile) -> Result<String, ReadError> {
    let bytes = read_bytes(file)?;
    String::from_utf8(bytes).map_err(|e| ReadError::Read { read: e.as_bytes().to_vec(), cause: e.to_string() })
}

fn encode_file(file: &tempfile::NamedTempFile, path: &str, format: Base64Format) -> Result<String, Base64Error> {
    process_base64_encode(path, read_bytes(file), format)
}

fn decode_file(file: &tempfile::NamedTempFile, path: &str, format: Base64Format) -> Result<Vec<u8>, Base64Error> {
    process_base64_decode(path, read_text(file), format)
}

#[test]
fn test_encode_standard() {
    let (file, path) = write_temp(b"hello world");
    let result = encode_file(&file, &path, Base64Format::Standard).unwrap();
    assert_eq!(result, "aGVsbG8gd29ybGQ=");
}

#[test]
fn test_encode_urlsafe() {
    let (file, path) = write_temp(b"\xfb\xff\xfe");
    let result = encode_file(&file, &path, Base64Format::UrlSafe).unwrap();
    // URL-safe replaces '+' with '-' and '/' with '_', no padding
    assert_eq!(result, "-__-");
}

#[test]
fn test_encode_empty() {
    let (file, path) = write_temp(b"");
    let result = encode_file(&file, &path, Base64Format::Standard).unwrap();
    assert_eq!(result, "");
}

#[test]
fn test_decode_standard() {
    let (file, path) = write_temp(b"aGVsbG8gd29ybGQ=");
    let result = decode_file(&file, &path, Base64Format::Standard).unwrap();
    assert_eq!(result, b"hello world");
}

#[test]
fn test_decode_urlsafe() {
    let (file, path) = write_temp(b"-__-");
    let result = decode_file(&file, &path, Base64Format::UrlSafe).unwrap();
    assert_eq!(result, b"\xfb\xff\xfe");
}

#[test]
fn test_decode_trims_trailing_newline() {
    let (file, path) = write_temp(b"aGVsbG8gd29ybGQ=\n");
    let result = decode_file(&file, &path, Base64Format::Standard).unwrap();
    assert_eq!(result, b"hello world");
}

#[test]
fn test_decode_binary() {
    // binary round-trip: all 256 byte values must survive encode -> decode
    let original: Vec<u8> = (0u8..=255).collect();
    let encoded = STANDARD.encode(&original);

    let (file, path) = write_temp(encoded.as_bytes());
    let result = decode_file(&file, &path, Base64Format::Standard).unwrap();
    assert_eq!(result, original);
}

#[test]
fn test_roundtrip_standard() {
    let original = b"round trip test 123 !@#";
    let (file, path) = write_temp(original);
    let encoded = encode_file(&file, &path, Base64Format::Standard).unwrap();

    let (file2, path2) = write_temp(encoded.as_bytes());
    let decoded = decode_file(&file2, &path2, Base64Format::Standard).unwrap();
    assert_eq!(decoded, original);
}

#[test]
fn test_roundtrip_urlsafe() {
    let original = b"url safe round trip ~!@#$%";
    let (file, path) = write_temp(original);
    let encoded = encode_file(&file, &path, Base64Format::UrlSafe).unwrap();

    let (file2, path2) = write_temp(encoded.as_bytes());
    let decoded = decode_file(&file2, &path2, Base64Format::UrlSafe).unwrap();
    assert_eq!(decoded, original);
}

#[test]
fn test_encode_missing_file() {
    // the file cannot be opened
    let result = process_base64_encode("/nonexistent/file.txt", Err(open_failure()), Base64Format::Standard);
    assert!(result.is_err());
    assert!(result.unwrap_err().message().contains("failed to open"));
}

#[test]
fn test_decode_invalid_base64() {
    let (file, path) = write_temp(b"not!valid==");
    let result = decode_file(&file, &path, Base64Format::Standard);
    assert!(result.is_err());
}

#[test]
fn test_decode_wrong_format() {
    // standard-encoded input decoded as URL-safe must fail
    let (file, path) = write_temp(b"+//+"); // valid standard, invalid URL-safe
    let result = decode_file(&file, &path, Base64Format::UrlSafe);
    assert!(result.is_err());
}

#[test]
fn missing_file_message_names_path() {
    let cause = "No such file or directory (os error 2)".to_string();
    let result = process_base64_decode("in.b64", Err(ReadError::Open(cause.clone())), Base64Format::Standard);
    assert_eq!(result, Err(Base64Error::Open { path: "in.b64".to_string(), cause: cause.clone() }));
    let err = result.unwrap_err();
    assert_eq!(err.message(), "failed to open in.b64");
    assert_eq!(err.cause(), Some(cause));
}

#[test]
fn read_failure_is_passed_on() {
    let result = process_base64_encode(
        "-",
        Err(ReadError::Read { read: Vec::new(), cause: "stream did not contain valid UTF-8".to_string() }),
        Base64Format::UrlSafe,
    );
    assert_eq!(result.unwrap_err().message(), "stream did not contain valid UTF-8");
}

#[test]
fn encoded_length_follows_padding() {
    for n in 0..10usize {
        let data = vec![7u8; n];
        let padded = process_base64_encode("-", Ok(data.clone()), Base64Format::Standard).unwrap();
        let unpadded = process_base64_encode("-", Ok(data), Base64Format::UrlSafe).unwrap();
        assert_eq!(padded.len(), (n + 2) / 3 * 4);
        let expected = n / 3 * 4 + [0, 2, 3][n % 3];
        assert_eq!(unpadded.len(), expected);
    }
}

#[test]
fn decode_ignores_surrounding_whitespace() {
    let text = " \t\u{3000}aGVsbA==\r\n\u{2029}".to_string();
    let result = process_base64_decode("-", Ok(text), Base64Format::Standard).unwrap();
    assert_eq!(result, b"hell");
}

#[test]
fn decode_error_is_a_decode_error() {
    let result = process_base64_decode("-", Ok("aGVsbA=".to_string()), Base64Format::Standard);
    assert!(matches!(result, Err(Base64Error::Decode(_))));
}

#[test]
fn roundtrip_of_every_length() {
    for n in 0..40usize {
        let data: Vec<u8> = (0..n).map(|i| (i * 37 % 256) as u8).collect();
        for format in [Base64Format::Standard, Base64Format::UrlSafe] {
            let text = process_base64_encode("-", Ok(data.clone()), format).unwrap();
            let back = process_base64_decode("-", Ok(text), format).unwrap();
            assert_eq!(back, data);
        }
    }
}

#[test]
fn standard_encoding_matches_rfc_vectors() {
    let vectors = [
        ("", ""),
        ("f", "Zg=="),
        ("fo", "Zm8="),
        ("foo", "Zm9v"),
        ("foob", "Zm9vYg=="),
        ("fooba", "Zm9vYmE="),
        ("foobar", "Zm9vYmFy"),
    ];
    for (plain, encoded) in vectors {
        let text = process_base64_encode("-", Ok(plain.as_bytes().to_vec()), Base64Format::Standard).unwrap();
        assert_eq!(text, encoded);
    }
}

#[test]
fn url_safe_alphabet_replaces_plus_and_slash() {
    let data = vec![0xfb, 0xff];
    let standard = process_base64_encode("-", Ok(data.clone()), Base64Format::Standard).unwrap();
    let url_safe = process_base64_encode("-", Ok(data), Base64Format::UrlSafe).unwrap();
    assert_eq!(standard, "+/8=");
    assert_eq!(url_safe, "-_8");
}

#[test]
fn url_safe_text_is_standard_text_rewritten() {
    for n in 0..64usize {
        let data: Vec<u8> = (0..n).map(|i| (255 - i * 11 % 256) as u8).collect();
        let standard = process_base64_encode("-", Ok(data.clone()), Base64Format::Standard).unwrap();
        let url_safe = process_base64_encode("-", Ok(data), Base64Format::UrlSafe).unwrap();
        let rewritten = standard.trim_end_matches('=').replace('+', "-").replace('/', "_");
        assert_eq!(url_safe, rewritten);
    }
}

#[test]
fn padded_text_is_refused_by_url_safe_decoding() {
    let result = process_base64_decode("-", Ok("Zg==".to_string()), Base64Format::UrlSafe);
    assert!(matches!(result, Err(Base64Error::Decode(_))));
    let result = process_base64_decode("-", Ok("Zg".to_string()), Base64Format::UrlSafe).unwrap();
    assert_eq!(result, b"f");
}

#[test]
fn set_trailing_bits_are_refused() {
    let result = process_base64_decode("-", Ok("Zh==".to_string()), Base64Format::Standard);
    assert!(matches!(result, Err(Base64Error::Decode(_))));
}

#[test]
fn encoded_text_with_newline_decodes_back() {
    let data = b"round trip\n\x00\xff".to_vec();
    for format in [Base64Format::Standard, Base64Format::UrlSafe] {
        let text = process_base64_encode("-", Ok(data.clone()), format).unwrap();
        let padded = format!("  {}\n", text);
        assert_eq!(process_base64_decode("-", Ok(padded), format).unwrap(), data);
    }
}
