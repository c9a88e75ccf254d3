use rcli::{
    parse_base64_format, parse_format, port_in_range, verify_file, Base64Format, FormatError,
    OutputFormat,
};

#[test]
fn base64_format_names() {
    assert_eq!(parse_base64_format("standard"), Ok(Base64Format::Standard));
    assert_eq!(parse_base64_format("urlsafe"), Ok(Base64Format::UrlSafe));
    assert_eq!("urlsafe".parse::<Base64Format>(), Ok(Base64Format::UrlSafe));
    let err = parse_base64_format("url-safe").unwrap_err();
    assert_eq!(err, FormatError::InvalidBase64Format("url-safe".to_string()));
    assert_eq!(err.message(), "Invalid format: url-safe");
    for f in [Base64Format::Standard, Base64Format::UrlSafe] {
        let name: &'static str = f.into();
        assert_eq!(name, f.name());
        assert_eq!(parse_base64_format(name), Ok(f));
    }
}

#[test]
fn output_format_names() {
    assert_eq!(parse_format("json"), Ok(OutputFormat::Json));
    assert_eq!("yaml".parse::<OutputFormat>(), Ok(OutputFormat::Yaml));
    let err = parse_format("toml").unwrap_err();
    assert_eq!(err.message(), "Unsupported format 'toml' (supported: json/yaml)");
    assert!(parse_format("JSON").is_err());
    for f in [OutputFormat::Json, OutputFormat::Yaml] {
        assert_eq!(parse_format(&f.to_text()), Ok(f));
        let name: &'static str = f.into();
        assert_eq!(name, f.name());
    }
}

#[test]
fn input_file_argument() {
    assert_eq!(verify_file("-", false), Ok("-".to_string()));
    assert_eq!(verify_file("data.txt", true), Ok("data.txt".to_string()));
    let err = verify_file("data.txt", false).unwrap_err();
    assert_eq!(err.message(), "File 'data.txt' does not exist");
}

#[test]
fn ports_in_range() {
    assert_eq!(port_in_range("10010"), Ok(10010));
    assert_eq!(port_in_range("1"), Ok(1));
    assert_eq!(port_in_range("65535"), Ok(65535));
    assert_eq!(port_in_range("+80"), Ok(80));
    assert_eq!(port_in_range("0080"), Ok(80));
}

#[test]
fn ports_out_of_range() {
    assert_eq!(port_in_range("0"), Err("port not in range 1-65535".to_string()));
    assert_eq!(port_in_range("65536"), Err("port not in range 1-65535".to_string()));
    assert_eq!(
        port_in_range("18446744073709551615"),
        Err("port not in range 1-65535".to_string())
    );
}

#[test]
fn ports_that_are_not_numbers() {
    assert_eq!(port_in_range("abc"), Err("`abc` isn't a port number".to_string()));
    assert_eq!(port_in_range(""), Err("`` isn't a port number".to_string()));
    assert_eq!(port_in_range("+"), Err("`+` isn't a port number".to_string()));
    assert_eq!(port_in_range("-1"), Err("`-1` isn't a port number".to_string()));
    assert_eq!(port_in_range("8 0"), Err("`8 0` isn't a port number".to_string()));
    assert_eq!(
        port_in_range("18446744073709551616"),
        Err("`18446744073709551616` isn't a port number".to_string())
    );
}

#[test]
fn ports_agree_with_std_parsing() {
    for s in ["1", "80", "+443", "65535", "65536", "0", "", "+", "++1", "1a", "٣", "99999999999999999999"] {
        let expected = match s.parse::<usize>() {
            Ok(n) if (1..=65535).contains(&n) => Ok(n as u16),
            Ok(_) => Err("port not in range 1-65535".to_string()),
            Err(_) => Err(format!("`{s}` isn't a port number")),
        };
        assert_eq!(port_in_range(s), expected, "input {s:?}");
    }
}

#[test]
fn every_port_reads_back() {
    for p in 1..=65535u16 {
        assert_eq!(port_in_range(&rcli::text::decimal_string(p as u64)), Ok(p));
    }
}
