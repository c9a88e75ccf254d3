use rcli::{
    build_password, gen_single_passwd, passwd_console_report, passwd_file_text, process_gen_passwd,
    GenPasswdOpts, GenerateError, OutputLocation, PasswdOptsError,
};

const UPPER: &str = "ABCDEFGHIJKMNPQRSTUVWXYZ";
const LOWER: &str = "abcdefghijkmnpqrstuvwxyz";
const NUMBER: &str = "123456789";
const SYMBOL: &str = "!@#$%^&*_";

fn opts() -> GenPasswdOpts {
    GenPasswdOpts {
        length: 16,
        no_uppercase: false,
        no_lowercase: false,
        no_numeric: false,
        no_symbolic: false,
        batch_count: 1,
        output: None,
    }
}

fn nowhere() -> OutputLocation {
    OutputLocation { parent: None, parent_exists: false, current_dir_exists: true, is_dir: false }
}

fn check_password(p: &str, length: usize, sets: &[(&str, bool)]) {
    assert_eq!(p.chars().count(), length);
    for c in p.chars() {
        assert!(sets.iter().any(|(set, on)| *on && set.contains(c)), "{c} in {p}");
    }
    for (set, on) in sets {
        if *on {
            assert!(p.chars().any(|c| set.contains(c)), "{set} in {p}");
        }
    }
}

#[test]
fn default_options_are_valid() {
    assert_eq!(opts().validate(&nowhere()), Ok(()));
}

#[test]
fn zero_length_is_refused() {
    let o = GenPasswdOpts { length: 0, no_uppercase: true, no_lowercase: true, no_numeric: true, no_symbolic: true, ..opts() };
    let err = o.validate(&nowhere()).unwrap_err();
    assert_eq!(err, PasswdOptsError::ZeroLength);
    assert_eq!(err.message(), "Password length must be greater than 0");
}

#[test]
fn no_charset_is_refused() {
    let o = GenPasswdOpts { no_uppercase: true, no_lowercase: true, no_numeric: true, no_symbolic: true, ..opts() };
    let err = o.validate(&nowhere()).unwrap_err();
    assert_eq!(err, PasswdOptsError::NoCharacterSet);
    assert_eq!(
        err.message(),
        "At least one of character set must be enabled（uppercase/lowercase/numeric/symbolic）"
    );
}

#[test]
fn length_below_charsets_is_refused() {
    let o = GenPasswdOpts { length: 3, ..opts() };
    let err = o.validate(&nowhere()).unwrap_err();
    assert_eq!(err, PasswdOptsError::LengthTooShort(4));
    assert_eq!(err.message(), "Length must be at least 4 character length");
    let o = GenPasswdOpts { length: 2, no_symbolic: true, ..opts() };
    assert_eq!(o.validate(&nowhere()), Err(PasswdOptsError::LengthTooShort(3)));
    let o = GenPasswdOpts { length: 3, no_symbolic: true, ..opts() };
    assert_eq!(o.validate(&nowhere()), Ok(()));
}

#[test]
fn zero_batch_is_refused() {
    let o = GenPasswdOpts { batch_count: 0, ..opts() };
    let err = o.validate(&nowhere()).unwrap_err();
    assert_eq!(err, PasswdOptsError::ZeroBatchCount);
    assert_eq!(err.message(), "Batch count must be greater than 0");
}

#[test]
fn output_directory_must_exist() {
    let o = GenPasswdOpts { output: Some("out/p.txt".to_string()), ..opts() };
    let loc = OutputLocation { parent: Some("out".to_string()), parent_exists: false, current_dir_exists: true, is_dir: false };
    let err = o.validate(&loc).unwrap_err();
    assert_eq!(err, PasswdOptsError::MissingOutputDirectory("out".to_string()));
    assert_eq!(err.message(), "Output directory \"out\" does not exist");
    let loc = OutputLocation { parent: Some("out".to_string()), parent_exists: true, current_dir_exists: true, is_dir: false };
    assert_eq!(o.validate(&loc), Ok(()));
}

#[test]
fn file_in_current_directory_is_accepted() {
    let o = GenPasswdOpts { output: Some("passwords.txt".to_string()), ..opts() };
    let loc = OutputLocation { parent: Some(String::new()), parent_exists: false, current_dir_exists: true, is_dir: false };
    assert_eq!(o.validate(&loc), Ok(()));
}

#[test]
fn file_in_missing_current_directory_is_refused() {
    let o = GenPasswdOpts { output: Some("passwords.txt".to_string()), ..opts() };
    let loc = OutputLocation { parent: Some(String::new()), parent_exists: true, current_dir_exists: false, is_dir: false };
    let err = o.validate(&loc).unwrap_err();
    assert_eq!(err, PasswdOptsError::MissingOutputDirectory(String::new()));
    assert_eq!(err.message(), "Output directory \"\" does not exist");
}

#[test]
fn directory_in_message_is_escaped() {
    let err = PasswdOptsError::MissingOutputDirectory("a\"b\\c\n".to_string());
    assert_eq!(err.message(), "Output directory \"a\\\"b\\\\c\\n\" does not exist");
    let err = PasswdOptsError::OutputIsDirectory("d\tir".to_string());
    assert_eq!(err.message(), "Output directory \"d\\tir\" is a directory, not a file");
}

#[test]
fn password_is_built_from_draws_in_order() {
    let firsts = vec!['A', 'b', '7'];
    let fills = vec!['x', '%'];
    assert_eq!(build_password(&firsts, &fills, &vec![0, 1, 2, 3, 4]), "Ab7x%");
    assert_eq!(build_password(&firsts, &fills, &vec![4, 3, 2, 1, 0]), "%x7bA");
    assert_eq!(build_password(&firsts, &fills, &vec![3, 0, 4, 2, 1]), "xA%7b");
    assert_eq!(build_password(&Vec::new(), &Vec::new(), &Vec::new()), "");
}

#[test]
fn output_must_not_be_a_directory() {
    let o = GenPasswdOpts { output: Some("out".to_string()), ..opts() };
    let loc = OutputLocation { parent: Some(String::new()), parent_exists: false, current_dir_exists: true, is_dir: true };
    let err = o.validate(&loc).unwrap_err();
    assert_eq!(err, PasswdOptsError::OutputIsDirectory("out".to_string()));
    assert_eq!(err.message(), "Output directory \"out\" is a directory, not a file");
}

#[test]
fn location_is_ignored_without_output() {
    let loc = OutputLocation { parent: Some("gone".to_string()), parent_exists: false, current_dir_exists: true, is_dir: true };
    assert_eq!(opts().validate(&loc), Ok(()));
}

#[test]
fn single_password_uses_every_enabled_set() {
    for _ in 0..50 {
        let p = gen_single_passwd(16, true, true, true, true).unwrap();
        check_password(&p, 16, &[(UPPER, true), (LOWER, true), (NUMBER, true), (SYMBOL, true)]);
    }
}

#[test]
fn shortest_password_has_one_of_each() {
    for _ in 0..50 {
        let p = gen_single_passwd(4, true, true, true, true).unwrap();
        check_password(&p, 4, &[(UPPER, true), (LOWER, true), (NUMBER, true), (SYMBOL, true)]);
    }
}

#[test]
fn disabled_sets_do_not_appear() {
    for _ in 0..50 {
        let p = gen_single_passwd(20, false, true, true, false).unwrap();
        check_password(&p, 20, &[(UPPER, false), (LOWER, true), (NUMBER, true), (SYMBOL, false)]);
        assert!(!p.contains('0') && !p.contains('l') && !p.contains('o'));
    }
}

#[test]
fn no_set_is_an_error() {
    let err = gen_single_passwd(8, false, false, false, false).unwrap_err();
    assert_eq!(err, GenerateError::NoCharacterSets);
    assert_eq!(err.message(), "No character sets available for password generation");
}

#[test]
fn batch_has_requested_count() {
    let ps = process_gen_passwd(12, true, false, true, false, 5).unwrap();
    assert_eq!(ps.len(), 5);
    for p in &ps {
        check_password(p, 12, &[(UPPER, true), (LOWER, false), (NUMBER, true), (SYMBOL, false)]);
    }
}

#[test]
fn empty_batch_needs_no_charset() {
    assert_eq!(process_gen_passwd(8, false, false, false, false, 0), Ok(Vec::new()));
    assert_eq!(
        process_gen_passwd(8, false, false, false, false, 2),
        Err(GenerateError::NoCharacterSets)
    );
}

#[test]
fn console_report_lists_passwords() {
    let ps = vec!["abc".to_string(), "xyz".to_string()];
    assert_eq!(passwd_console_report(&ps), "Generated 2 passwords:\n[1] abc\n[2] xyz\n");
    assert_eq!(passwd_console_report(&Vec::new()), "Generated 0 passwords:\n");
}

#[test]
fn file_text_has_one_password_per_line() {
    let ps = vec!["abc".to_string(), "xyz".to_string()];
    assert_eq!(passwd_file_text(&ps), "abc\nxyz\n");
}

#[test]
fn validated_options_always_generate() {
    let cases = [(1u8, false, true, true, true), (4, false, false, false, false), (2, true, false, true, false)];
    for (length, nu, nl, nn, ns) in cases {
        let o = GenPasswdOpts {
            length,
            no_uppercase: nu,
            no_lowercase: nl,
            no_numeric: nn,
            no_symbolic: ns,
            batch_count: 3,
            output: None,
        };
        assert_eq!(o.validate(&nowhere()), Ok(()));
        let ps = process_gen_passwd(length, !nu, !nl, !nn, !ns, 3).unwrap();
        assert_eq!(ps.len(), 3);
        for p in &ps {
            check_password(p, length as usize, &[(UPPER, !nu), (LOWER, !nl), (NUMBER, !nn), (SYMBOL, !ns)]);
        }
    }
}

#[test]
fn passwords_are_shuffled() {
    // one character of each set is picked first; after shuffling, the first
    // position holds other kinds of characters too
    let mut first_not_upper = false;
    let mut distinct = std::collections::HashSet::new();
    for _ in 0..200 {
        let p = gen_single_passwd(16, true, true, true, true).unwrap();
        if !UPPER.contains(p.chars().next().unwrap()) {
            first_not_upper = true;
        }
        distinct.insert(p);
    }
    assert!(first_not_upper);
    assert!(distinct.len() > 190);
}
