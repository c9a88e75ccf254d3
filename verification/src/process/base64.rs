//! Base64 encoding and decoding of command input.
use vstd::prelude::*;

use base64::engine::general_purpose::{STANDARD, URL_SAFE_NO_PAD};
use base64::Engine;

use crate::cli::base64::Base64Format;
use crate::process::ReadError;
use crate::text::{append_str, is_whitespace, lemma_trim_surrounded, trim, trimmed};

verus! {

/// The character that stands for the six-bit value `v` in the Base64
/// alphabet of RFC 4648: `A`–`Z`, `a`–`z` and `0`–`9` for 0 to 61, then `+`
/// and `/`, or `-` and `_` in the URL-safe alphabet.
pub open spec fn base64_symbol(v: int, url_safe: bool) -> char {
    if v < 26 {
        (65 + v) as char
    } else if v < 52 {
        (71 + v) as char
    } else if v < 62 {
        (v - 4) as char
    } else if v == 62 {
        if url_safe {
            '-'
        } else {
            '+'
        }
    } else {
        if url_safe {
            '_'
        } else {
            '/'
        }
    }
}

/// `=` twice, once or not at all: the padding of a last group.
pub open spec fn padding(pad: bool, n: nat) -> Seq<char> {
    if pad {
        Seq::new(n, |i: int| '=')
    } else {
        Seq::empty()
    }
}

/// The Base64 text of `data` (RFC 4648): each group of three bytes, read as
/// a 24-bit number, gives four characters of six bits each; a last group of
/// one or two bytes gives two or three characters, filled up with `=` to
/// four where `pad` holds.
pub open spec fn base64_encoding(data: Seq<u8>, url_safe: bool, pad: bool) -> Seq<char>
    decreases data.len(),
{
    if data.len() == 0 {
        Seq::empty()
    } else if data.len() == 1 {
        let n = data[0] as int;
        seq![base64_symbol(n / 4, url_safe), base64_symbol(n % 4 * 16, url_safe)] + padding(
            pad,
            2,
        )
    } else if data.len() == 2 {
        let n = data[0] as int * 256 + data[1] as int;
        seq![
            base64_symbol(n / 1024, url_safe),
            base64_symbol(n / 16 % 64, url_safe),
            base64_symbol(n % 16 * 4, url_safe),
        ] + padding(pad, 1)
    } else {
        let n = data[0] as int * 65536 + data[1] as int * 256 + data[2] as int;
        seq![
            base64_symbol(n / 262144, url_safe),
            base64_symbol(n / 4096 % 64, url_safe),
            base64_symbol(n / 64 % 64, url_safe),
            base64_symbol(n % 64, url_safe),
        ] + base64_encoding(data.subrange(3, data.len() as int), url_safe, pad)
    }
}

/// The text that `base64::engine::general_purpose::STANDARD` encodes `data`
/// to: the standard alphabet, with padding.
pub open spec fn standard_base64(data: Seq<u8>) -> Seq<char> {
    base64_encoding(data, false, true)
}

/// The text that `base64::engine::general_purpose::URL_SAFE_NO_PAD` encodes
/// `data` to: the URL-safe alphabet, without padding.
pub open spec fn url_safe_base64(data: Seq<u8>) -> Seq<char> {
    base64_encoding(data, true, false)
}

/// The length of padded Base64 text for `n` bytes: four characters for
/// every started group of three bytes.
pub open spec fn padded_len(n: nat) -> nat {
    if n % 3 == 0 {
        n / 3 * 4
    } else {
        n / 3 * 4 + 4
    }
}

/// The length of unpadded Base64 text for `n` bytes.
pub open spec fn unpadded_len(n: nat) -> nat {
    if n % 3 == 0 {
        n / 3 * 4
    } else if n % 3 == 1 {
        n / 3 * 4 + 2
    } else {
        n / 3 * 4 + 3
    }
}

/// Characters of the standard alphabet, with the `=` padding.
pub open spec fn is_standard_symbol(c: char) -> bool {
    ('A' <= c && c <= 'Z') || ('a' <= c && c <= 'z') || ('0' <= c && c <= '9') || c == '+' || c
        == '/' || c == '='
}

/// Characters of the URL-safe alphabet.
pub open spec fn is_url_safe_symbol(c: char) -> bool {
    ('A' <= c && c <= 'Z') || ('a' <= c && c <= 'z') || ('0' <= c && c <= '9') || c == '-' || c
        == '_'
}

/// Padded text has four characters for every started group of three bytes,
/// unpadded text two, three or four for the last group.
pub proof fn lemma_base64_len(data: Seq<u8>, url_safe: bool)
    ensures
        base64_encoding(data, url_safe, true).len() == padded_len(data.len()),
        base64_encoding(data, url_safe, false).len() == unpadded_len(data.len()),
    decreases data.len(),
{
    if data.len() >= 3 {
        lemma_base64_len(data.subrange(3, data.len() as int), url_safe);
    }
}

/// Each six-bit value stands for a symbol of its alphabet.
proof fn lemma_symbol_in_alphabet()
    ensures
        forall|v: int|
            0 <= v < 64 ==> is_standard_symbol(#[trigger] base64_symbol(v, false))
                && is_url_safe_symbol(base64_symbol(v, true)) && base64_symbol(v, false) != '='
                && url_safe_char(base64_symbol(v, false)) == base64_symbol(v, true),
{
}

/// Every character of standard text is a symbol of the standard alphabet or
/// `=`, and every character of URL-safe text one of the URL-safe alphabet.
pub proof fn lemma_base64_symbols(data: Seq<u8>)
    ensures
        forall|i: int|
            0 <= i < standard_base64(data).len() ==> is_standard_symbol(
                #[trigger] standard_base64(data)[i],
            ),
        forall|i: int|
            0 <= i < url_safe_base64(data).len() ==> is_url_safe_symbol(
                #[trigger] url_safe_base64(data)[i],
            ),
    decreases data.len(),
{
    lemma_symbol_in_alphabet();
    let std = standard_base64(data);
    let url = url_safe_base64(data);
    if data.len() >= 3 {
        let rest = data.subrange(3, data.len() as int);
        lemma_base64_symbols(rest);
        let n = data[0] as int * 65536 + data[1] as int * 256 + data[2] as int;
        assert(0 <= n / 262144 < 64 && 0 <= n / 4096 % 64 < 64);
        assert forall|i: int| 0 <= i < std.len() implies is_standard_symbol(#[trigger] std[i]) by {
            if i >= 4 {
                assert(std[i] == standard_base64(rest)[i - 4]);
            }
        }
        assert forall|i: int| 0 <= i < url.len() implies is_url_safe_symbol(#[trigger] url[i]) by {
            if i >= 4 {
                assert(url[i] == url_safe_base64(rest)[i - 4]);
            } else {
                assert(is_standard_symbol(base64_symbol(n / 262144, false)));
                assert(is_standard_symbol(base64_symbol(n / 4096 % 64, false)));
                assert(is_standard_symbol(base64_symbol(n / 64 % 64, false)));
                assert(is_standard_symbol(base64_symbol(n % 64, false)));
            }
        }
    } else if data.len() == 2 {
        let n = data[0] as int * 256 + data[1] as int;
        assert(is_standard_symbol(base64_symbol(n / 1024, false)));
        assert(is_standard_symbol(base64_symbol(n / 16 % 64, false)));
        assert(is_standard_symbol(base64_symbol(n % 16 * 4, false)));
    } else if data.len() == 1 {
        let n = data[0] as int;
        assert(is_standard_symbol(base64_symbol(n / 4, false)));
        assert(is_standard_symbol(base64_symbol(n % 4 * 16, false)));
    }
}

/// Distinct six-bit values stand for distinct symbols, none of them `=`.
proof fn lemma_symbol_injective(url_safe: bool)
    ensures
        forall|v: int, w: int|
            0 <= v < 64 && 0 <= w < 64 && #[trigger] base64_symbol(v, url_safe) == #[trigger] base64_symbol(
                w,
                url_safe,
            ) ==> v == w,
        forall|v: int| 0 <= v < 64 ==> #[trigger] base64_symbol(v, url_safe) != '=',
{
}

/// A 24-bit number is fixed by its four six-bit parts.
proof fn lemma_sextets_fix_number(n: int, m: int)
    requires
        0 <= n < 16777216,
        0 <= m < 16777216,
        n / 262144 == m / 262144,
        n / 4096 % 64 == m / 4096 % 64,
        n / 64 % 64 == m / 64 % 64,
        n % 64 == m % 64,
    ensures
        n == m,
{
    assert(n == n / 262144 * 262144 + n / 4096 % 64 * 4096 + n / 64 % 64 * 64 + n % 64)
        by (nonlinear_arith)
        requires
            0 <= n < 16777216,
    ;
    assert(m == m / 262144 * 262144 + m / 4096 % 64 * 4096 + m / 64 % 64 * 64 + m % 64)
        by (nonlinear_arith)
        requires
            0 <= m < 16777216,
    ;
}

/// The bytes of a 24-bit number are fixed by it.
proof fn lemma_number_fixes_bytes(x0: int, x1: int, x2: int, y0: int, y1: int, y2: int)
    requires
        0 <= x0 < 256,
        0 <= x1 < 256,
        0 <= x2 < 256,
        0 <= y0 < 256,
        0 <= y1 < 256,
        0 <= y2 < 256,
        x0 * 65536 + x1 * 256 + x2 == y0 * 65536 + y1 * 256 + y2,
    ensures
        x0 == y0,
        x1 == y1,
        x2 == y2,
{
}

/// Three bytes are fixed by the four six-bit parts of their 24-bit number.
proof fn lemma_group_of_three(x: Seq<u8>, y: Seq<u8>)
    requires
        x.len() >= 3,
        y.len() >= 3,
        ({
            let n = x[0] as int * 65536 + x[1] as int * 256 + x[2] as int;
            let m = y[0] as int * 65536 + y[1] as int * 256 + y[2] as int;
            &&& n / 262144 == m / 262144
            &&& n / 4096 % 64 == m / 4096 % 64
            &&& n / 64 % 64 == m / 64 % 64
            &&& n % 64 == m % 64
        }),
    ensures
        x[0] == y[0],
        x[1] == y[1],
        x[2] == y[2],
{
    let n = x[0] as int * 65536 + x[1] as int * 256 + x[2] as int;
    let m = y[0] as int * 65536 + y[1] as int * 256 + y[2] as int;
    lemma_sextets_fix_number(n, m);
    lemma_number_fixes_bytes(x[0] as int, x[1] as int, x[2] as int, y[0] as int, y[1] as int, y[2] as int);
}

/// Whether `a` and `b` have the same Base64 text.
#[verifier::opaque]
spec fn same_text(a: Seq<u8>, b: Seq<u8>, url_safe: bool, pad: bool) -> bool {
    base64_encoding(a, url_safe, pad) == base64_encoding(b, url_safe, pad)
}

/// One byte is fixed by the two symbols of its text.
proof fn lemma_one_byte(a: Seq<u8>, b: Seq<u8>, url_safe: bool, pad: bool)
    requires
        a.len() == 1,
        b.len() == 1,
        same_text(a, b, url_safe, pad),
    ensures
        a == b,
{
    reveal(same_text);
    lemma_symbol_injective(url_safe);
    let ea = base64_encoding(a, url_safe, pad);
    let eb = base64_encoding(b, url_safe, pad);
    assert(ea[0] == eb[0] && ea[1] == eb[1]);
    let n = a[0] as int;
    let m = b[0] as int;
    assert(n / 4 == m / 4 && n % 4 * 16 == m % 4 * 16);
    assert(a =~= b);
}

/// Two bytes are fixed by the three symbols of their text.
proof fn lemma_two_bytes(a: Seq<u8>, b: Seq<u8>, url_safe: bool, pad: bool)
    requires
        a.len() == 2,
        b.len() == 2,
        same_text(a, b, url_safe, pad),
    ensures
        a == b,
{
    reveal(same_text);
    lemma_symbol_injective(url_safe);
    let ea = base64_encoding(a, url_safe, pad);
    let eb = base64_encoding(b, url_safe, pad);
    assert(ea[0] == eb[0] && ea[1] == eb[1] && ea[2] == eb[2]);
    let n = a[0] as int * 256 + a[1] as int;
    let m = b[0] as int * 256 + b[1] as int;
    assert(n / 1024 == m / 1024 && n / 16 % 64 == m / 16 % 64 && n % 16 * 4 == m % 16 * 4);
    assert(n == m) by (nonlinear_arith)
        requires
            0 <= n < 65536,
            0 <= m < 65536,
            n / 1024 == m / 1024,
            n / 16 % 64 == m / 16 % 64,
            n % 16 == m % 16,
    ;
    assert(a =~= b);
}

/// The text of fewer than three bytes is the text of no more bytes: its
/// length, or the `=` in its padding, tells.
proof fn lemma_short_len_fixed(a: Seq<u8>, b: Seq<u8>, url_safe: bool, pad: bool)
    requires
        a.len() < 3,
        same_text(a, b, url_safe, pad),
    ensures
        b.len() <= a.len(),
{
    reveal(same_text);
    lemma_symbol_injective(url_safe);
    lemma_base64_len(a, url_safe);
    lemma_base64_len(b, url_safe);
    let ea = base64_encoding(a, url_safe, pad);
    let eb = base64_encoding(b, url_safe, pad);
    if a.len() == 1 && b.len() > 1 {
        assert(eb.len() >= 3 && eb[2] != '=');
    } else if a.len() == 2 && b.len() > 2 {
        assert(eb.len() >= 4 && eb[3] != '=');
    }
}

/// Texts of at least three bytes that agree have the same first three bytes,
/// and the texts of the rest agree.
proof fn lemma_first_group(a: Seq<u8>, b: Seq<u8>, url_safe: bool, pad: bool)
    requires
        a.len() >= 3,
        b.len() >= 3,
        same_text(a, b, url_safe, pad),
    ensures
        a[0] == b[0],
        a[1] == b[1],
        a[2] == b[2],
        same_text(a.subrange(3, a.len() as int), b.subrange(3, b.len() as int), url_safe, pad),
{
    reveal(same_text);
    lemma_symbol_injective(url_safe);
    let ea = base64_encoding(a, url_safe, pad);
    let eb = base64_encoding(b, url_safe, pad);
    let ra = a.subrange(3, a.len() as int);
    let rb = b.subrange(3, b.len() as int);
    assert(ea[0] == eb[0] && ea[1] == eb[1] && ea[2] == eb[2] && ea[3] == eb[3]);
    lemma_group_of_three(a, b);
    assert(ea.subrange(4, ea.len() as int) =~= base64_encoding(ra, url_safe, pad));
    assert(eb.subrange(4, eb.len() as int) =~= base64_encoding(rb, url_safe, pad));
}

/// Induction over the groups of three bytes, with the texts kept folded.
proof fn lemma_same_text_same_bytes(a: Seq<u8>, b: Seq<u8>, url_safe: bool, pad: bool)
    requires
        same_text(a, b, url_safe, pad),
    ensures
        a == b,
    decreases a.len(),
{
    if a.len() < 3 || b.len() < 3 {
        if a.len() < b.len() {
            lemma_short_len_fixed(a, b, url_safe, pad);
        } else if b.len() < a.len() {
            assert(same_text(b, a, url_safe, pad)) by {
                reveal(same_text);
            }
            lemma_short_len_fixed(b, a, url_safe, pad);
        } else if a.len() == 1 {
            lemma_one_byte(a, b, url_safe, pad);
        } else if a.len() == 2 {
            lemma_two_bytes(a, b, url_safe, pad);
        } else {
            assert(a =~= b);
        }
    } else {
        let ra = a.subrange(3, a.len() as int);
        let rb = b.subrange(3, b.len() as int);
        lemma_first_group(a, b, url_safe, pad);
        lemma_same_text_same_bytes(ra, rb, url_safe, pad);
        assert(ra.len() == a.len() - 3 && rb.len() == b.len() - 3);
        assert(a.len() == b.len());
        assert forall|i: int| 0 <= i < a.len() implies a[i] == b[i] by {
            if i >= 3 {
                assert(a[i] == ra[i - 3] && b[i] == rb[i - 3]);
            }
        }
        assert(a =~= b);
    }
}

/// Different bytes have different Base64 texts, so a text is the encoding of
/// one sequence of bytes at most.
pub proof fn lemma_base64_injective(a: Seq<u8>, b: Seq<u8>, url_safe: bool, pad: bool)
    requires
        base64_encoding(a, url_safe, pad) == base64_encoding(b, url_safe, pad),
    ensures
        a == b,
{
    reveal(same_text);
    lemma_same_text_same_bytes(a, b, url_safe, pad);
}

/// `text` without the `=` characters at its end.
pub open spec fn without_padding(text: Seq<char>) -> Seq<char>
    decreases text.len(),
{
    if text.len() > 0 && text.last() == '=' {
        without_padding(text.drop_last())
    } else {
        text
    }
}

/// The URL-safe character for a standard one: `-` for `+`, `_` for `/`.
pub open spec fn url_safe_char(c: char) -> char {
    if c == '+' {
        '-'
    } else if c == '/' {
        '_'
    } else {
        c
    }
}

/// `text` with `+` written as `-` and `/` as `_`.
pub open spec fn url_safe_chars(text: Seq<char>) -> Seq<char> {
    text.map_values(|c: char| url_safe_char(c))
}

/// Trailing padding goes past text that does not end in `=`.
proof fn lemma_without_padding_append(a: Seq<char>, b: Seq<char>)
    requires
        a.len() > 0,
        a.last() != '=',
    ensures
        without_padding(a + b) == a + without_padding(b),
    decreases b.len(),
{
    if b.len() == 0 {
        assert(a + b =~= a);
    } else if b.last() == '=' {
        assert((a + b).drop_last() =~= a + b.drop_last());
        lemma_without_padding_append(a, b.drop_last());
    }
}

/// The URL-safe text of any bytes is their standard text without the
/// trailing `=` padding, with `+` written as `-` and `/` as `_`.
pub proof fn lemma_url_safe_from_standard(data: Seq<u8>)
    ensures
        url_safe_base64(data) == url_safe_chars(without_padding(standard_base64(data))),
    decreases data.len(),
{
    lemma_symbol_in_alphabet();
    let std = standard_base64(data);
    let url = url_safe_base64(data);
    if data.len() == 0 {
        assert(url_safe_chars(std) =~= url);
    } else if data.len() == 1 {
        let head = std.take(2);
        assert(std.drop_last().drop_last() =~= head);
        assert(without_padding(std) == without_padding(std.drop_last()));
        assert(without_padding(std.drop_last()) == without_padding(head));
        assert(without_padding(head) == head);
        assert(url_safe_chars(head) =~= url);
    } else if data.len() == 2 {
        let head = std.take(3);
        assert(std.drop_last() =~= head);
        assert(without_padding(std) == without_padding(head));
        assert(without_padding(head) == head);
        assert(url_safe_chars(head) =~= url);
    } else {
        let rest = data.subrange(3, data.len() as int);
        lemma_url_safe_from_standard(rest);
        let head = std.take(4);
        assert(std =~= head + standard_base64(rest));
        lemma_without_padding_append(head, standard_base64(rest));
        let tail = without_padding(standard_base64(rest));
        assert(url_safe_chars(head + tail) =~= url_safe_chars(head) + url_safe_chars(tail));
        assert(url =~= url_safe_chars(head) + url_safe_base64(rest));
    }
}

/// Whether `data` is short enough for its encoding length to fit in
/// `usize`; the encoder panics on longer input.
pub open spec fn encodable_len(n: nat) -> bool {
    n / 3 * 4 + 4 <= usize::MAX
}

/// Encodes `data` with `STANDARD.encode`: the standard alphabet, with
/// padding, as RFC 4648 and the crate's documentation give it.
#[verifier::external_body]
fn encode_standard(data: &[u8]) -> (text: String)
    requires
        encodable_len(data@.len()),
    ensures
        text@ == standard_base64(data@),
{
    STANDARD.encode(data)
}

/// Encodes `data` with `URL_SAFE_NO_PAD.encode`: the URL-safe alphabet,
/// without padding.
#[verifier::external_body]
fn encode_url_safe(data: &[u8]) -> (text: String)
    requires
        encodable_len(data@.len()),
    ensures
        text@ == url_safe_base64(data@),
{
    URL_SAFE_NO_PAD.encode(data)
}

/// Decodes `text` with `STANDARD.decode`. Its configuration asks for
/// canonical padding and refuses set trailing bits, so it decodes exactly
/// the standard texts of some bytes, to those bytes. The error text is the
/// crate's description of the error; nothing is stated of it.
#[verifier::external_body]
fn decode_standard(text: &str) -> (res: Result<Vec<u8>, String>)
    ensures
        res matches Ok(bytes) ==> standard_base64(bytes@) == text@,
        res is Err ==> forall|data: Seq<u8>| #[trigger] standard_base64(data) != text@,
{
    STANDARD.decode(text).map_err(|e| e.to_string())
}

/// Decodes `text` with `URL_SAFE_NO_PAD.decode`. It refuses padding and set
/// trailing bits, so it decodes exactly the URL-safe texts of some bytes, to
/// those bytes. Nothing is stated of the error text.
#[verifier::external_body]
fn decode_url_safe(text: &str) -> (res: Result<Vec<u8>, String>)
    ensures
        res matches Ok(bytes) ==> url_safe_base64(bytes@) == text@,
        res is Err ==> forall|data: Seq<u8>| #[trigger] url_safe_base64(data) != text@,
{
    URL_SAFE_NO_PAD.decode(text).map_err(|e| e.to_string())
}

/// The Base64 text of `data` in `format`.
pub open spec fn base64_text(format: Base64Format, data: Seq<u8>) -> Seq<char> {
    match format {
        Base64Format::Standard => standard_base64(data),
        Base64Format::UrlSafe => url_safe_base64(data),
    }
}

/// Whether `text` is the Base64 text of some bytes in `format`.
pub open spec fn is_base64_text(format: Base64Format, text: Seq<char>) -> bool {
    exists|data: Seq<u8>| #[trigger] base64_text(format, data) == text
}

/// Why a Base64 command failed.
#[derive(Debug, PartialEq, Eq)]
pub enum Base64Error {
    /// The input could not be opened: its path, and the reason.
    Open { path: String, cause: String },
    /// Reading the input failed, for the reason held.
    Read(String),
    /// The text is not valid Base64, for the reason held.
    Decode(String),
}

/// The text that describes a Base64 command error.
pub open spec fn base64_error_text(e: Base64Error) -> Seq<char> {
    match e {
        Base64Error::Open { path, .. } => "failed to open "@ + path@,
        Base64Error::Read(reason) => reason@,
        Base64Error::Decode(reason) => reason@,
    }
}

impl Base64Error {
    /// The text shown for this error.
    pub fn message(&self) -> (m: String)
        ensures
            m@ == base64_error_text(*self),
    {
        match self {
            Base64Error::Open { path, .. } => {
                let mut m = String::from_str("failed to open ");
                append_str(&mut m, path.as_str());
                m
            },
            Base64Error::Read(reason) => reason.clone(),
            Base64Error::Decode(reason) => reason.clone(),
        }
    }
}

impl Base64Error {
    /// The underlying reason shown below the message, where there is one:
    /// only an open failure wraps one.
    pub fn cause(&self) -> (c: Option<String>)
        ensures
            (match *self {
                Base64Error::Open { cause, .. } => c matches Some(t) && t@ == cause@,
                _ => c is None,
            }),
    {
        match self {
            Base64Error::Open { cause, .. } => Some(cause.clone()),
            _ => None,
        }
    }
}

/// The error for an input that could not be read.
fn read_failure(input: &str, err: ReadError) -> (e: Base64Error)
    ensures
        err matches ReadError::Open(c) ==> (e matches Base64Error::Open { path: p, cause: k } && p@
            == input@ && k@ == c@),
        err matches ReadError::Read { cause: m, .. } ==> (e matches Base64Error::Read(r) && r@ == m@),
{
    match err {
        ReadError::Open(cause) => Base64Error::Open { path: String::from_str(input), cause },
        ReadError::Read { cause, .. } => Base64Error::Read(cause),
    }
}

/// Encodes the bytes read from `input` (a path, or `-` for standard input)
/// as Base64 text in `format`. `content` is what reading the input gave.
pub fn process_base64_encode(
    input: &str,
    content: Result<Vec<u8>, ReadError>,
    format: Base64Format,
) -> (res: Result<String, Base64Error>)
    requires
        content matches Ok(data) ==> encodable_len(data@.len()),
    ensures
        content matches Err(ReadError::Open(c)) ==> (res matches Err(
            Base64Error::Open { path: p, cause: k },
        ) && p@ == input@ && k@ == c@),
        content matches Err(ReadError::Read { cause: m, .. }) ==> (res matches Err(Base64Error::Read(r))
            && r@ == m@),
        content matches Ok(data) ==> (res matches Ok(text) && text@ == base64_text(
            format,
            data@,
        )),
        content matches Ok(data) ==> (res matches Ok(text) && text@.len() == (match format {
            Base64Format::Standard => padded_len(data@.len()),
            Base64Format::UrlSafe => unpadded_len(data@.len()),
        })),
        res matches Ok(text) ==> trim(text@) == text@,
{
    let data = match content {
        Ok(data) => data,
        Err(err) => return Err(read_failure(input, err)),
    };
    let text = match format {
        Base64Format::Standard => encode_standard(data.as_slice()),
        Base64Format::UrlSafe => encode_url_safe(data.as_slice()),
    };
    proof {
        lemma_base64_len(data@, false);
        lemma_base64_len(data@, true);
        lemma_base64_symbols(data@);
        assert forall|i: int| 0 <= i < text@.len() implies !is_whitespace(#[trigger] text@[i]) by {
            assert(is_standard_symbol(text@[i]) || is_url_safe_symbol(text@[i]));
        }
        lemma_trim_without_whitespace(text@);
    }
    Ok(text)
}

/// Text without whitespace is left as it is by trimming.
pub proof fn lemma_trim_without_whitespace(s: Seq<char>)
    requires
        forall|i: int| 0 <= i < s.len() ==> !is_whitespace(#[trigger] s[i]),
    ensures
        trim(s) == s,
{
    if s.len() > 0 {
        assert(!is_whitespace(s[s.len() - 1]));
    }
}

/// Encoded text, with any whitespace around it, decodes back to the encoded
/// bytes and to no other: trimming leaves the text itself, it is the text
/// of some bytes, and the only bytes it is the text of are `data`. With the
/// contract of [`process_base64_decode`] this makes decoding undo
/// [`process_base64_encode`].
pub proof fn lemma_decoding_undoes_encoding(
    format: Base64Format,
    data: Seq<u8>,
    before: Seq<char>,
    after: Seq<char>,
)
    requires
        forall|i: int| 0 <= i < before.len() ==> is_whitespace(#[trigger] before[i]),
        forall|i: int| 0 <= i < after.len() ==> is_whitespace(#[trigger] after[i]),
    ensures
        trim(before + base64_text(format, data) + after) == base64_text(format, data),
        is_base64_text(format, base64_text(format, data)),
        forall|bytes: Seq<u8>|
            #[trigger] base64_text(format, bytes) == base64_text(format, data) ==> bytes == data,
{
    let t = base64_text(format, data);
    lemma_base64_symbols(data);
    if t.len() > 0 {
        assert(is_standard_symbol(t[0]) || is_url_safe_symbol(t[0]));
        assert(is_standard_symbol(t.last()) || is_url_safe_symbol(t.last()));
    }
    lemma_trim_surrounded(before, t, after);
    assert forall|bytes: Seq<u8>| #[trigger] base64_text(format, bytes) == t implies bytes == data by {
        match format {
            Base64Format::Standard => lemma_base64_injective(bytes, data, false, true),
            Base64Format::UrlSafe => lemma_base64_injective(bytes, data, true, false),
        }
    }
}

/// Decodes the Base64 text read from `input` (a path, or `-` for standard
/// input) in `format`, ignoring whitespace around it. `content` is what
/// reading the input gave.
pub fn process_base64_decode(
    input: &str,
    content: Result<String, ReadError>,
    format: Base64Format,
) -> (res: Result<Vec<u8>, Base64Error>)
    ensures
        content matches Err(ReadError::Open(c)) ==> (res matches Err(
            Base64Error::Open { path: p, cause: k },
        ) && p@ == input@ && k@ == c@),
        content matches Err(ReadError::Read { cause: m, .. }) ==> (res matches Err(Base64Error::Read(r))
            && r@ == m@),
        content matches Ok(text) ==> (res is Ok <==> is_base64_text(format, trim(text@))),
        content matches Ok(text) ==> (res matches Ok(bytes) ==> base64_text(format, bytes@) == trim(
            text@,
        )),
        content matches Ok(text) ==> (res is Err ==> res matches Err(Base64Error::Decode(_))),
        forall|data: Seq<u8>|
            content matches Ok(text) && #[trigger] base64_text(format, data) == trim(text@) ==> (res matches Ok(
                bytes,
            ) && bytes@ == data),
{
    let text = match content {
        Ok(text) => text,
        Err(err) => return Err(read_failure(input, err)),
    };
    let body = trimmed(text.as_str());
    let decoded = match format {
        Base64Format::Standard => decode_standard(body.as_str()),
        Base64Format::UrlSafe => decode_url_safe(body.as_str()),
    };
    match decoded {
        Ok(bytes) => {
            assert(base64_text(format, bytes@) == body@);
            proof {
                assert forall|data: Seq<u8>| #[trigger] base64_text(format, data) == body@ implies bytes@
                    == data by {
                    match format {
                        Base64Format::Standard => lemma_base64_injective(bytes@, data, false, true),
                        Base64Format::UrlSafe => lemma_base64_injective(bytes@, data, true, false),
                    }
                }
            }
            Ok(bytes)
        },
        Err(reason) => Err(Base64Error::Decode(reason)),
    }
}

} // verus!
