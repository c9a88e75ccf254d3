//! Arguments of the `http` command.
use vstd::prelude::*;

use crate::text::{append_str, chars_of, decimal, digit_char};

verus! {

/// The operations of the `http` command.
#[derive(Debug, PartialEq, Eq)]
pub enum HttpSubCommand {
    /// Serve a directory over HTTP.
    Serve(HttpServeOpts),
}

/// Arguments of `http serve`.
#[derive(Debug, PartialEq, Eq)]
pub struct HttpServeOpts {
    /// Port to listen on, in `1..=65535`.
    pub port: u16,
    /// Directory to serve.
    pub dir: String,
    /// Address to bind.
    pub ip: String,
}

/// Whether `c` is an ASCII decimal digit.
pub open spec fn is_digit(c: char) -> bool {
    '0' <= c && c <= '9'
}

/// The number that the decimal digits `ds` write.
pub open spec fn digits_value(ds: Seq<char>) -> nat
    decreases ds.len(),
{
    if ds.len() == 0 {
        0
    } else {
        digits_value(ds.drop_last()) * 10 + (ds.last() as nat - 48) as nat
    }
}

/// `s` without one leading `+`, if it has one.
pub open spec fn without_plus(s: Seq<char>) -> Seq<char> {
    if s.len() > 0 && s[0] == '+' {
        s.drop_first()
    } else {
        s
    }
}

/// Whether every character of `ds` is a decimal digit.
pub open spec fn all_digits(ds: Seq<char>) -> bool {
    forall|i: int| 0 <= i < ds.len() ==> is_digit(#[trigger] ds[i])
}

/// What `str::parse::<usize>` accepts and returns: an optional `+`, then
/// one or more decimal digits whose value fits in `usize`.
pub open spec fn parse_usize(s: Seq<char>) -> Option<nat> {
    let ds = without_plus(s);
    if ds.len() > 0 && all_digits(ds) && digits_value(ds) <= usize::MAX {
        Some(digits_value(ds))
    } else {
        None
    }
}

/// The port that `s` names, if it is a number in `1..=65535`.
pub open spec fn port_named(s: Seq<char>) -> Option<u16> {
    match parse_usize(s) {
        Some(n) => if 1 <= n <= 65535 {
            Some(n as u16)
        } else {
            None
        },
        None => None,
    }
}

/// The error text for a port argument that is not a number.
pub open spec fn not_a_port_text(s: Seq<char>) -> Seq<char> {
    "`"@ + s + "` isn't a port number"@
}

/// The error text for a number outside the port range.
pub open spec fn port_range_text() -> Seq<char> {
    "port not in range 1-65535"@
}

proof fn lemma_digits_value_prefix(ds: Seq<char>, k: int)
    requires
        0 <= k <= ds.len(),
        forall|i: int| 0 <= i < ds.len() ==> is_digit(#[trigger] ds[i]),
    ensures
        digits_value(ds.take(k)) <= digits_value(ds),
    decreases ds.len(),
{
    if k < ds.len() {
        assert(ds.drop_last().take(k) =~= ds.take(k));
        lemma_digits_value_prefix(ds.drop_last(), k);
    } else {
        assert(ds.take(k) =~= ds);
    }
}

/// The value of the digits of `ds` from `start` on, if they are all digits
/// and their value fits in `usize`.
fn digits_to_usize(ds: &Vec<char>, start: usize) -> (res: Option<usize>)
    requires
        start <= ds@.len(),
    ensures
        res matches Some(n) ==> all_digits(ds@.skip(start as int)) && n == digits_value(
            ds@.skip(start as int),
        ),
        res is None ==> !all_digits(ds@.skip(start as int)) || digits_value(ds@.skip(start as int))
            > usize::MAX,
{
    let n = ds.len();
    let ghost s = ds@.skip(start as int);
    let mut value: usize = 0;
    let mut i: usize = start;
    while i < n
        invariant
            n == ds@.len(),
            start <= i <= n,
            s == ds@.skip(start as int),
            forall|j: int| 0 <= j < i - start ==> is_digit(#[trigger] s[j]),
            value == digits_value(s.take(i - start)),
        decreases n - i,
    {
        let c = ds[i];
        if !('0' <= c && c <= '9') {
            assert(s[i - start] == c);
            return None;
        }
        assert(s[i - start] == c);
        let d = (c as u32 - 48) as usize;
        assert(s.take(i + 1 - start).drop_last() =~= s.take(i - start));
        if value > (usize::MAX - d) / 10 {
            proof {
                assert(value * 10 + d > usize::MAX) by (nonlinear_arith)
                    requires
                        value > (usize::MAX - d) / 10,
                        d <= 9,
                ;
                if all_digits(s) {
                    lemma_digits_value_prefix(s, i + 1 - start);
                }
            }
            return None;
        }
        value = value * 10 + d;
        i = i + 1;
    }
    assert(s.take(n - start) =~= s);
    Some(value)
}

/// Reads a port number: a decimal number (as `str::parse::<usize>` reads
/// one) in `1..=65535`.
pub fn port_in_range(s: &str) -> (res: Result<u16, String>)
    ensures
        res is Ok <==> port_named(s@) is Some,
        res matches Ok(p) ==> port_named(s@) == Some(p),
        res matches Err(m) ==> m@ == (if parse_usize(s@) is None {
            not_a_port_text(s@)
        } else {
            port_range_text()
        }),
{
    let chars = chars_of(s);
    let start: usize = if chars.len() > 0 && chars[0] == '+' {
        1
    } else {
        0
    };
    proof {
        if start == 1 {
            assert(chars@.skip(1) =~= without_plus(s@));
        } else {
            assert(chars@.skip(0) =~= without_plus(s@));
        }
    }
    let parsed = if start < chars.len() {
        digits_to_usize(&chars, start)
    } else {
        None
    };
    match parsed {
        None => {
            let mut m = String::from_str("`");
            append_str(&mut m, s);
            append_str(&mut m, "` isn't a port number");
            Err(m)
        },
        Some(n) => {
            if 1 <= n && n <= 65535 {
                Ok(n as u16)
            } else {
                Err(String::from_str("port not in range 1-65535"))
            }
        },
    }
}

/// The decimal text of a number reads back as that number.
pub proof fn lemma_decimal_reads_back(n: nat)
    ensures
        decimal(n).len() > 0,
        all_digits(decimal(n)),
        digits_value(decimal(n)) == n,
    decreases n,
{
    if n >= 10 {
        lemma_decimal_reads_back(n / 10);
        let d = decimal(n);
        assert(d.drop_last() == decimal(n / 10));
        assert forall|i: int| 0 <= i < d.len() implies is_digit(#[trigger] d[i]) by {
            if i < d.len() - 1 {
                assert(d[i] == decimal(n / 10)[i]);
            }
        }
        assert(d.last() == digit_char(n % 10));
        assert(digit_char(n % 10) as nat == 48 + n % 10);
        assert(digits_value(d) == digits_value(decimal(n / 10)) * 10 + n % 10);
    } else {
        let d = decimal(n);
        assert(d.last() == digit_char(n));
        assert(digit_char(n) as nat == 48 + n);
        assert(d.drop_last().len() == 0);
        assert(digits_value(d.drop_last()) == 0);
    }
}

/// Every port, written in decimal, is read back by [`port_in_range`] as
/// itself.
pub proof fn lemma_port_text_round_trip(port: u16)
    requires
        port >= 1,
    ensures
        port_named(decimal(port as nat)) == Some(port),
{
    lemma_decimal_reads_back(port as nat);
    let d = decimal(port as nat);
    assert(without_plus(d) == d) by {
        assert(is_digit(d[0]));
    }
}

} // verus!
