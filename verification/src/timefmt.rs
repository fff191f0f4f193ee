use vstd::prelude::*;

verus! {

use vstd::string::StringExecFns;
use crate::coverage::MAX_TS;

/// The RFC 3339 text produced for a timestamp, in seconds since the Unix
/// epoch. The text depends on the timestamp alone; it is pinned down only
/// through the formatter and parser below.
pub uninterp spec fn rfc3339_of(secs: u64) -> Seq<char>;

/// Relies on chrono's `DateTime::<Utc>::from_timestamp` and
/// `DateTime::to_rfc3339`: any timestamp up to 9999-12-31T23:59:59 converts,
/// and its RFC 3339 text is a function of the timestamp alone.
#[verifier::external_body]
pub fn format_rfc3339(secs: u64) -> (r: String)
    requires
        secs <= MAX_TS,
    ensures
        r@ == rfc3339_of(secs),
{
    match chrono::DateTime::<chrono::Utc>::from_timestamp(secs as i64, 0) {
        Some(dt) => dt.to_rfc3339(),
        None => String::new(),
    }
}

/// Relies on chrono's `DateTime::parse_from_rfc3339` and
/// `DateTime::timestamp`: parsing the formatter's own output returns the
/// original timestamp.
#[verifier::external_body]
fn parse_rfc3339_secs(s: &str) -> (r: Option<i64>)
    ensures
        forall|t: u64| t <= MAX_TS && s@ == rfc3339_of(t) ==> r == Some(t as i64),
{
    match chrono::DateTime::parse_from_rfc3339(s) {
        Ok(dt) => Some(dt.timestamp()),
        Err(_) => None,
    }
}

/// Parse an RFC 3339 timestamp into whole seconds since the Unix epoch.
/// Timestamps before 1970 or past year 9999 are rejected.
pub fn parse_rfc3339(s: &str) -> (r: Option<u64>)
    ensures
        forall|t: u64| t <= MAX_TS && s@ == rfc3339_of(t) ==> r == Some(t),
        r matches Some(v) ==> v <= MAX_TS,
{
    match parse_rfc3339_secs(s) {
        Some(v) => {
            if 0 <= v && v <= MAX_TS as i64 {
                Some(v as u64)
            } else {
                None
            }
        },
        None => None,
    }
}

/// The character for one decimal digit.
pub open spec fn digit_char(d: nat) -> char {
    if d == 0 {
        '0'
    } else if d == 1 {
        '1'
    } else if d == 2 {
        '2'
    } else if d == 3 {
        '3'
    } else if d == 4 {
        '4'
    } else if d == 5 {
        '5'
    } else if d == 6 {
        '6'
    } else if d == 7 {
        '7'
    } else if d == 8 {
        '8'
    } else {
        '9'
    }
}

/// The decimal digits of a number, most significant first, with no leading
/// zeros (a single zero for zero itself).
pub open spec fn dec_digits(n: nat) -> Seq<char>
    decreases n,
{
    if n < 10 {
        seq![digit_char(n)]
    } else {
        dec_digits(n / 10).push(digit_char(n % 10))
    }
}

/// The one-character string for a decimal digit.
fn digit_str(d: u64) -> (r: &'static str)
    requires
        d < 10,
    ensures
        r@ == seq![digit_char(d as nat)],
{
    let r: &'static str = if d == 0 {
        "0"
    } else if d == 1 {
        "1"
    } else if d == 2 {
        "2"
    } else if d == 3 {
        "3"
    } else if d == 4 {
        "4"
    } else if d == 5 {
        "5"
    } else if d == 6 {
        "6"
    } else if d == 7 {
        "7"
    } else if d == 8 {
        "8"
    } else {
        "9"
    };
    proof {
        reveal_strlit("0");
        reveal_strlit("1");
        reveal_strlit("2");
        reveal_strlit("3");
        reveal_strlit("4");
        reveal_strlit("5");
        reveal_strlit("6");
        reveal_strlit("7");
        reveal_strlit("8");
        reveal_strlit("9");
        assert(r@ =~= seq![digit_char(d as nat)]);
    }
    r
}

/// Append the decimal digits of `n` to `out`.
fn push_decimal(n: u64, out: &mut String)
    ensures
        final(out)@ == old(out)@ + dec_digits(n as nat),
    decreases n,
{
    if n >= 10 {
        push_decimal(n / 10, out);
        let d = digit_str(n % 10);
        out.append(d);
        proof {
            assert((old(out)@ + dec_digits((n / 10) as nat)) + seq![digit_char((n % 10) as nat)]
                =~= old(out)@ + dec_digits(n as nat));
        }
    } else {
        let d = digit_str(n);
        out.append(d);
        proof {
            assert(old(out)@ + seq![digit_char(n as nat)] =~= old(out)@ + dec_digits(n as nat));
        }
    }
}

/// The decimal text of a number.
pub fn u64_to_string(n: u64) -> (r: String)
    ensures
        r@ == dec_digits(n as nat),
{
    let mut s = String::new();
    push_decimal(n, &mut s);
    proof {
        assert(Seq::<char>::empty() + dec_digits(n as nat) =~= dec_digits(n as nat));
    }
    s
}

} // verus!
