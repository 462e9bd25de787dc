//! Human-readable elapsed time, from the largest non-zero unit down to seconds.
use vstd::prelude::*;
use crate::query::Timestamp;
use crate::text::push_char;

verus! {

pub const NANOS_PER_SEC: i128 = 1_000_000_000;

/// Division that rounds toward zero, as Rust's integer `/` does.
pub open spec fn trunc_div(a: int, b: int) -> int {
    if a >= 0 {
        a / b
    } else {
        -((-a) / b)
    }
}

/// The remainder that goes with `trunc_div`; it takes the sign of `a`.
pub open spec fn trunc_rem(a: int, b: int) -> int {
    a - b * trunc_div(a, b)
}

/// The character of one decimal digit.
pub open spec fn digit_char(d: int) -> char {
    if d == 0 { '0' }
    else if d == 1 { '1' }
    else if d == 2 { '2' }
    else if d == 3 { '3' }
    else if d == 4 { '4' }
    else if d == 5 { '5' }
    else if d == 6 { '6' }
    else if d == 7 { '7' }
    else if d == 8 { '8' }
    else { '9' }
}

/// The decimal digits of a natural number, most significant first.
pub open spec fn digits(n: nat) -> Seq<char>
    decreases n,
{
    if n < 10 {
        seq![digit_char(n as int)]
    } else {
        digits(n / 10) + seq![digit_char((n % 10) as int)]
    }
}

/// An integer written in decimal, with a leading `-` when negative.
pub open spec fn decimal(n: int) -> Seq<char> {
    if n < 0 {
        seq!['-'] + digits((-n) as nat)
    } else {
        digits(n as nat)
    }
}

/// The character of decimal digit `d`.
fn digit(d: u128) -> (r: char)
    requires
        d < 10,
    ensures
        r == digit_char(d as int),
{
    if d == 0 { '0' }
    else if d == 1 { '1' }
    else if d == 2 { '2' }
    else if d == 3 { '3' }
    else if d == 4 { '4' }
    else if d == 5 { '5' }
    else if d == 6 { '6' }
    else if d == 7 { '7' }
    else if d == 8 { '8' }
    else { '9' }
}

/// A one-character string.
fn char_string(c: char) -> (r: String)
    ensures
        r@ == seq![c],
{
    let mut s = String::new();
    push_char(&mut s, c);
    s
}

/// Writes `n` in decimal, with a leading `-` when negative.
pub fn int_text(n: i128) -> (r: String)
    ensures
        r@ == decimal(n as int),
{
    let m: u128 = if n < 0 {
        (-(n + 1)) as u128 + 1
    } else {
        n as u128
    };
    let mut x: u128 = m;
    let mut out = String::new();
    while x >= 10
        invariant
            digits(m as nat) == digits(x as nat) + out@,
        decreases x,
    {
        let d = char_string(digit(x % 10));
        out = d.concat(out.as_str());
        x = x / 10;
    }
    out = char_string(digit(x)).concat(out.as_str());
    if n < 0 {
        out = char_string('-').concat(out.as_str());
    }
    out
}

/// Relies on chrono's `From<SystemTime> for DateTime<Utc>`, applied to
/// `SystemTime::now()`: the current time as whole seconds since the epoch and
/// the nanoseconds past that second, with readings before the epoch handled
/// rather than refused.
#[verifier::external_body]
pub fn current_time() -> (r: Timestamp)
    ensures
        r.nanos < 1_000_000_000,
{
    let now = chrono::DateTime::<chrono::Utc>::from(std::time::SystemTime::now());
    Timestamp { secs: now.timestamp(), nanos: now.timestamp_subsec_nanos() }
}

/// The whole seconds from `from` to `now`, rounded toward zero.
pub open spec fn elapsed_seconds_spec(from: Timestamp, now: Timestamp) -> int {
    trunc_div(
        (now.secs - from.secs) * NANOS_PER_SEC + now.nanos - from.nanos,
        NANOS_PER_SEC as int,
    )
}

/// The sentence for an elapsed time of `s` seconds.
pub open spec fn duration_text_spec(s: int) -> Seq<char> {
    let days = trunc_div(s, 86400);
    let hours = trunc_rem(trunc_div(s, 3600), 24);
    let minutes = trunc_rem(trunc_div(s, 60), 60);
    let seconds = trunc_rem(s, 60);
    if days > 0 {
        decimal(days) + " days, "@ + decimal(hours) + " hours, "@ + decimal(minutes)
            + " minutes, and "@ + decimal(seconds) + " seconds"@
    } else if hours > 0 {
        decimal(hours) + " hours, "@ + decimal(minutes) + " minutes, and "@ + decimal(seconds)
            + " seconds"@
    } else if minutes > 0 {
        decimal(minutes) + " minutes and "@ + decimal(seconds) + " seconds"@
    } else {
        decimal(seconds) + " seconds"@
    }
}

/// Integer division rounding toward zero.
fn div_toward_zero(a: i128, b: i128) -> (r: i128)
    requires
        b > 0,
        a > i128::MIN,
    ensures
        r == trunc_div(a as int, b as int),
{
    if a >= 0 {
        proof {
            assert(a / b <= a) by (nonlinear_arith)
                requires
                    a >= 0,
                    b > 0,
            ;
            assert(a / b >= 0) by (nonlinear_arith)
                requires
                    a >= 0,
                    b > 0,
            ;
        }
        a / b
    } else {
        let m: i128 = -a;
        proof {
            assert(m / b <= m) by (nonlinear_arith)
                requires
                    m >= 0,
                    b > 0,
            ;
            assert(m / b >= 0) by (nonlinear_arith)
                requires
                    m >= 0,
                    b > 0,
            ;
        }
        -(m / b)
    }
}

/// The remainder that goes with `div_toward_zero`.
fn rem_toward_zero(a: i128, b: i128) -> (r: i128)
    requires
        0 < b <= 86400,
        a > i128::MIN,
    ensures
        r == trunc_rem(a as int, b as int),
{
    let q = div_toward_zero(a, b);
    proof {
        let m: int = if a >= 0 { a as int } else { -(a as int) };
        let d: int = b as int;
        assert(0 <= m - d * (m / d) < d && 0 <= d * (m / d)) by (nonlinear_arith)
            requires
                m >= 0,
                d > 0,
        ;
        if a >= 0 {
            assert(b * q == d * (m / d));
        } else {
            assert(q == -(m / d));
            assert(b * q == -(d * (m / d))) by (nonlinear_arith)
                requires
                    q == -(m / d),
                    b == d,
            ;
        }
    }
    a - b * q
}

/// Whole seconds from `from` to `now`, rounded toward zero.
pub fn elapsed_seconds(from: Timestamp, now: Timestamp) -> (r: i128)
    ensures
        r == elapsed_seconds_spec(from, now),
{
    let diff: i128 = (now.secs as i128 - from.secs as i128) * NANOS_PER_SEC + now.nanos as i128
        - from.nanos as i128;
    div_toward_zero(diff, NANOS_PER_SEC)
}

/// Describes an elapsed time of `s` seconds: days, hours, minutes and seconds
/// from the largest non-zero unit down, each unit the remainder after the
/// larger one.
pub fn duration_text(s: i128) -> (r: String)
    requires
        s > i128::MIN,
    ensures
        r@ == duration_text_spec(s as int),
{
    let days = div_toward_zero(s, 86400);
    let hours = rem_toward_zero(div_toward_zero(s, 3600), 24);
    let minutes = rem_toward_zero(div_toward_zero(s, 60), 60);
    let seconds = rem_toward_zero(s, 60);
    let mut out = String::new();
    if days > 0 {
        out.append(int_text(days).as_str());
        out.append(" days, ");
        out.append(int_text(hours).as_str());
        out.append(" hours, ");
        out.append(int_text(minutes).as_str());
        out.append(" minutes, and ");
    } else if hours > 0 {
        out.append(int_text(hours).as_str());
        out.append(" hours, ");
        out.append(int_text(minutes).as_str());
        out.append(" minutes, and ");
    } else if minutes > 0 {
        out.append(int_text(minutes).as_str());
        out.append(" minutes and ");
    }
    out.append(int_text(seconds).as_str());
    out.append(" seconds");
    out
}

/// The sentence for the time elapsed from `from` to `now`.
pub fn time_diff_text_at(from: Timestamp, now: Timestamp) -> (r: String)
    ensures
        r@ == duration_text_spec(elapsed_seconds_spec(from, now)),
{
    let s = elapsed_seconds(from, now);
    proof {
        assert(s > i128::MIN);
    }
    duration_text(s)
}

/// The sentence for the time elapsed from `from` until the moment of the call.
pub fn time_diff_text(from: Timestamp) -> (r: String)
    ensures
        exists|now: Timestamp|
            now.nanos < 1_000_000_000 && r@ == duration_text_spec(elapsed_seconds_spec(from, now)),
{
    let now = current_time();
    time_diff_text_at(from, now)
}

} // verus!
