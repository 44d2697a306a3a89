//! What holds of every text that the library writes or reads: numbers, digits,
//! trimmed and quoted text, addresses, times and errors.

use crate::error::{QlinkError, QlinkErrorView, error_text};
use crate::net::{IpAddr, SocketAddr, ip_text, socket_text};
use crate::text::{
    decimal, hex_text, json_char, json_chars, json_quoted, lowered, trimmed, trimmed_end,
};
use crate::time::{Duration, Instant};
use vstd::prelude::*;
use vstd::string::*;

verus! {

// ---------------------------------------------------------------------------
// Numbers
// ---------------------------------------------------------------------------

/// A number of one digit is that digit; a longer one is the number without its
/// last digit, and then that digit.
pub proof fn law_decimals_grow_digit_by_digit(n: nat, d: nat)
    requires
        d < 10,
    ensures
        decimal(d).len() == 1,
        decimal(d)[0] as int == 48 + d,
        n > 0 ==> decimal(10 * n + d) == decimal(n) + decimal(d),
{
    if n > 0 {
        assert((10 * n + d) / 10 == n && (10 * n + d) % 10 == d) by (nonlinear_arith)
            requires
                d < 10,
        ;
        assert(decimal(10 * n + d) =~= decimal(n) + decimal(d));
    }
}

/// Each byte is written as two hexadecimal digits, in lower case, the high one
/// first.
pub proof fn law_bytes_are_two_digits_each(bytes: Seq<u8>, i: int)
    requires
        0 <= i < bytes.len(),
    ensures
        ({
            let digits = seq![
                '0', '1', '2', '3', '4', '5', '6', '7', '8', '9', 'a', 'b', 'c', 'd', 'e', 'f',
            ];
            &&& hex_text(bytes).len() == 2 * bytes.len()
            &&& hex_text(bytes)[2 * i] == digits[bytes[i] as int / 16]
            &&& hex_text(bytes)[2 * i + 1] == digits[bytes[i] as int % 16]
        }),
{
    assert((2 * i) / 2 == i && (2 * i + 1) / 2 == i);
    assert((2 * i) % 2 == 0 && (2 * i + 1) % 2 == 1);
    let b = bytes[i] as int;
    assert(0 <= b / 16 < 16 && 0 <= b % 16 < 16);
}

// ---------------------------------------------------------------------------
// Trimming and case
// ---------------------------------------------------------------------------

/// Text between blanks is what is left of it when they are trimmed.
pub proof fn law_trimming_takes_the_blanks_off(front: Seq<char>, s: Seq<char>, back: Seq<char>)
    requires
        forall|i: int| 0 <= i < front.len() ==> (#[trigger] front[i] == ' ' || front[i] == '\t'
            || front[i] == '\n' || front[i] == '\r'),
        forall|i: int| 0 <= i < back.len() ==> (#[trigger] back[i] == ' ' || back[i] == '\t'
            || back[i] == '\n' || back[i] == '\r'),
        s.len() > 0,
        '!' <= s[0] <= '~',
        '!' <= s.last() <= '~',
    ensures
        trimmed(front + s + back) == s,
    decreases front.len() + back.len(),
{
    let all = front + s + back;
    if front.len() > 0 {
        let rest = front.drop_first();
        assert forall|i: int| 0 <= i < rest.len() implies (#[trigger] rest[i] == ' ' || rest[i]
            == '\t' || rest[i] == '\n' || rest[i] == '\r') by {
            assert(rest[i] == front[i + 1]);
        }
        assert(all[0] == front[0]);
        assert(all.drop_first() =~= rest + s + back);
        law_trimming_takes_the_blanks_off(rest, s, back);
    } else {
        assert(all =~= s + back);
        assert(all[0] == s[0]);
        lemma_blank_end(s, back);
    }
}

proof fn lemma_blank_end(s: Seq<char>, back: Seq<char>)
    requires
        forall|i: int| 0 <= i < back.len() ==> (#[trigger] back[i] == ' ' || back[i] == '\t'
            || back[i] == '\n' || back[i] == '\r'),
        s.len() > 0,
        '!' <= s.last() <= '~',
    ensures
        trimmed_end(s + back) == s,
    decreases back.len(),
{
    let all = s + back;
    if back.len() > 0 {
        let rest = back.drop_last();
        assert forall|i: int| 0 <= i < rest.len() implies (#[trigger] rest[i] == ' ' || rest[i]
            == '\t' || rest[i] == '\n' || rest[i] == '\r') by {
            assert(rest[i] == back[i]);
        }
        assert(all.last() == back[back.len() - 1]);
        assert(all.drop_last() =~= s + rest);
        lemma_blank_end(s, rest);
    } else {
        assert(all =~= s);
    }
}

/// Blanks alone trim to nothing.
pub proof fn law_blanks_trim_to_nothing(s: Seq<char>)
    requires
        forall|i: int| 0 <= i < s.len() ==> (#[trigger] s[i] == ' ' || s[i] == '\t' || s[i] == '\n'
            || s[i] == '\r'),
    ensures
        trimmed(s).len() == 0,
    decreases s.len(),
{
    if s.len() > 0 {
        let rest = s.drop_first();
        assert(s[0] == ' ' || s[0] == '\t' || s[0] == '\n' || s[0] == '\r');
        assert forall|i: int| 0 <= i < rest.len() implies (#[trigger] rest[i] == ' ' || rest[i]
            == '\t' || rest[i] == '\n' || rest[i] == '\r') by {
            assert(rest[i] == s[i + 1]);
        }
        law_blanks_trim_to_nothing(rest);
    }
}

/// Lower case changes the capital letters of the alphabet and nothing else.
pub proof fn law_lower_case_changes_capitals_alone(s: Seq<char>, i: int)
    requires
        0 <= i < s.len(),
    ensures
        lowered(s).len() == s.len(),
        'A' <= s[i] <= 'Z' ==> lowered(s)[i] as int == s[i] as int + 32,
        !('A' <= s[i] <= 'Z') ==> lowered(s)[i] == s[i],
{
}

// ---------------------------------------------------------------------------
// Quoting
// ---------------------------------------------------------------------------

/// Text is quoted character by character between two quotes: quotes, backslashes
/// and control characters are escaped, everything else stands for itself.
pub proof fn law_quoting_escapes(s: Seq<char>, c: char)
    ensures
        json_quoted(s).len() >= 2,
        json_quoted(s)[0] == '"',
        json_quoted(s).last() == '"',
        json_quoted(s.push(c)) == json_quoted(s).drop_last() + json_char(c) + seq!['"'],
        json_quoted(Seq::<char>::empty()) == seq!['"', '"'],
        c == '"' ==> json_char(c) == seq!['\\', '"'],
        c == '\\' ==> json_char(c) == seq!['\\', '\\'],
        c == '\n' ==> json_char(c) == seq!['\\', 'n'],
        c == '\r' ==> json_char(c) == seq!['\\', 'r'],
        c == '\t' ==> json_char(c) == seq!['\\', 't'],
        c as int >= 32 && c != '"' && c != '\\' ==> json_char(c) == seq![c],
        (c as int) < 32 ==> json_char(c).len() >= 2 && json_char(c)[0] == '\\',
{
    assert(s.push(c).drop_last() =~= s);
    assert(json_quoted(s).drop_last() =~= seq!['"'] + json_chars(s));
    assert(json_quoted(s.push(c)) =~= json_quoted(s).drop_last() + json_char(c) + seq!['"']);
    assert(json_quoted(Seq::<char>::empty()) =~= seq!['"', '"']);
}

// ---------------------------------------------------------------------------
// Addresses
// ---------------------------------------------------------------------------

/// A short address is written as its four bytes in decimal with dots between them,
/// and with a colon and the port where it has one.
pub proof fn law_short_addresses_are_dotted(a: u8, b: u8, c: u8, d: u8, port: u16)
    ensures
        ({
            let ip = (a as int * 0x100_0000 + b as int * 0x1_0000 + c as int * 0x100
                + d as int) as u32;
            let text = decimal(a as nat) + "."@ + decimal(b as nat) + "."@ + decimal(c as nat)
                + "."@ + decimal(d as nat);
            &&& ip_text(IpAddr::V4(ip)) == text
            &&& socket_text(SocketAddr { ip: IpAddr::V4(ip), port }) == text + ":"@ + decimal(
                port as nat,
            )
        }),
{
    let n = a as int * 0x100_0000 + b as int * 0x1_0000 + c as int * 0x100 + d as int;
    let ip = n as u32;
    assert(0 <= n <= u32::MAX);
    lemma_four_digits(a as int, b as int, c as int, d as int);
    assert(ip == n);
    assert(ip / 0x100_0000 == a);
    assert((ip / 0x1_0000) % 256 == b);
    assert((ip / 0x100) % 256 == c);
    assert(ip % 256 == d);
}

proof fn lemma_four_digits(a: int, b: int, c: int, d: int)
    requires
        0 <= a < 256,
        0 <= b < 256,
        0 <= c < 256,
        0 <= d < 256,
    ensures
        ({
            let n = a * 0x100_0000 + b * 0x1_0000 + c * 0x100 + d;
            &&& n / 0x100_0000 == a
            &&& n / 0x1_0000 % 256 == b
            &&& n / 0x100 % 256 == c
            &&& n % 256 == d
        }),
{
    let n = a * 0x100_0000 + b * 0x1_0000 + c * 0x100 + d;
    let x = a * 0x1_0000 + b * 0x100 + c;
    let y = a * 0x100 + b;
    lemma_quotient(n, x, d, 0x100);
    lemma_quotient(n, y, c * 0x100 + d, 0x1_0000);
    lemma_quotient(n, a, b * 0x1_0000 + c * 0x100 + d, 0x100_0000);
    lemma_quotient(x, y, c, 0x100);
    lemma_quotient(y, a, b, 0x100);
}

proof fn lemma_quotient(n: int, q: int, r: int, m: int)
    requires
        n == q * m + r,
        0 <= r < m,
    ensures
        n / m == q,
        n % m == r,
{
    vstd::arithmetic::div_mod::lemma_fundamental_div_mod_converse(n, m, q, r);
}

/// A long address stands in brackets before its port.
pub proof fn law_long_addresses_stand_in_brackets(ip: u128, port: u16)
    ensures
        socket_text(SocketAddr { ip: IpAddr::V6(ip), port }) == "["@ + ip_text(IpAddr::V6(ip))
            + "]:"@ + decimal(port as nat),
{
}

/// An address is written as its text says.
pub proof fn law_addresses_write_their_text(ip: &IpAddr, addr: &SocketAddr, s: String, t: String)
    requires
        call_ensures(IpAddr::to_string, (ip,), s),
        call_ensures(SocketAddr::to_string, (addr,), t),
    ensures
        s@ == ip_text(*ip),
        t@ == socket_text(*addr),
{
}

// ---------------------------------------------------------------------------
// Times
// ---------------------------------------------------------------------------

/// Spans add up in nanoseconds, never fall below nothing and never grow beyond
/// what a span can say.
pub proof fn law_spans(
    secs: u64,
    millis: u64,
    a: Duration,
    b: Duration,
    factor: u32,
    from_secs: Duration,
    from_millis: Duration,
    times: Duration,
    less: Duration,
    shortest: Duration,
)
    requires
        call_ensures(Duration::from_secs, (secs,), from_secs),
        call_ensures(Duration::from_millis, (millis,), from_millis),
        call_ensures(Duration::saturating_mul, (&a, factor), times),
        call_ensures(Duration::saturating_sub, (&a, b), less),
        call_ensures(Duration::min, (a, b), shortest),
    ensures
        from_secs.nanos == secs * 1_000_000_000,
        from_millis.nanos == millis * 1_000_000,
        a.nanos * factor <= 18_446_744_073_709_551_615_999_999_999 ==> times.nanos == a.nanos
            * factor,
        a.nanos * factor > 18_446_744_073_709_551_615_999_999_999 ==> times.nanos
            == 18_446_744_073_709_551_615_999_999_999,
        a.nanos >= b.nanos ==> less.nanos == a.nanos - b.nanos,
        a.nanos < b.nanos ==> less.nanos == 0,
        shortest.nanos <= a.nanos && shortest.nanos <= b.nanos,
        shortest.nanos == a.nanos || shortest.nanos == b.nanos,
{
}

/// The time between two moments is nothing where they are the wrong way round.
pub proof fn law_time_between(now: &Instant, earlier: Instant, d: Duration)
    requires
        call_ensures(Instant::saturating_duration_since, (now, earlier), d),
    ensures
        now.nanos >= earlier.nanos ==> d.nanos == now.nanos - earlier.nanos,
        now.nanos < earlier.nanos ==> d.nanos == 0,
{
}

/// A span in whole seconds and milliseconds is rounded down.
pub proof fn law_spans_round_down(d: &Duration, secs: u128, millis: u128, zero: bool)
    requires
        call_ensures(Duration::as_secs, (d,), secs),
        call_ensures(Duration::as_millis, (d,), millis),
        call_ensures(Duration::is_zero, (d,), zero),
    ensures
        secs * 1_000_000_000 <= d.nanos < (secs + 1) * 1_000_000_000,
        millis * 1_000_000 <= d.nanos < (millis + 1) * 1_000_000,
        zero <==> d.nanos == 0,
{
}

// ---------------------------------------------------------------------------
// Errors
// ---------------------------------------------------------------------------

/// An error tells its kind, and then its reason where it has one.
pub proof fn law_errors_tell_their_kind(reason: Seq<char>)
    ensures
        error_text(QlinkErrorView::InvalidKey(reason)) == "invalid key material: "@ + reason,
        error_text(QlinkErrorView::Crypto(reason)) == "cryptographic operation failed: "@ + reason,
        error_text(QlinkErrorView::Protocol(reason)) == "protocol error: "@ + reason,
        error_text(QlinkErrorView::Route(reason)) == "route parse error: "@ + reason,
        error_text(QlinkErrorView::Io(reason)) == "io error: "@ + reason,
        error_text(QlinkErrorView::Json(reason)) == "json error: "@ + reason,
        error_text(QlinkErrorView::RecordExpired) == "record expired"@,
        error_text(QlinkErrorView::SignatureVerification) == "signature verification failed"@,
{
}

/// An error is written as its text says, and a copy of it is the same error.
pub proof fn law_errors_write_their_text(e: &QlinkError, s: String, copy: QlinkError)
    requires
        call_ensures(QlinkError::to_string, (e,), s),
        call_ensures(QlinkError::duplicate, (e,), copy),
    ensures
        s@ == error_text(e@),
        copy@ == e@,
{
}

} // verus!
