//! Strings as sequences of characters: numbers, splitting, trimming, hex.

use crate::error::Result;
use vstd::prelude::*;
use vstd::string::*;

verus! {

/// `String::push`: the string grows by exactly the given character.
pub assume_specification[ String::push ](s: &mut String, c: char)
    ensures
        final(s)@ == old(s)@.push(c),
;

/// The character of a decimal digit.
pub open spec fn digit_char(d: int) -> char {
    (48 + d) as char
}

/// `n` in decimal, without leading zeros.
pub open spec fn decimal(n: nat) -> Seq<char>
    decreases n,
{
    if n < 10 {
        seq![digit_char(n as int)]
    } else {
        decimal(n / 10).push(digit_char((n % 10) as int))
    }
}

/// Appends `n` in decimal.
pub(crate) fn push_decimal(s: &mut String, n: u64)
    ensures
        final(s)@ == old(s)@ + decimal(n as nat),
{
    push_wide_decimal(s, n as u128);
}

/// Appends `n` in decimal.
pub(crate) fn push_wide_decimal(s: &mut String, n: u128)
    ensures
        final(s)@ == old(s)@ + decimal(n as nat),
    decreases n,
{
    if n >= 10 {
        push_wide_decimal(s, n / 10);
    }
    let d: u8 = (n % 10) as u8;
    s.push((48 + d) as char);
    assert(s@ =~= old(s)@ + decimal(n as nat));
}

/// The character of a lowercase hexadecimal digit.
pub open spec fn hex_char(d: int) -> char {
    if d < 10 {
        (48 + d) as char
    } else {
        (87 + d) as char
    }
}

/// The low `len` hexadecimal digits of `n`, lowercase, most significant first.
pub open spec fn hex_digits(n: nat, len: nat) -> Seq<char>
    decreases len,
{
    if len == 0 {
        Seq::empty()
    } else {
        hex_digits(n / 16, (len - 1) as nat).push(hex_char((n % 16) as int))
    }
}

/// The lowercase hexadecimal digit of `d`.
pub(crate) fn hex_digit(d: u8) -> (c: char)
    requires
        d < 16,
    ensures
        c == hex_char(d as int),
{
    if d < 10 {
        (48 + d) as char
    } else {
        (87 + d) as char
    }
}

/// Appends the low `len` hexadecimal digits of `n`.
pub(crate) fn push_hex_digits(s: &mut String, n: u64, len: usize)
    ensures
        final(s)@ == old(s)@ + hex_digits(n as nat, len as nat),
    decreases len,
{
    if len > 0 {
        push_hex_digits(s, n / 16, len - 1);
        s.push(hex_digit((n % 16) as u8));
    }
    assert(s@ =~= old(s)@ + hex_digits(n as nat, len as nat));
}

/// `n` in lowercase hexadecimal, without leading zeros.
pub open spec fn hex_number(n: nat) -> Seq<char>
    decreases n,
{
    if n < 16 {
        seq![hex_char(n as int)]
    } else {
        hex_number(n / 16).push(hex_char((n % 16) as int))
    }
}

/// Appends `n` in lowercase hexadecimal.
pub(crate) fn push_hex_number(s: &mut String, n: u64)
    ensures
        final(s)@ == old(s)@ + hex_number(n as nat),
    decreases n,
{
    if n >= 16 {
        push_hex_number(s, n / 16);
    }
    s.push(hex_digit((n % 16) as u8));
    assert(s@ =~= old(s)@ + hex_number(n as nat));
}

/// `a` followed by `b`.
pub(crate) fn join2(a: &str, b: &str) -> (s: String)
    ensures
        s@ == a@ + b@,
{
    a.to_owned().concat(b)
}

/// `a` followed by `b` and `c`.
pub(crate) fn join3(a: &str, b: &str, c: &str) -> (s: String)
    ensures
        s@ == a@ + b@ + c@,
{
    a.to_owned().concat(b).concat(c)
}

/// The characters of a string.
pub(crate) fn chars_of(s: &str) -> (v: Vec<char>)
    ensures
        v@ == s@,
{
    let mut v: Vec<char> = Vec::new();
    for c in it: s.chars()
        invariant
            it.seq() == s@,
            v@ == s@.subrange(0, it.index() as int),
    {
        v.push(c);
        assert(v@ =~= s@.subrange(0, it.index() + 1));
    }
    assert(v@ =~= s@);
    v
}

/// The string made of the given characters.
pub(crate) fn string_of(v: &Vec<char>, from: usize, to: usize) -> (s: String)
    requires
        from <= to <= v.len(),
    ensures
        s@ == v@.subrange(from as int, to as int),
{
    let mut s = String::new();
    let mut i: usize = from;
    while i < to
        invariant
            from <= i <= to <= v.len(),
            s@ == v@.subrange(from as int, i as int),
        decreases to - i,
    {
        s.push(v[i]);
        assert(s@ =~= v@.subrange(from as int, i + 1));
        i = i + 1;
    }
    s
}

/// Where `c` first stands in `s`, or the length of `s`.
pub open spec fn first_index(s: Seq<char>, c: char) -> int
    decreases s.len(),
{
    if s.len() == 0 {
        0
    } else if s[0] == c {
        0
    } else {
        1 + first_index(s.drop_first(), c)
    }
}

/// What stands before the first `c`, or all of `s`.
pub open spec fn before_first(s: Seq<char>, c: char) -> Seq<char> {
    s.subrange(0, first_index(s, c))
}

/// The first index is the one with `c` at it and no `c` before it.
pub proof fn lemma_first_index(s: Seq<char>, c: char)
    ensures
        0 <= first_index(s, c) <= s.len(),
        first_index(s, c) < s.len() ==> s[first_index(s, c)] == c,
        forall|i: int| 0 <= i < first_index(s, c) ==> s[i] != c,
    decreases s.len(),
{
    if s.len() > 0 && s[0] != c {
        let rest = s.drop_first();
        lemma_first_index(rest, c);
        assert forall|i: int| 0 <= i < first_index(s, c) implies s[i] != c by {
            if i > 0 {
                assert(rest[i - 1] == s[i]);
            }
        }
        if first_index(s, c) < s.len() {
            assert(rest[first_index(rest, c)] == s[first_index(s, c)]);
        }
    }
}

/// An index with `c` at it and no `c` before it is the first one.
pub proof fn lemma_first_index_unique(s: Seq<char>, c: char, k: int)
    requires
        0 <= k <= s.len(),
        k < s.len() ==> s[k] == c,
        forall|i: int| 0 <= i < k ==> s[i] != c,
    ensures
        first_index(s, c) == k,
{
    lemma_first_index(s, c);
    let f = first_index(s, c);
    if f < k {
        assert(s[f] != c);
    }
    if k < f {
        assert(s[k] != c);
    }
}

/// Where `c` first stands in `v`, or the length of `v`.
pub(crate) fn find_char(v: &Vec<char>, c: char) -> (k: usize)
    ensures
        k == first_index(v@, c),
        k <= v@.len(),
{
    let mut k: usize = 0;
    while k < v.len() && v[k] != c
        invariant
            k <= v@.len(),
            forall|i: int| 0 <= i < k ==> v@[i] != c,
        decreases v@.len() - k,
    {
        k = k + 1;
    }
    proof {
        lemma_first_index_unique(v@, c, k as int);
    }
    k
}

// ---------------------------------------------------------------------------
// White space, prefixes, case
// ---------------------------------------------------------------------------

/// The characters with the Unicode property White_Space.
pub open spec fn is_white(c: char) -> bool {
    ||| '\u{9}' <= c <= '\u{d}'
    ||| c == ' '
    ||| c == '\u{85}'
    ||| c == '\u{a0}'
    ||| c == '\u{1680}'
    ||| '\u{2000}' <= c <= '\u{200a}'
    ||| c == '\u{2028}'
    ||| c == '\u{2029}'
    ||| c == '\u{202f}'
    ||| c == '\u{205f}'
    ||| c == '\u{3000}'
}

fn white(c: char) -> (b: bool)
    ensures
        b == is_white(c),
{
    ('\u{9}' <= c && c <= '\u{d}') || c == ' ' || c == '\u{85}' || c == '\u{a0}' || c
        == '\u{1680}' || ('\u{2000}' <= c && c <= '\u{200a}') || c == '\u{2028}' || c
        == '\u{2029}' || c == '\u{202f}' || c == '\u{205f}' || c == '\u{3000}'
}

/// `s` without white space at its start.
pub open spec fn trimmed_start(s: Seq<char>) -> Seq<char>
    decreases s.len(),
{
    if s.len() > 0 && is_white(s[0]) {
        trimmed_start(s.drop_first())
    } else {
        s
    }
}

/// `s` without white space at its end.
pub open spec fn trimmed_end(s: Seq<char>) -> Seq<char>
    decreases s.len(),
{
    if s.len() > 0 && is_white(s.last()) {
        trimmed_end(s.drop_last())
    } else {
        s
    }
}

/// `s` without white space at either end.
pub open spec fn trimmed(s: Seq<char>) -> Seq<char> {
    trimmed_end(trimmed_start(s))
}

/// `s` without white space at either end.
pub(crate) fn trim(s: &str) -> (t: String)
    ensures
        t@ == trimmed(s@),
{
    let v = chars_of(s);
    let mut from: usize = 0;
    let mut to: usize = v.len();
    assert(v@.subrange(0, to as int) =~= v@);
    while from < to && white(v[from])
        invariant
            from <= to == v@.len(),
            trimmed_start(v@) == trimmed_start(v@.subrange(from as int, to as int)),
        decreases to - from,
    {
        assert(v@.subrange(from as int, to as int).drop_first() =~= v@.subrange(
            from + 1,
            to as int,
        ));
        from = from + 1;
    }
    let ghost front = v@.subrange(from as int, to as int);
    assert(trimmed_start(v@) == front);
    while from < to && white(v[to - 1])
        invariant
            from <= to <= v@.len(),
            trimmed_end(front) == trimmed_end(v@.subrange(from as int, to as int)),
        decreases to - from,
    {
        assert(v@.subrange(from as int, to as int).drop_last() =~= v@.subrange(
            from as int,
            to - 1,
        ));
        to = to - 1;
    }
    string_of(&v, from, to)
}

/// `s` without any `c` at its end.
pub open spec fn without_trailing(s: Seq<char>, c: char) -> Seq<char>
    decreases s.len(),
{
    if s.len() > 0 && s.last() == c {
        without_trailing(s.drop_last(), c)
    } else {
        s
    }
}

/// `s` without any `c` at its end.
pub(crate) fn trim_trailing(s: &str, c: char) -> (t: String)
    ensures
        t@ == without_trailing(s@, c),
{
    let v = chars_of(s);
    let mut to: usize = v.len();
    assert(v@.subrange(0, to as int) =~= v@);
    while 0 < to && v[to - 1] == c
        invariant
            to <= v@.len(),
            without_trailing(v@, c) == without_trailing(v@.subrange(0, to as int), c),
        decreases to,
    {
        assert(v@.subrange(0, to as int).drop_last() =~= v@.subrange(0, to - 1));
        to = to - 1;
    }
    string_of(&v, 0, to)
}

/// `s` without any `c` at its start.
pub open spec fn without_leading(s: Seq<char>, c: char) -> Seq<char>
    decreases s.len(),
{
    if s.len() > 0 && s[0] == c {
        without_leading(s.drop_first(), c)
    } else {
        s
    }
}

/// `s` without any `c` at its start.
pub(crate) fn trim_leading(s: &str, c: char) -> (t: String)
    ensures
        t@ == without_leading(s@, c),
{
    let v = chars_of(s);
    let mut from: usize = 0;
    assert(v@.skip(0) =~= v@);
    while from < v.len() && v[from] == c
        invariant
            from <= v@.len(),
            without_leading(v@, c) == without_leading(v@.skip(from as int), c),
        decreases v@.len() - from,
    {
        assert(v@.skip(from as int).drop_first() =~= v@.skip(from + 1));
        from = from + 1;
    }
    assert(v@.skip(from as int) =~= v@.subrange(from as int, v@.len() as int));
    string_of(&v, from, v.len())
}

/// Where `c` last stands in `s`, or a negative number.
pub open spec fn last_index(s: Seq<char>, c: char) -> int
    decreases s.len(),
{
    if s.len() == 0 {
        -1
    } else if s.last() == c {
        s.len() - 1
    } else {
        last_index(s.drop_last(), c)
    }
}

/// Where `c` last stands in `v`, if it does.
pub(crate) fn find_last_char(v: &Vec<char>, c: char) -> (r: Option<usize>)
    ensures
        match r {
            Some(k) => k == last_index(v@, c) && k < v@.len(),
            None => last_index(v@, c) < 0,
        },
{
    let mut k: usize = v.len();
    assert(v@.subrange(0, k as int) =~= v@);
    while k > 0 && v[k - 1] != c
        invariant
            k <= v@.len(),
            last_index(v@, c) == last_index(v@.subrange(0, k as int), c),
        decreases k,
    {
        assert(v@.subrange(0, k as int).drop_last() =~= v@.subrange(0, k - 1));
        k = k - 1;
    }
    if k > 0 {
        Some(k - 1)
    } else {
        None
    }
}

/// `s` starts with `prefix`.
pub open spec fn has_prefix(s: Seq<char>, prefix: Seq<char>) -> bool {
    prefix.len() <= s.len() && s.subrange(0, prefix.len() as int) == prefix
}

/// What follows `prefix` in `s`, or all of `s` where it does not start so.
pub open spec fn after_prefix(s: Seq<char>, prefix: Seq<char>) -> Seq<char> {
    if has_prefix(s, prefix) {
        s.subrange(prefix.len() as int, s.len() as int)
    } else {
        s
    }
}

pub(crate) fn starts_with(s: &str, prefix: &str) -> (b: bool)
    ensures
        b == has_prefix(s@, prefix@),
{
    let v = chars_of(s);
    let p = chars_of(prefix);
    if p.len() > v.len() {
        return false;
    }
    let mut i: usize = 0;
    while i < p.len()
        invariant
            i <= p@.len() <= v@.len(),
            v@ == s@,
            p@ == prefix@,
            forall|j: int| 0 <= j < i ==> v@[j] == p@[j],
        decreases p@.len() - i,
    {
        if v[i] != p[i] {
            assert(v@.subrange(0, p@.len() as int)[i as int] != p@[i as int]);
            return false;
        }
        i = i + 1;
    }
    assert(v@.subrange(0, p@.len() as int) =~= p@);
    true
}

/// What follows `prefix` in `s`, where `s` starts so.
pub(crate) fn strip_prefix(s: &str, prefix: &str) -> (r: Option<String>)
    ensures
        r is Some <==> has_prefix(s@, prefix@),
        r matches Some(t) ==> t@ == after_prefix(s@, prefix@),
{
    if starts_with(s, prefix) {
        let v = chars_of(s);
        let k: usize = chars_of(prefix).len();
        Some(string_of(&v, k, v.len()))
    } else {
        None
    }
}

/// An ASCII capital in its small form, any other character as it is.
pub open spec fn lower_char(c: char) -> char {
    if 'A' <= c <= 'Z' {
        (c as u32 + 32) as char
    } else {
        c
    }
}

/// `s` with ASCII capitals made small.
pub open spec fn lowered(s: Seq<char>) -> Seq<char> {
    Seq::new(s.len(), |i: int| lower_char(s[i]))
}

/// `s` with ASCII capitals made small.
pub(crate) fn to_lower(s: &str) -> (t: String)
    ensures
        t@ == lowered(s@),
{
    let v = chars_of(s);
    let mut t = String::new();
    let mut i: usize = 0;
    while i < v.len()
        invariant
            i <= v@.len(),
            t@.len() == i,
            forall|j: int| 0 <= j < i ==> t@[j] == lower_char(v@[j]),
        decreases v@.len() - i,
    {
        let c: char = v[i];
        if 'A' <= c && c <= 'Z' {
            let small: u8 = (c as u32 + 32) as u8;
            t.push(small as char);
        } else {
            t.push(c);
        }
        i = i + 1;
    }
    assert(t@ =~= lowered(s@));
    t
}

/// Two strings hold the same characters.
pub(crate) fn same_text(a: &str, b: &str) -> (same: bool)
    ensures
        same == (a@ == b@),
{
    a.to_owned() == b.to_owned()
}

// ---------------------------------------------------------------------------
// Hexadecimal
// ---------------------------------------------------------------------------

/// A byte string in lowercase hexadecimal, two digits for each byte.
pub open spec fn hex_text(bytes: Seq<u8>) -> Seq<char> {
    Seq::new(
        bytes.len() * 2,
        |i: int|
            if i % 2 == 0 {
                hex_char(bytes[i / 2] as int / 16)
            } else {
                hex_char(bytes[i / 2] as int % 16)
            },
    )
}

/// The digits of hexadecimal numbers, of either case.
pub open spec fn is_hex_digit(c: char) -> bool {
    '0' <= c <= '9' || 'a' <= c <= 'f' || 'A' <= c <= 'F'
}

/// What a hexadecimal digit stands for.
pub open spec fn hex_value(c: char) -> int {
    if '0' <= c <= '9' {
        c as int - 48
    } else if 'a' <= c <= 'f' {
        c as int - 87
    } else {
        c as int - 55
    }
}

/// An even number of hexadecimal digits.
pub open spec fn is_hex_text(s: Seq<char>) -> bool {
    s.len() % 2 == 0 && forall|i: int| 0 <= i < s.len() ==> is_hex_digit(#[trigger] s[i])
}

/// The bytes that pairs of hexadecimal digits stand for.
pub open spec fn hex_bytes(s: Seq<char>) -> Seq<u8> {
    Seq::new(s.len() / 2, |i: int| (hex_value(s[2 * i]) * 16 + hex_value(s[2 * i + 1])) as u8)
}

/// Reading hexadecimal undoes writing it.
pub proof fn law_hex_round_trip(bytes: Seq<u8>)
    ensures
        is_hex_text(hex_text(bytes)),
        hex_bytes(hex_text(bytes)) == bytes,
        hex_text(bytes).len() == 2 * bytes.len(),
{
    let s = hex_text(bytes);
    assert forall|i: int| 0 <= i < s.len() implies is_hex_digit(#[trigger] s[i]) by {
        let b = bytes[i / 2] as int;
        assert(0 <= b / 16 < 16 && 0 <= b % 16 < 16);
    }
    assert forall|i: int| 0 <= i < bytes.len() implies hex_bytes(s)[i] == bytes[i] by {
        let b = bytes[i] as int;
        assert((2 * i) / 2 == i && (2 * i + 1) / 2 == i);
        assert((2 * i) % 2 == 0 && (2 * i + 1) % 2 == 1);
        assert(0 <= b / 16 < 16 && 0 <= b % 16 < 16);
        assert(hex_value(hex_char(b / 16)) == b / 16);
        assert(hex_value(hex_char(b % 16)) == b % 16);
        assert(b / 16 * 16 + b % 16 == b);
    }
    assert(hex_bytes(s) =~= bytes);
}

/// A byte string in lowercase hexadecimal.
pub fn hex_encode(bytes: &[u8]) -> (s: String)
    ensures
        s@ == hex_text(bytes@),
{
    let mut s = String::new();
    let mut i: usize = 0;
    while i < bytes.len()
        invariant
            i <= bytes@.len(),
            s@.len() == 2 * i,
            forall|j: int| 0 <= j < 2 * i ==> s@[j] == hex_text(bytes@)[j],
        decreases bytes@.len() - i,
    {
        let b: u8 = bytes[i];
        let ghost before = s@;
        s.push(hex_digit(b / 16));
        s.push(hex_digit(b % 16));
        assert forall|j: int| 0 <= j < 2 * (i + 1) implies s@[j] == hex_text(bytes@)[j] by {
            if j < 2 * i {
                assert(s@[j] == before[j]);
            } else {
                assert(j / 2 == i);
            }
        }
        i = i + 1;
    }
    assert(s@ =~= hex_text(bytes@));
    s
}

// ---------------------------------------------------------------------------
// JSON strings
// ---------------------------------------------------------------------------

/// A character inside a JSON string.
pub open spec fn json_char(c: char) -> Seq<char> {
    if c == '"' {
        seq!['\\', '"']
    } else if c == '\\' {
        seq!['\\', '\\']
    } else if c == '\u{8}' {
        seq!['\\', 'b']
    } else if c == '\u{9}' {
        seq!['\\', 't']
    } else if c == '\u{a}' {
        seq!['\\', 'n']
    } else if c == '\u{c}' {
        seq!['\\', 'f']
    } else if c == '\u{d}' {
        seq!['\\', 'r']
    } else if 0x20 > c as nat {
        seq!['\\', 'u', '0', '0'] + hex_digits(c as nat, 2)
    } else {
        seq![c]
    }
}

/// The characters of `s` inside a JSON string.
pub open spec fn json_chars(s: Seq<char>) -> Seq<char>
    decreases s.len(),
{
    if s.len() == 0 {
        Seq::empty()
    } else {
        json_chars(s.drop_last()) + json_char(s.last())
    }
}

/// `s` as a JSON string, with its quotes.
pub open spec fn json_quoted(s: Seq<char>) -> Seq<char> {
    seq!['"'] + json_chars(s) + seq!['"']
}

// ---------------------------------------------------------------------------
// Reading numbers
// ---------------------------------------------------------------------------

/// A decimal digit.
pub open spec fn is_digit(c: char) -> bool {
    '0' <= c <= '9'
}

/// What reading digits comes to, after digits that stand for `acc`: the number,
/// or the first thing that is wrong.
pub open spec fn digits_value(s: Seq<char>, acc: nat) -> Result<nat, Seq<char>>
    decreases s.len(),
{
    if s.len() == 0 {
        Ok(acc)
    } else if !is_digit(s[0]) {
        Err("invalid digit found in string"@)
    } else if acc * 10 + (s[0] as int - 48) > u64::MAX {
        Err("number too large to fit in target type"@)
    } else {
        digits_value(s.drop_first(), (acc * 10 + (s[0] as int - 48)) as nat)
    }
}

/// The number that a text stands for: digits, with a plus sign before them or
/// not; or what is wrong with it.
pub open spec fn parsed_number(s: Seq<char>) -> Result<nat, Seq<char>> {
    if s.len() == 0 {
        Err("cannot parse integer from empty string"@)
    } else if s.len() > 1 && s[0] == '+' {
        digits_value(s.drop_first(), 0)
    } else {
        digits_value(s, 0)
    }
}

/// Reads a number.
pub(crate) fn parse_number(s: &str) -> (r: Result<u64, String>)
    ensures
        match parsed_number(s@) {
            Ok(n) => r matches Ok(v) && v == n,
            Err(text) => r matches Err(e) && e@ == text,
        },
{
    let v = chars_of(s);
    if v.len() == 0 {
        return Err("cannot parse integer from empty string".to_owned());
    }
    let mut i: usize = 0;
    if v.len() > 1 && v[0] == '+' {
        i = 1;
    }
    let mut n: u64 = 0;
    proof {
        assert(v@.skip(0) =~= v@);
        assert(v@.skip(1) =~= v@.drop_first());
    }
    while i < v.len()
        invariant
            i <= v@.len(),
            v@ == s@,
            parsed_number(s@) == digits_value(v@.skip(i as int), n as nat),
        decreases v@.len() - i,
    {
        let c: char = v[i];
        assert(v@.skip(i as int)[0] == c);
        assert(v@.skip(i as int).drop_first() =~= v@.skip(i + 1));
        if c < '0' || c > '9' {
            return Err("invalid digit found in string".to_owned());
        }
        let d: u64 = (c as u32 - 48) as u64;
        let wide: u128 = n as u128 * 10 + d as u128;
        if wide > u64::MAX as u128 {
            return Err("number too large to fit in target type".to_owned());
        }
        n = wide as u64;
        i = i + 1;
    }
    Ok(n)
}

proof fn lemma_digits_value_push(s: Seq<char>, c: char, acc: nat)
    requires
        is_digit(c),
    ensures
        digits_value(s, acc) matches Ok(v) ==> (v * 10 + (c as int - 48) <= u64::MAX
            ==> digits_value(s.push(c), acc) == Ok::<nat, Seq<char>>(
            (v * 10 + (c as int - 48)) as nat,
        )),
    decreases s.len(),
{
    if s.len() == 0 {
        assert(s.push(c).drop_first() =~= Seq::empty());
        assert(digits_value(Seq::empty(), (acc * 10 + (c as int - 48)) as nat) == Ok::<
            nat,
            Seq<char>,
        >((acc * 10 + (c as int - 48)) as nat));
    } else {
        assert(s.push(c).drop_first() =~= s.drop_first().push(c));
        assert(s.push(c)[0] == s[0]);
        if is_digit(s[0]) {
            lemma_digits_value_push(s.drop_first(), c, (acc * 10 + (s[0] as int - 48)) as nat);
        }
    }
}

/// Reading a number undoes writing it.
pub proof fn law_decimal_round_trip(n: nat)
    requires
        n <= u64::MAX,
    ensures
        parsed_number(decimal(n)) == Ok::<nat, Seq<char>>(n),
        digits_value(decimal(n), 0) == Ok::<nat, Seq<char>>(n),
        decimal(n).len() > 0,
        is_digit(decimal(n)[0]),
    decreases n,
{
    if n < 10 {
        assert(decimal(n).drop_first() =~= Seq::empty());
        assert(digits_value(Seq::empty(), n) == Ok::<nat, Seq<char>>(n));
    } else {
        law_decimal_round_trip(n / 10);
        let c = digit_char((n % 10) as int);
        lemma_digits_value_push(decimal(n / 10), c, 0);
        assert(decimal(n) == decimal(n / 10).push(c));
        assert(decimal(n)[0] == decimal(n / 10)[0]);
    }
}

/// Which characters are letters or digits in Unicode.
pub uninterp spec fn unicode_alphanumeric(c: char) -> bool;

/// `char::is_alphanumeric`: a property of the character alone; of the ASCII
/// characters the letters and digits have it.
pub assume_specification[ char::is_alphanumeric ](c: char) -> (b: bool)
    ensures
        b == unicode_alphanumeric(c),
        c < '\u{80}' ==> b == ('0' <= c <= '9' || 'a' <= c <= 'z' || 'A' <= c <= 'Z'),
;

} // verus!
