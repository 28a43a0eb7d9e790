//! Character-level text helpers: ASCII case folding, substring search and
//! prefix / suffix tests over sequences of characters.

use vstd::prelude::*;
use vstd::string::*;

verus! {

broadcast use vstd::string::group_string_axioms;

/// ASCII lower-casing of one character; every other character is unchanged.
pub open spec fn lower_char(c: char) -> char {
    if 'A' <= c && c <= 'Z' {
        ((c as u32) + 32) as char
    } else {
        c
    }
}

/// ASCII lower-casing of a whole sequence of characters.
pub open spec fn lower(s: Seq<char>) -> Seq<char> {
    s.map_values(|c: char| lower_char(c))
}

/// `needle` occurs in `hay` at position `i`.
pub open spec fn occurs_at(hay: Seq<char>, needle: Seq<char>, i: int) -> bool {
    &&& 0 <= i
    &&& i + needle.len() <= hay.len()
    &&& hay.subrange(i, i + needle.len()) == needle
}

/// `needle` occurs somewhere in `hay`.
pub open spec fn contains(hay: Seq<char>, needle: Seq<char>) -> bool {
    exists|i: int| occurs_at(hay, needle, i)
}

pub open spec fn starts_with(hay: Seq<char>, needle: Seq<char>) -> bool {
    occurs_at(hay, needle, 0)
}

pub open spec fn ends_with(hay: Seq<char>, needle: Seq<char>) -> bool {
    needle.len() <= hay.len() && occurs_at(hay, needle, hay.len() - needle.len())
}

/// The characters of a string slice, in order.
pub fn chars_of(s: &str) -> (r: Vec<char>)
    ensures
        r@ == s@,
{
    let mut r: Vec<char> = Vec::new();
    for c in it: s.chars()
        invariant
            r@ == it.seq().take(it.index() as int),
    {
        r.push(c);
    }
    r
}

/// The string made of the given characters.
#[verifier::external_body]
pub(crate) fn string_of(chars: &[char]) -> (r: String)
    ensures
        r@ == chars@,
{
    chars.iter().collect()
}

pub fn lower_char_exec(c: char) -> (r: char)
    ensures
        r == lower_char(c),
{
    if 'A' <= c && c <= 'Z' {
        ((c as u8) + 32) as char
    } else {
        c
    }
}

/// ASCII lower-casing of a character sequence.
pub fn lower_chars(s: &[char]) -> (r: Vec<char>)
    ensures
        r@ == lower(s@),
{
    let mut r: Vec<char> = Vec::new();
    let mut i: usize = 0;
    while i < s.len()
        invariant
            i <= s.len(),
            r@ == lower(s@.take(i as int)),
        decreases s.len() - i,
    {
        r.push(lower_char_exec(s[i]));
        assert(s@.take(i + 1) == s@.take(i as int).push(s@[i as int]));
        i = i + 1;
    }
    assert(s@.take(s.len() as int) == s@);
    r
}

/// ASCII lower-casing of a string.
pub fn to_lower(s: &str) -> (r: String)
    ensures
        r@ == lower(s@),
{
    let cs = chars_of(s);
    let l = lower_chars(cs.as_slice());
    string_of(l.as_slice())
}

/// Whether `needle` occurs in `hay` at position `i`.
pub fn occurs_at_exec(hay: &[char], needle: &[char], i: usize) -> (r: bool)
    ensures
        r == occurs_at(hay@, needle@, i as int),
{
    if needle.len() > hay.len() || i > hay.len() - needle.len() {
        return false;
    }
    let mut j: usize = 0;
    while j < needle.len()
        invariant
            j <= needle.len(),
            i + needle.len() <= hay.len(),
            forall|k: int| 0 <= k < j ==> hay@[i + k] == needle@[k],
        decreases needle.len() - j,
    {
        if hay[i + j] != needle[j] {
            assert(hay@.subrange(i as int, i + needle.len())[j as int] != needle@[j as int]);
            return false;
        }
        j = j + 1;
    }
    assert(hay@.subrange(i as int, i + needle.len()) =~= needle@);
    true
}

/// Whether `needle` occurs anywhere in `hay`.
pub fn contains_chars(hay: &[char], needle: &[char]) -> (r: bool)
    ensures
        r == contains(hay@, needle@),
{
    if needle.len() > hay.len() {
        return false;
    }
    if needle.len() == 0 {
        assert(hay@.subrange(0, 0) =~= needle@);
        assert(occurs_at(hay@, needle@, 0));
        return true;
    }
    let last = hay.len() - needle.len();
    let mut i: usize = 0;
    while i <= last
        invariant
            last == hay.len() - needle.len(),
            0 < needle.len() <= hay.len(),
            i <= last + 1,
            forall|k: int| 0 <= k < i ==> !occurs_at(hay@, needle@, k),
        decreases last + 1 - i,
    {
        if occurs_at_exec(hay, needle, i) {
            return true;
        }
        i = i + 1;
    }
    false
}

/// Whether the string literal `needle` occurs in `hay`.
pub fn contains_str(hay: &[char], needle: &str) -> (r: bool)
    ensures
        r == contains(hay@, needle@),
{
    let n = chars_of(needle);
    contains_chars(hay, n.as_slice())
}

pub fn starts_with_str(hay: &[char], needle: &str) -> (r: bool)
    ensures
        r == starts_with(hay@, needle@),
{
    let n = chars_of(needle);
    occurs_at_exec(hay, n.as_slice(), 0)
}

pub fn ends_with_str(hay: &[char], needle: &str) -> (r: bool)
    ensures
        r == ends_with(hay@, needle@),
{
    let n = chars_of(needle);
    if n.len() > hay.len() {
        return false;
    }
    occurs_at_exec(hay, n.as_slice(), hay.len() - n.len())
}

/// Whether two character sequences are equal.
pub fn chars_eq(a: &[char], b: &[char]) -> (r: bool)
    ensures
        r == (a@ == b@),
{
    if a.len() != b.len() {
        return false;
    }
    let r = occurs_at_exec(a, b, 0);
    proof {
        if a@ == b@ {
            assert(a@.subrange(0, b@.len() as int) =~= a@);
        }
        if r {
            assert(a@.subrange(0, b@.len() as int) =~= a@);
        }
    }
    r
}

/// Whether a character sequence equals a string literal.
pub fn eq_str(a: &[char], b: &str) -> (r: bool)
    ensures
        r == (a@ == b@),
{
    let bc = chars_of(b);
    chars_eq(a, bc.as_slice())
}

/// Whether two strings are equal.
pub fn str_eq(a: &str, b: &str) -> (r: bool)
    ensures
        r == (a@ == b@),
{
    let ac = chars_of(a);
    eq_str(ac.as_slice(), b)
}


/// Unicode `White_Space` characters, as `char::is_whitespace` documents them.
pub open spec fn is_ws(c: char) -> bool {
    ||| ('\u{9}' <= c && c <= '\u{d}')
    ||| c == ' '
    ||| c == '\u{85}'
    ||| c == '\u{a0}'
    ||| c == '\u{1680}'
    ||| ('\u{2000}' <= c && c <= '\u{200a}')
    ||| c == '\u{2028}'
    ||| c == '\u{2029}'
    ||| c == '\u{202f}'
    ||| c == '\u{205f}'
    ||| c == '\u{3000}'
}

pub fn is_ws_exec(c: char) -> (r: bool)
    ensures
        r == is_ws(c),
{
    ('\u{9}' <= c && c <= '\u{d}') || c == ' ' || c == '\u{85}' || c == '\u{a0}' || c == '\u{1680}'
        || ('\u{2000}' <= c && c <= '\u{200a}') || c == '\u{2028}' || c == '\u{2029}' || c
        == '\u{202f}' || c == '\u{205f}' || c == '\u{3000}'
}

/// `s` without its leading white space.
pub open spec fn trim_start(s: Seq<char>) -> Seq<char>
    decreases s.len(),
{
    if s.len() > 0 && is_ws(s[0]) {
        trim_start(s.drop_first())
    } else {
        s
    }
}

/// `s` without its trailing white space.
pub open spec fn trim_end(s: Seq<char>) -> Seq<char>
    decreases s.len(),
{
    if s.len() > 0 && is_ws(s.last()) {
        trim_end(s.drop_last())
    } else {
        s
    }
}

/// `s` without leading and trailing white space (`str::trim`).
pub open spec fn trim(s: Seq<char>) -> Seq<char> {
    trim_end(trim_start(s))
}

proof fn lemma_trim_start_skip(s: Seq<char>, a: int)
    requires
        0 <= a <= s.len(),
        forall|k: int| 0 <= k < a ==> is_ws(s[k]),
        a == s.len() || !is_ws(s[a]),
    ensures
        trim_start(s) == s.skip(a),
    decreases a,
{
    if a == 0 {
        assert(s.skip(0) =~= s);
    } else {
        assert(s.drop_first().skip(a - 1) =~= s.skip(a));
        lemma_trim_start_skip(s.drop_first(), a - 1);
    }
}

proof fn lemma_trim_end_take(s: Seq<char>, b: int)
    requires
        0 <= b <= s.len(),
        forall|k: int| b <= k < s.len() ==> is_ws(s[k]),
        b == 0 || !is_ws(s[b - 1]),
    ensures
        trim_end(s) == s.take(b),
    decreases s.len() - b,
{
    if b == s.len() {
        assert(s.take(b) =~= s);
    } else {
        assert(s.drop_last().take(b) =~= s.take(b));
        lemma_trim_end_take(s.drop_last(), b);
    }
}

/// The characters of `s` with leading and trailing white space removed.
pub fn trim_chars(s: &[char]) -> (r: Vec<char>)
    ensures
        r@ == trim(s@),
{
    let mut a: usize = 0;
    while a < s.len() && is_ws_exec(s[a])
        invariant
            a <= s.len(),
            forall|k: int| 0 <= k < a ==> is_ws(s@[k]),
        decreases s.len() - a,
    {
        a = a + 1;
    }
    proof {
        lemma_trim_start_skip(s@, a as int);
    }
    let mut b: usize = s.len();
    while b > a && is_ws_exec(s[b - 1])
        invariant
            a <= b <= s.len(),
            forall|k: int| b <= k < s.len() ==> is_ws(s@[k]),
        decreases b,
    {
        b = b - 1;
    }
    let ghost t = s@.skip(a as int);
    proof {
        assert forall|k: int| b - a <= k < t.len() implies is_ws(t[k]) by {
            assert(t[k] == s@[a + k]);
        }
        if b > a {
            assert(t[b - a - 1] == s@[b - 1]);
        }
        lemma_trim_end_take(t, b - a);
    }
    let mut r: Vec<char> = Vec::new();
    let mut i: usize = a;
    while i < b
        invariant
            a <= i <= b <= s.len(),
            r@ == s@.subrange(a as int, i as int),
        decreases b - i,
    {
        r.push(s[i]);
        assert(s@.subrange(a as int, i + 1) == s@.subrange(a as int, i as int).push(s@[i as int]));
        i = i + 1;
    }
    assert(t.take(b - a) =~= s@.subrange(a as int, b as int));
    r
}


/// The decimal digit character of `d` (0 to 9).
pub open spec fn digit_char(d: int) -> char {
    ((d + 48) as u32) as char
}

/// The decimal representation of `n`, without sign or leading zeros
/// (`u64::to_string`).
pub open spec fn decimal(n: nat) -> Seq<char>
    decreases n,
{
    if n < 10 {
        seq![digit_char(n as int)]
    } else {
        decimal(n / 10).push(digit_char((n % 10) as int))
    }
}

pub fn digit_exec(d: u64) -> (r: char)
    requires
        d < 10,
    ensures
        r == digit_char(d as int),
{
    ((d as u8) + 48) as char
}

/// The decimal representation of `n`.
pub fn decimal_chars(n: u64) -> (r: Vec<char>)
    ensures
        r@ == decimal(n as nat),
    decreases n,
{
    if n < 10 {
        let mut v: Vec<char> = Vec::new();
        v.push(digit_exec(n));
        v
    } else {
        let mut v = decimal_chars(n / 10);
        v.push(digit_exec(n % 10));
        v
    }
}

/// Appends the characters of `s` to `v`.
pub fn push_str(v: &mut Vec<char>, s: &str)
    ensures
        final(v)@ == old(v)@ + s@,
{
    let cs = chars_of(s);
    push_chars(v, cs.as_slice());
}

/// Appends `s` to `v`.
pub fn push_chars(v: &mut Vec<char>, s: &[char])
    ensures
        final(v)@ == old(v)@ + s@,
{
    let mut i: usize = 0;
    let ghost start = v@;
    while i < s.len()
        invariant
            i <= s.len(),
            v@ == start + s@.take(i as int),
        decreases s.len() - i,
    {
        v.push(s[i]);
        assert(s@.take(i + 1) == s@.take(i as int).push(s@[i as int]));
        assert(start + s@.take(i + 1) =~= (start + s@.take(i as int)).push(s@[i as int]));
        i = i + 1;
    }
    assert(s@.take(s.len() as int) =~= s@);
}

/// Why text is not an unsigned decimal number of a given range (the kinds
/// of `std::num::ParseIntError` an unsigned parse reports).
#[derive(Debug, Clone, Copy, PartialEq, Eq, Structural)]
pub enum IntError {
    Empty,
    InvalidDigit,
    PosOverflow,
}

impl IntError {
    pub open spec fn message_spec(self) -> Seq<char> {
        match self {
            IntError::Empty => "cannot parse integer from empty string"@,
            IntError::InvalidDigit => "invalid digit found in string"@,
            IntError::PosOverflow => "number too large to fit in target type"@,
        }
    }

    /// The message std gives for this kind of error.
    pub fn message(self) -> (r: &'static str)
        ensures
            r@ == self.message_spec(),
    {
        match self {
            IntError::Empty => "cannot parse integer from empty string",
            IntError::InvalidDigit => "invalid digit found in string",
            IntError::PosOverflow => "number too large to fit in target type",
        }
    }
}

/// The value of a decimal digit character.
pub open spec fn digit_value(c: char) -> Option<nat> {
    if '0' <= c && c <= '9' {
        Some(((c as u32) - 48) as nat)
    } else {
        None
    }
}

/// Reads the digits of `s` after the value `acc` read so far, left to right,
/// failing at the first character that is not a digit or that takes the
/// value past `max`.
pub open spec fn scan_digits(s: Seq<char>, acc: nat, max: nat) -> Result<nat, IntError>
    decreases s.len(),
{
    if s.len() == 0 {
        Ok(acc)
    } else {
        match digit_value(s[0]) {
            None => Err(IntError::InvalidDigit),
            Some(d) => if acc * 10 + d > max {
                Err(IntError::PosOverflow)
            } else {
                scan_digits(s.drop_first(), acc * 10 + d, max)
            },
        }
    }
}

/// An unsigned decimal number no greater than `max`: an optional `+`, then
/// one or more digits, nothing else (`str::parse` of an unsigned integer).
pub open spec fn parse_uint_spec(s: Seq<char>, max: nat) -> Result<nat, IntError> {
    if s.len() == 0 {
        Err(IntError::Empty)
    } else if s[0] == '+' {
        if s.len() == 1 {
            Err(IntError::InvalidDigit)
        } else {
            scan_digits(s.drop_first(), 0, max)
        }
    } else {
        scan_digits(s, 0, max)
    }
}

/// Parses an unsigned decimal number no greater than `max`.
pub fn parse_uint(s: &[char], max: u64) -> (r: Result<u64, IntError>)
    ensures
        match parse_uint_spec(s@, max as nat) {
            Ok(v) => v <= max && r == Ok::<u64, IntError>(v as u64),
            Err(e) => r == Err::<u64, IntError>(e),
        },
{
    if s.len() == 0 {
        return Err(IntError::Empty);
    }
    let mut i: usize = 0;
    if s[0] == '+' {
        if s.len() == 1 {
            return Err(IntError::InvalidDigit);
        }
        i = 1;
        assert(s@.skip(1) =~= s@.drop_first());
    } else {
        assert(s@.skip(0) =~= s@);
    }
    let mut acc: u64 = 0;
    while i < s.len()
        invariant
            1 <= s.len(),
            i <= s.len(),
            acc <= max,
            parse_uint_spec(s@, max as nat) == scan_digits(s@.skip(i as int), acc as nat, max as nat),
        decreases s.len() - i,
    {
        let c = s[i];
        let ghost t = s@.skip(i as int);
        assert(t[0] == c);
        assert(t.drop_first() =~= s@.skip(i + 1));
        if c < '0' || c > '9' {
            return Err(IntError::InvalidDigit);
        }
        let d: u64 = (c as u64) - 48;
        if d > max {
            return Err(IntError::PosOverflow);
        }
        if acc > (max - d) / 10 {
            assert(acc * 10 + d > max) by (nonlinear_arith)
                requires
                    acc > (max - d) / 10,
                    d <= max,
            ;
            return Err(IntError::PosOverflow);
        }
        assert(acc * 10 + d <= max) by (nonlinear_arith)
            requires
                acc <= (max - d) / 10,
                d <= max,
        ;
        acc = acc * 10 + d;
        i = i + 1;
    }
    Ok(acc)
}

proof fn lemma_digit_value_of_char(d: int)
    requires
        0 <= d < 10,
    ensures
        digit_value(digit_char(d)) == Some(d as nat),
        digit_char(d) != '+',
{
    vstd::utf8::char_u32_cast(digit_char(d), (d + 48) as u32);
}

proof fn lemma_decimal_first_digit(n: nat)
    ensures
        decimal(n).len() > 0,
        digit_value(decimal(n)[0]) is Some,
    decreases n,
{
    if n < 10 {
        lemma_digit_value_of_char(n as int);
    } else {
        lemma_decimal_first_digit(n / 10);
        assert(decimal(n)[0] == decimal(n / 10)[0]);
    }
}

proof fn lemma_scan_digits_push(s: Seq<char>, acc: nat, max: nat, c: char)
    requires
        scan_digits(s, acc, max) is Ok,
        digit_value(c) is Some,
    ensures
        scan_digits(s.push(c), acc, max) == ({
            let w = scan_digits(s, acc, max)->Ok_0 * 10 + digit_value(c)->Some_0;
            if w > max {
                Err::<nat, IntError>(IntError::PosOverflow)
            } else {
                Ok::<nat, IntError>(w)
            }
        }),
    decreases s.len(),
{
    if s.len() == 0 {
        reveal_with_fuel(scan_digits, 2);
        assert(s.push(c).drop_first() =~= Seq::<char>::empty());
    } else {
        let d0 = digit_value(s[0])->Some_0;
        assert(s.push(c).drop_first() =~= s.drop_first().push(c));
        assert(s.push(c)[0] == s[0]);
        lemma_scan_digits_push(s.drop_first(), acc * 10 + d0, max, c);
    }
}

proof fn lemma_scan_decimal(n: nat, max: nat)
    requires
        n <= max,
    ensures
        scan_digits(decimal(n), 0, max) == Ok::<nat, IntError>(n),
    decreases n,
{
    if n < 10 {
        reveal_with_fuel(scan_digits, 2);
        lemma_digit_value_of_char(n as int);
        assert(decimal(n).drop_first() =~= Seq::<char>::empty());
    } else {
        lemma_scan_decimal(n / 10, max);
        lemma_digit_value_of_char((n % 10) as int);
        lemma_scan_digits_push(decimal(n / 10), 0, max, digit_char((n % 10) as int));
    }
}

/// A number written in decimal reads back as itself.
pub proof fn decimal_round_trip(n: nat, max: nat)
    requires
        n <= max,
    ensures
        parse_uint_spec(decimal(n), max) == Ok::<nat, IntError>(n),
{
    lemma_scan_decimal(n, max);
    lemma_decimal_first_digit(n);
    if decimal(n)[0] == '+' {
        assert(digit_value('+') is None);
    }
}

/// A number read from text is within the range it was read for.
pub proof fn lemma_parse_uint_bound(s: Seq<char>, max: nat)
    requires
        parse_uint_spec(s, max) is Ok,
    ensures
        parse_uint_spec(s, max)->Ok_0 <= max,
{
    if s.len() > 0 && s[0] == '+' {
        lemma_scan_digits_bound(s.drop_first(), 0, max);
    } else {
        lemma_scan_digits_bound(s, 0, max);
    }
}

proof fn lemma_scan_digits_bound(s: Seq<char>, acc: nat, max: nat)
    requires
        acc <= max,
        scan_digits(s, acc, max) is Ok,
    ensures
        scan_digits(s, acc, max)->Ok_0 <= max,
    decreases s.len(),
{
    if s.len() > 0 {
        let d = digit_value(s[0])->Some_0;
        lemma_scan_digits_bound(s.drop_first(), acc * 10 + d, max);
    }
}

proof fn lemma_scan_digits_mono(s: Seq<char>, acc: nat, max1: nat, max2: nat)
    requires
        max1 <= max2,
        scan_digits(s, acc, max1) is Ok,
    ensures
        scan_digits(s, acc, max2) == scan_digits(s, acc, max1),
    decreases s.len(),
{
    if s.len() > 0 {
        let d = digit_value(s[0])->Some_0;
        lemma_scan_digits_mono(s.drop_first(), acc * 10 + d, max1, max2);
    }
}

/// Distinct numbers have distinct decimal texts.
pub proof fn decimal_injective(a: nat, b: nat)
    requires
        decimal(a) == decimal(b),
    ensures
        a == b,
{
    let m: nat = if a <= b {
        b
    } else {
        a
    };
    decimal_round_trip(a, m);
    decimal_round_trip(b, m);
}

/// A decimal text starts with a digit, so it is never an underscore.
pub proof fn decimal_is_not_underscore(n: nat)
    ensures
        decimal(n) != "_"@,
{
    reveal_strlit("_");
    lemma_decimal_first_digit(n);
    assert(digit_value('_') is None);
    if decimal(n) == "_"@ {
        assert(decimal(n)[0] == '_');
    }
}

/// Text in canonical decimal that reads as a number reads as the number it
/// spells.
pub proof fn lemma_parse_decimal_exact(n: nat, max: nat)
    requires
        parse_uint_spec(decimal(n), max) is Ok,
    ensures
        n <= max,
        parse_uint_spec(decimal(n), max) == Ok::<nat, IntError>(n),
{
    let big: nat = if n <= max {
        max
    } else {
        n
    };
    decimal_round_trip(n, big);
    lemma_decimal_first_digit(n);
    if decimal(n)[0] == '+' {
        assert(digit_value('+') is None);
    }
    lemma_scan_digits_mono(decimal(n), 0, max, big);
    lemma_parse_uint_bound(decimal(n), max);
}

} // verus!
