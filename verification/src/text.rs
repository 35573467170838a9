//! Text: cutting, trimming, decimal numbers.
//!
//! A string stands for its sequence of characters. The executable functions
//! work on that sequence and agree with the functions of the same names in the
//! standard library.
use vstd::prelude::*;

verus! {

/// The characters of a string, in order.
pub fn chars_of(s: &str) -> (chars: Vec<char>)
    ensures
        chars@ == s@,
{
    let mut chars: Vec<char> = Vec::new();
    for c in it: s.chars()
        invariant
            chars@ == s@.take(it.index()),
            it.seq() == s@,
    {
        proof {
            assert(s@.take(it.index() + 1) =~= s@.take(it.index()).push(s@[it.index()]));
        }
        chars.push(c);
    }
    proof {
        assert(s@.take(s@.len() as int) =~= s@);
    }
    chars
}

/// The string with the given characters.
///
/// Trusted: calls `String::from_iter` on the characters, which collects them
/// in order.
#[verifier::external_body]
pub(crate) fn string_from_chars(chars: &[char]) -> (s: String)
    ensures
        s@ == chars@,
{
    String::from_iter(chars)
}

/// The part `s[from..to]`, counted in characters.
pub fn slice_of(chars: &Vec<char>, from: usize, to: usize) -> (s: String)
    requires
        from <= to <= chars@.len(),
    ensures
        s@ == chars@.subrange(from as int, to as int),
{
    let mut part: Vec<char> = Vec::new();
    let mut i: usize = from;
    while i < to
        invariant
            from <= i <= to <= chars@.len(),
            part@ == chars@.subrange(from as int, i as int),
        decreases to - i,
    {
        part.push(chars[i]);
        i += 1;
        assert(chars@.subrange(from as int, i as int) =~= chars@.subrange(
            from as int,
            i - 1,
        ).push(chars@[i - 1]));
    }
    string_from_chars(part.as_slice())
}

/// Whether two strings hold the same characters.
pub fn str_eq(a: &str, b: &str) -> (same: bool)
    ensures
        same == (a@ == b@),
{
    a.to_owned() == b.to_owned()
}

/// `prefix` followed by `rest`.
pub fn concat(a: &str, b: &str) -> (s: String)
    ensures
        s@ == a@ + b@,
{
    let mut s = a.to_owned();
    s.append(b);
    s
}

/// The views of a sequence of strings.
pub open spec fn views(strings: Seq<String>) -> Seq<Seq<char>> {
    Seq::new(strings.len(), |i: int| strings[i]@)
}

/// `views` of a longer sequence.
pub proof fn lemma_views_push(strings: Seq<String>, s: String)
    ensures
        views(strings.push(s)) == views(strings).push(s@),
{
    assert(views(strings.push(s)) =~= views(strings).push(s@));
}

/// Character of a decimal digit.
pub open spec fn digit_char(d: nat) -> char {
    (48 + d) as char
}

/// `n` in decimal.
pub open spec fn dec(n: nat) -> Seq<char>
    decreases n,
{
    if n < 10 {
        seq![digit_char(n)]
    } else {
        dec(n / 10).push(digit_char(n % 10))
    }
}

/// `i` in decimal, with a sign where it is negative.
pub open spec fn dec_int(i: int) -> Seq<char> {
    if i < 0 {
        seq!['-'] + dec((-i) as nat)
    } else {
        dec(i as nat)
    }
}

fn dec_chars(n: u64) -> (chars: Vec<char>)
    ensures
        chars@ == dec(n as nat),
    decreases n,
{
    if n < 10 {
        vec![(48u8 + (n as u8)) as char]
    } else {
        let mut chars = dec_chars(n / 10);
        chars.push((48u8 + ((n % 10) as u8)) as char);
        chars
    }
}

/// `n` in decimal.
pub fn dec_u64(n: u64) -> (s: String)
    ensures
        s@ == dec(n as nat),
{
    string_from_chars(dec_chars(n).as_slice())
}

/// `n` in decimal.
pub fn dec_usize(n: usize) -> (s: String)
    ensures
        s@ == dec(n as nat),
{
    dec_u64(n as u64)
}

/// `i` in decimal, with a sign where it is negative.
pub fn dec_i64(i: i64) -> (s: String)
    ensures
        s@ == dec_int(i as int),
{
    if i < 0 {
        let digits = dec_u64((-(i as i128)) as u64);
        proof {
            reveal_strlit("-");
            assert("-"@ =~= seq!['-']);
        }
        concat("-", digits.as_str())
    } else {
        dec_u64(i as u64)
    }
}

/// A decimal digit.
pub open spec fn is_digit(c: char) -> bool {
    '0' <= c <= '9'
}

/// Why a text is no number of the wanted width.
#[derive(Debug, Clone, Copy, PartialEq, Eq, Structural)]
pub enum IntFault {
    /// Nothing there.
    Empty,
    /// A character that is no digit.
    InvalidDigit,
    /// Too large.
    PosOverflow,
}

/// Words for an [`IntFault`].
pub open spec fn fault_text(fault: IntFault) -> Seq<char> {
    match fault {
        IntFault::Empty => "cannot parse integer from empty string"@,
        IntFault::InvalidDigit => "invalid digit found in string"@,
        IntFault::PosOverflow => "number too large to fit in target type"@,
    }
}

impl IntFault {
    /// Words for the fault.
    pub fn message(&self) -> (text: &'static str)
        ensures
            text@ == fault_text(*self),
    {
        match self {
            IntFault::Empty => "cannot parse integer from empty string",
            IntFault::InvalidDigit => "invalid digit found in string",
            IntFault::PosOverflow => "number too large to fit in target type",
        }
    }
}

/// Value of a run of digits, read from the left up to the first character that
/// is no digit or takes the value over `max`.
pub open spec fn digits_value(digits: Seq<char>, max: nat) -> Result<nat, IntFault>
    decreases digits.len(),
{
    if digits.len() == 0 {
        Ok(0)
    } else {
        match digits_value(digits.drop_last(), max) {
            Err(fault) => Err(fault),
            Ok(v) => {
                let c = digits.last();
                if !is_digit(c) {
                    Err(IntFault::InvalidDigit)
                } else if 10 * v + (c as nat - 48) > max {
                    Err(IntFault::PosOverflow)
                } else {
                    Ok((10 * v + (c as nat - 48)) as nat)
                }
            },
        }
    }
}

/// The number that a text denotes: digits, with a `+` in front if need be.
pub open spec fn parse_uint(s: Seq<char>, max: nat) -> Result<nat, IntFault> {
    if s.len() == 0 {
        Err(IntFault::Empty)
    } else if s.len() == 1 && (s[0] == '+' || s[0] == '-') {
        Err(IntFault::InvalidDigit)
    } else if s[0] == '+' {
        digits_value(s.subrange(1, s.len() as int), max)
    } else {
        digits_value(s, max)
    }
}

/// Once reading has failed it stays failed.
proof fn lemma_fault_sticks(digits: Seq<char>, n: int, max: nat)
    requires
        0 <= n <= digits.len(),
        digits_value(digits.subrange(0, n), max) is Err,
    ensures
        digits_value(digits, max) == digits_value(digits.subrange(0, n), max),
    decreases digits.len() - n,
{
    if n == digits.len() {
        assert(digits.subrange(0, n) =~= digits);
    } else {
        assert(digits.subrange(0, n + 1).drop_last() =~= digits.subrange(0, n));
        lemma_fault_sticks(digits, n + 1, max);
    }
}

fn parse_below(s: &str, max: u64) -> (r: Result<u64, IntFault>)
    ensures
        match (r, parse_uint(s@, max as nat)) {
            (Ok(n), Ok(v)) => n == v,
            (Err(e), Err(f)) => e == f,
            _ => false,
        },
{
    let chars = chars_of(s);
    if chars.len() == 0 {
        return Err(IntFault::Empty);
    }
    if chars.len() == 1 && (chars[0] == '+' || chars[0] == '-') {
        return Err(IntFault::InvalidDigit);
    }
    let from: usize = if chars[0] == '+' { 1 } else { 0 };
    let ghost digits = s@.subrange(from as int, s@.len() as int);
    let mut i: usize = from;
    let mut value: u64 = 0;
    assert(s@.subrange(0, s@.len() as int) =~= s@);
    assert(digits.subrange(0, 0) =~= Seq::empty());
    while i < chars.len()
        invariant
            from <= i <= chars.len(),
            from <= 1,
            chars@ == s@,
            digits == s@.subrange(from as int, s@.len() as int),
            digits_value(digits.subrange(0, i - from), max as nat) == Ok::<nat, IntFault>(
                value as nat,
            ),
            value <= max,
            parse_uint(s@, max as nat) == digits_value(digits, max as nat),
        decreases chars.len() - i,
    {
        let c: char = chars[i];
        proof {
            let next = digits.subrange(0, i - from + 1);
            assert(next.drop_last() =~= digits.subrange(0, i - from));
            assert(next.last() == c);
            if digits_value(next, max as nat) is Err {
                lemma_fault_sticks(digits, i - from + 1, max as nat);
            }
        }
        if !('0' <= c && c <= '9') {
            return Err(IntFault::InvalidDigit);
        }
        let wide: u128 = 10 * (value as u128) + ((c as u32 - 48) as u128);
        if wide > max as u128 {
            return Err(IntFault::PosOverflow);
        }
        value = wide as u64;
        i += 1;
    }
    assert(digits.subrange(0, i - from) =~= digits);
    Ok(value)
}

/// Reads a `u64`, as `str::parse` does.
pub fn parse_u64(s: &str) -> (r: Result<u64, IntFault>)
    ensures
        match (r, parse_uint(s@, u64::MAX as nat)) {
            (Ok(n), Ok(v)) => n == v,
            (Err(e), Err(f)) => e == f,
            _ => false,
        },
{
    parse_below(s, u64::MAX)
}

/// Reads a `usize`, as `str::parse` does.
pub fn parse_usize(s: &str) -> (r: Result<usize, IntFault>)
    ensures
        match (r, parse_uint(s@, usize::MAX as nat)) {
            (Ok(n), Ok(v)) => n == v,
            (Err(e), Err(f)) => e == f,
            _ => false,
        },
{
    match parse_below(s, usize::MAX as u64) {
        Ok(n) => Ok(n as usize),
        Err(e) => Err(e),
    }
}

/// Reads a `u32`, as `str::parse` does.
pub fn parse_u32(s: &str) -> (r: Result<u32, IntFault>)
    ensures
        match (r, parse_uint(s@, u32::MAX as nat)) {
            (Ok(n), Ok(v)) => n == v,
            (Err(e), Err(f)) => e == f,
            _ => false,
        },
{
    match parse_below(s, u32::MAX as u64) {
        Ok(n) => Ok(n as u32),
        Err(e) => Err(e),
    }
}

/// The 32-bit number that a text denotes, if it denotes one: digits, with a `+`
/// or a `-` in front if need be.
pub open spec fn signed_number(s: Seq<char>) -> Option<i32> {
    if s.len() > 1 && s[0] == '-' {
        match digits_value(s.subrange(1, s.len() as int), 0x8000_0000) {
            Ok(n) => Some((-(n as int)) as i32),
            Err(_) => None,
        }
    } else {
        match parse_uint(s, i32::MAX as nat) {
            Ok(n) => Some(n as i32),
            Err(_) => None,
        }
    }
}

/// Reads an `i32`, as `str::parse` does.
pub fn parse_i32(s: &str) -> (r: Option<i32>)
    ensures
        r == signed_number(s@),
{
    let chars = chars_of(s);
    if chars.len() > 1 && chars[0] == '-' {
        let digits = slice_of(&chars, 1, chars.len());
        proof {
            let d = digits@.subrange(0, 1);
            assert(d.drop_last() =~= Seq::empty());
            assert(d.last() == digits@[0]);
            reveal_with_fuel(digits_value, 2);
            if digits_value(d, 0x8000_0000) is Err {
                lemma_fault_sticks(digits@, 1, 0x8000_0000);
            }
        }
        if chars[1] == '+' {
            return None;
        }
        match parse_below(digits.as_str(), 0x8000_0000) {
            Ok(n) => Some((-(n as i64)) as i32),
            Err(_) => None,
        }
    } else {
        match parse_below(s, i32::MAX as u64) {
            Ok(n) => Some(n as i32),
            Err(_) => None,
        }
    }
}

/// A character with the Unicode property `White_Space`.
pub open spec fn is_white(c: char) -> bool {
    ||| '\u{9}' <= c <= '\u{d}'
    ||| c == '\u{20}'
    ||| c == '\u{85}'
    ||| c == '\u{a0}'
    ||| c == '\u{1680}'
    ||| '\u{2000}' <= c <= '\u{200a}'
    ||| c == '\u{2028}'
    ||| c == '\u{2029}'
    ||| c == '\u{202f}'
    ||| c == '\u{205f}'
    ||| c == '\u{3000}'
}

fn white(c: char) -> (r: bool)
    ensures
        r == is_white(c),
{
    ('\u{9}' <= c && c <= '\u{d}') || c == '\u{20}' || c == '\u{85}' || c == '\u{a0}' || c
        == '\u{1680}' || ('\u{2000}' <= c && c <= '\u{200a}') || c == '\u{2028}' || c == '\u{2029}'
        || c == '\u{202f}' || c == '\u{205f}' || c == '\u{3000}'
}

/// `s` without the white space in front.
pub open spec fn trim_start(s: Seq<char>) -> Seq<char>
    decreases s.len(),
{
    if s.len() > 0 && is_white(s[0]) {
        trim_start(s.subrange(1, s.len() as int))
    } else {
        s
    }
}

/// `s` without the white space at the end.
pub open spec fn trim_end(s: Seq<char>) -> Seq<char>
    decreases s.len(),
{
    if s.len() > 0 && is_white(s.last()) {
        trim_end(s.drop_last())
    } else {
        s
    }
}

/// `s` without the white space on either side.
pub open spec fn trimmed(s: Seq<char>) -> Seq<char> {
    trim_end(trim_start(s))
}

/// `s` without the white space on either side.
pub fn trim(s: &str) -> (t: String)
    ensures
        t@ == trimmed(s@),
{
    let chars = chars_of(s);
    let mut from: usize = 0;
    assert(s@.subrange(0, s@.len() as int) =~= s@);
    while from < chars.len() && white(chars[from])
        invariant
            chars@ == s@,
            from <= chars.len(),
            trim_start(s@) == trim_start(s@.subrange(from as int, s@.len() as int)),
        decreases chars.len() - from,
    {
        assert(s@.subrange(from as int, s@.len() as int).subrange(1, s@.len() - from)
            =~= s@.subrange(from + 1, s@.len() as int));
        from += 1;
    }
    let mut to: usize = chars.len();
    let ghost rest = s@.subrange(from as int, s@.len() as int);
    assert(rest == trim_start(s@));
    while from < to && white(chars[to - 1])
        invariant
            chars@ == s@,
            from <= to <= chars.len(),
            rest == trim_start(s@),
            trim_end(rest) == trim_end(s@.subrange(from as int, to as int)),
        decreases to,
    {
        assert(s@.subrange(from as int, to as int).drop_last() =~= s@.subrange(
            from as int,
            to - 1,
        ));
        to -= 1;
    }
    slice_of(&chars, from, to)
}

/// The pieces of `s` between the separators, in order: one more than there are
/// separators.
pub open spec fn split_on(s: Seq<char>, sep: char) -> Seq<Seq<char>>
    decreases s.len(),
{
    if s.len() == 0 {
        seq![Seq::empty()]
    } else {
        let before = split_on(s.drop_last(), sep);
        if s.last() == sep {
            before.push(Seq::empty())
        } else {
            before.drop_last().push(before.last().push(s.last()))
        }
    }
}

/// Cuts a string at each separator.
pub fn split(s: &str, sep: char) -> (pieces: Vec<String>)
    ensures
        views(pieces@) == split_on(s@, sep),
        pieces@.len() > 0,
{
    let chars = chars_of(s);
    let mut pieces: Vec<String> = Vec::new();
    let mut from: usize = 0;
    let mut i: usize = 0;
    proof {
        assert(s@.subrange(0, 0) =~= Seq::empty());
        assert(views(pieces@).push(s@.subrange(0, 0)) =~= split_on(s@.subrange(0, 0), sep));
    }
    while i < chars.len()
        invariant
            chars@ == s@,
            from <= i <= chars.len(),
            split_on(s@.subrange(0, i as int), sep) == views(pieces@).push(
                s@.subrange(from as int, i as int),
            ),
        decreases chars.len() - i,
    {
        let ghost seen = s@.subrange(0, i + 1);
        let ghost earlier = views(pieces@);
        assert(seen.drop_last() =~= s@.subrange(0, i as int));
        assert(seen.last() == s@[i as int]);
        if chars[i] == sep {
            pieces.push(slice_of(&chars, from, i));
            from = i + 1;
            proof {
                assert(views(pieces@) =~= earlier.push(pieces@.last()@));
                assert(s@.subrange(from as int, i + 1) =~= Seq::empty());
            }
        } else {
            proof {
                assert(earlier.push(s@.subrange(from as int, i as int)).drop_last() =~= earlier);
                assert(s@.subrange(from as int, i + 1) =~= s@.subrange(from as int, i as int).push(
                    s@[i as int],
                ));
            }
        }
        i += 1;
    }
    let ghost earlier = views(pieces@);
    pieces.push(slice_of(&chars, from, i));
    proof {
        assert(s@.subrange(0, i as int) =~= s@);
        assert(views(pieces@) =~= earlier.push(s@.subrange(from as int, i as int)));
    }
    pieces
}

/// The pieces of `s` between the line ends `\r\n`, in order.
pub open spec fn split_crlf(s: Seq<char>) -> Seq<Seq<char>>
    decreases s.len(),
{
    if s.len() == 0 {
        seq![Seq::empty()]
    } else {
        let before = split_crlf(s.drop_last());
        let piece = before.last();
        if s.last() == '\n' && piece.len() > 0 && piece.last() == '\r' {
            before.drop_last().push(piece.drop_last()).push(Seq::empty())
        } else {
            before.drop_last().push(piece.push(s.last()))
        }
    }
}

/// Cuts a string at each `\r\n`.
pub fn split_at_crlf(s: &str) -> (pieces: Vec<String>)
    ensures
        views(pieces@) == split_crlf(s@),
        pieces@.len() > 0,
{
    let chars = chars_of(s);
    let mut pieces: Vec<String> = Vec::new();
    let mut from: usize = 0;
    let mut i: usize = 0;
    proof {
        assert(s@.subrange(0, 0) =~= Seq::empty());
        assert(views(pieces@).push(s@.subrange(0, 0)) =~= split_crlf(s@.subrange(0, 0)));
    }
    while i < chars.len()
        invariant
            chars@ == s@,
            from <= i <= chars.len(),
            split_crlf(s@.subrange(0, i as int)) == views(pieces@).push(
                s@.subrange(from as int, i as int),
            ),
        decreases chars.len() - i,
    {
        let ghost seen = s@.subrange(0, i + 1);
        let ghost earlier = views(pieces@);
        let ghost piece = s@.subrange(from as int, i as int);
        assert(seen.drop_last() =~= s@.subrange(0, i as int));
        assert(seen.last() == s@[i as int]);
        assert(earlier.push(piece).drop_last() =~= earlier);
        if chars[i] == '\n' && from < i && chars[i - 1] == '\r' {
            pieces.push(slice_of(&chars, from, i - 1));
            from = i + 1;
            proof {
                assert(piece.drop_last() =~= pieces@.last()@);
                assert(views(pieces@) =~= earlier.push(pieces@.last()@));
                assert(s@.subrange(from as int, i + 1) =~= Seq::empty());
            }
        } else {
            assert(s@.subrange(from as int, i + 1) =~= piece.push(s@[i as int]));
        }
        i += 1;
    }
    let ghost earlier = views(pieces@);
    pieces.push(slice_of(&chars, from, i));
    proof {
        assert(s@.subrange(0, i as int) =~= s@);
        assert(views(pieces@) =~= earlier.push(s@.subrange(from as int, i as int)));
    }
    pieces
}

/// `line` without a carriage return at its end.
pub open spec fn without_cr(line: Seq<char>) -> Seq<char> {
    if line.len() > 0 && line.last() == '\r' {
        line.drop_last()
    } else {
        line
    }
}

/// The lines of `s`: each ends in `\n` or `\r\n`, which is not part of it;
/// the last may lack its end.
pub open spec fn lines_of(s: Seq<char>) -> Seq<Seq<char>> {
    let pieces = split_on(s, '\n');
    let ended = Seq::new((pieces.len() - 1) as nat, |i: int| without_cr(pieces[i]));
    if pieces.last().len() == 0 {
        ended
    } else {
        ended.push(pieces.last())
    }
}

fn drop_cr(line: &str) -> (r: String)
    ensures
        r@ == without_cr(line@),
{
    let chars = chars_of(line);
    if chars.len() > 0 && chars[chars.len() - 1] == '\r' {
        let r = slice_of(&chars, 0, chars.len() - 1);
        assert(r@ =~= line@.drop_last());
        r
    } else {
        line.to_owned()
    }
}

/// The lines of a string.
pub fn lines(s: &str) -> (r: Vec<String>)
    ensures
        views(r@) == lines_of(s@),
{
    let pieces = split(s, '\n');
    let mut r: Vec<String> = Vec::new();
    let mut i: usize = 0;
    let ghost cut = split_on(s@, '\n');
    let ghost ended = Seq::new((cut.len() - 1) as nat, |i: int| without_cr(cut[i]));
    while i + 1 < pieces.len()
        invariant
            i + 1 <= pieces.len(),
            cut == views(pieces@),
            ended == Seq::new((cut.len() - 1) as nat, |i: int| without_cr(cut[i])),
            views(r@) == ended.subrange(0, i as int),
        decreases pieces.len() - i,
    {
        let ghost earlier = r@;
        r.push(drop_cr(pieces[i].as_str()));
        i += 1;
        proof {
            lemma_views_push(earlier, r@.last());
            assert(r@ =~= earlier.push(r@.last()));
            assert(ended.subrange(0, i as int) =~= ended.subrange(0, i - 1).push(ended[i - 1]));
        }
    }
    proof {
        assert(ended.subrange(0, i as int) =~= ended);
        assert(cut.last() == pieces@.last()@);
    }
    let last: &String = &pieces[i];
    if !last.as_str().is_empty() {
        let ghost earlier = r@;
        r.push(last.clone());
        proof {
            lemma_views_push(earlier, r@.last());
            assert(r@ =~= earlier.push(r@.last()));
        }
    }
    r
}

/// Whether `s` begins with `prefix`.
pub open spec fn has_prefix(s: Seq<char>, prefix: Seq<char>) -> bool {
    prefix.len() <= s.len() && s.subrange(0, prefix.len() as int) == prefix
}

/// What follows `prefix` in `s`, where `s` begins with it.
pub open spec fn stripped_prefix(s: Seq<char>, prefix: Seq<char>) -> Option<Seq<char>> {
    if has_prefix(s, prefix) {
        Some(s.subrange(prefix.len() as int, s.len() as int))
    } else {
        None
    }
}

/// The view of an optional string.
pub open spec fn opt_view(s: Option<String>) -> Option<Seq<char>> {
    match s {
        Some(t) => Some(t@),
        None => None,
    }
}

/// The view of an optional string slice.
pub open spec fn opt_str_view(s: Option<&str>) -> Option<Seq<char>> {
    match s {
        Some(t) => Some(t@),
        None => None,
    }
}

/// What follows `prefix` in `s`, where `s` begins with it.
pub fn strip_prefix(s: &str, prefix: &str) -> (rest: Option<String>)
    ensures
        opt_view(rest) == stripped_prefix(s@, prefix@),
{
    let chars = chars_of(s);
    let wanted = chars_of(prefix);
    if wanted.len() > chars.len() {
        return None;
    }
    let mut i: usize = 0;
    while i < wanted.len()
        invariant
            chars@ == s@,
            wanted@ == prefix@,
            i <= wanted.len() <= chars.len(),
            s@.subrange(0, i as int) == prefix@.subrange(0, i as int),
        decreases wanted.len() - i,
    {
        if chars[i] != wanted[i] {
            proof {
                assert(s@.subrange(0, prefix@.len() as int)[i as int] != prefix@[i as int]);
            }
            return None;
        }
        i += 1;
        proof {
            assert(s@.subrange(0, i as int) =~= s@.subrange(0, i - 1).push(s@[i - 1]));
            assert(prefix@.subrange(0, i as int) =~= prefix@.subrange(0, i - 1).push(
                prefix@[i - 1],
            ));
        }
    }
    assert(prefix@.subrange(0, i as int) =~= prefix@);
    Some(slice_of(&chars, wanted.len(), chars.len()))
}

/// Whether `s` begins with `prefix`.
pub fn starts_with(s: &str, prefix: &str) -> (r: bool)
    ensures
        r == has_prefix(s@, prefix@),
{
    strip_prefix(s, prefix).is_some()
}

/// A character with an ASCII capital turned into its small letter.
pub open spec fn lower_char(c: char) -> char {
    if 'A' <= c <= 'Z' {
        (c as nat + 32) as char
    } else {
        c
    }
}

/// `s` with its ASCII capitals turned into small letters.
pub open spec fn lowered(s: Seq<char>) -> Seq<char> {
    Seq::new(s.len(), |i: int| lower_char(s[i]))
}

/// `s` with its ASCII capitals turned into small letters.
pub fn to_ascii_lowercase(s: &str) -> (r: String)
    ensures
        r@ == lowered(s@),
{
    let chars = chars_of(s);
    let mut out: Vec<char> = Vec::new();
    let mut i: usize = 0;
    while i < chars.len()
        invariant
            chars@ == s@,
            i <= chars.len(),
            out@ == lowered(s@).subrange(0, i as int),
        decreases chars.len() - i,
    {
        let c: char = chars[i];
        let small: char = if 'A' <= c && c <= 'Z' { ((c as u8) + 32) as char } else { c };
        out.push(small);
        i += 1;
        assert(lowered(s@).subrange(0, i as int) =~= lowered(s@).subrange(0, i - 1).push(
            lower_char(s@[i - 1]),
        ));
    }
    assert(lowered(s@).subrange(0, i as int) =~= lowered(s@));
    string_from_chars(out.as_slice())
}

/// The strings in order, with `sep` between each and the next.
pub open spec fn joined(strings: Seq<Seq<char>>, sep: Seq<char>) -> Seq<char>
    decreases strings.len(),
{
    if strings.len() == 0 {
        Seq::empty()
    } else if strings.len() == 1 {
        strings[0]
    } else {
        joined(strings.drop_last(), sep) + sep + strings.last()
    }
}

/// Joins the first `n` strings with `sep` between them.
pub fn join_first(strings: &Vec<String>, n: usize, sep: &str) -> (s: String)
    ensures
        s@ == joined(
            views(strings@).subrange(
                0,
                if n < strings@.len() {
                    n as int
                } else {
                    strings@.len() as int
                },
            ),
            sep@,
        ),
{
    let end: usize = if n < strings.len() { n } else { strings.len() };
    let mut s = String::new();
    let mut i: usize = 0;
    while i < end
        invariant
            i <= end <= strings@.len(),
            s@ == joined(views(strings@).subrange(0, i as int), sep@),
        decreases end - i,
    {
        if i > 0 {
            s.append(sep);
        }
        s.append(strings[i].as_str());
        i += 1;
        proof {
            let upto = views(strings@).subrange(0, i as int);
            assert(upto.drop_last() =~= views(strings@).subrange(0, i - 1));
            assert(upto.last() == strings@[i - 1]@);
            if i == 1 {
                assert(Seq::<char>::empty() + strings@[0]@ =~= strings@[0]@);
            }
        }
    }
    s
}

/// Borrows a string that may be missing.
pub fn borrowed<'a>(s: &'a Option<String>) -> (r: Option<&'a str>)
    ensures
        opt_str_view(r) == opt_view(*s),
{
    match s {
        Some(t) => Some(t.as_str()),
        None => None,
    }
}

/// A string in quotation marks, with escapes, as `{:?}` shows it.
pub uninterp spec fn quoted(s: Seq<char>) -> Seq<char>;

/// A string in quotation marks.
///
/// Trusted: `Debug` of `str`. The contract names the text; it does not say which
/// characters are escaped.
#[verifier::external_body]
pub(crate) fn quote(s: &str) -> (r: String)
    ensures
        r@ == quoted(s@),
{
    format!("{:?}", s)
}

/// The text that bytes encode, where they are UTF-8.
///
/// Trusted: `std::str::from_utf8`, which accepts exactly the valid UTF-8 bytes
/// and returns a view of the same bytes.
#[verifier::external_body]
fn utf8_text(bytes: &[u8]) -> (r: Option<&str>)
    ensures
        match r {
            Some(s) => vstd::utf8::encode_utf8(s@) == bytes@,
            None => !vstd::utf8::valid_utf8(bytes@),
        },
{
    std::str::from_utf8(bytes).ok()
}

/// The text that bytes encode, where they are UTF-8.
pub fn text_of_bytes(bytes: &[u8]) -> (r: Option<&str>)
    ensures
        match r {
            Some(s) => vstd::utf8::valid_utf8(bytes@) && s@ == vstd::utf8::decode_utf8(bytes@),
            None => !vstd::utf8::valid_utf8(bytes@),
        },
{
    let r = utf8_text(bytes);
    proof {
        if let Some(s) = r {
            vstd::utf8::encode_utf8_valid_utf8(s@);
            vstd::utf8::encode_utf8_decode_utf8(s@);
        }
    }
    r
}

/// A number in decimal is some digits.
pub proof fn lemma_dec_is_digits(n: nat)
    ensures
        dec(n).len() > 0,
        forall|i: int| 0 <= i < dec(n).len() ==> is_digit(#[trigger] dec(n)[i]),
    decreases n,
{
    if n >= 10 {
        lemma_dec_is_digits(n / 10);
    }
}

/// Reading a number in decimal gives it back.
pub proof fn lemma_parse_dec(n: nat, max: nat)
    requires
        n <= max,
    ensures
        digits_value(dec(n), max) == Ok::<nat, IntFault>(n),
        parse_uint(dec(n), max) == Ok::<nat, IntFault>(n),
    decreases n,
{
    lemma_dec_is_digits(n);
    reveal_with_fuel(digits_value, 2);
    if n >= 10 {
        lemma_parse_dec(n / 10, max);
        assert(dec(n).drop_last() =~= dec(n / 10));
        assert(dec(n).last() == digit_char(n % 10));
    } else {
        assert(dec(n).drop_last() =~= Seq::empty());
        assert(dec(n).last() == digit_char(n));
    }
    assert(is_digit(dec(n)[0]));
}

/// Trimming does nothing to a text that begins and ends with something else
/// than white space.
pub proof fn lemma_trim_nothing(s: Seq<char>)
    requires
        s.len() > 0,
        !is_white(s[0]),
        !is_white(s.last()),
    ensures
        trimmed(s) == s,
{
}

/// What is written of a number is read back as the number.
pub proof fn lemma_signed_dec(n: i32)
    ensures
        signed_number(dec_int(n as int)) == Some(n),
{
    if n < 0 {
        let digits = dec((-(n as int)) as nat);
        lemma_parse_dec((-(n as int)) as nat, 0x8000_0000);
        lemma_dec_is_digits((-(n as int)) as nat);
        assert(dec_int(n as int)[0] == '-');
        assert(dec_int(n as int).subrange(1, dec_int(n as int).len() as int) =~= digits);
    } else {
        lemma_parse_dec(n as nat, i32::MAX as nat);
        lemma_dec_is_digits(n as nat);
        assert(is_digit(dec(n as nat)[0]));
    }
}

/// A prefix that was put in front is stripped again.
pub proof fn lemma_strip_prefix(prefix: Seq<char>, rest: Seq<char>)
    ensures
        stripped_prefix(prefix + rest, prefix) == Some(rest),
{
    assert((prefix + rest).subrange(0, prefix.len() as int) =~= prefix);
    assert((prefix + rest).subrange(prefix.len() as int, (prefix + rest).len() as int) =~= rest);
}

/// What stands before and after the last separator, where there is one.
pub open spec fn split_last(s: Seq<char>, sep: char) -> Option<(Seq<char>, Seq<char>)>
    decreases s.len(),
{
    if s.len() == 0 {
        None
    } else if s.last() == sep {
        Some((s.drop_last(), Seq::empty()))
    } else {
        match split_last(s.drop_last(), sep) {
            Some((before, after)) => Some((before, after.push(s.last()))),
            None => None,
        }
    }
}

proof fn lemma_split_last(s: Seq<char>, sep: char, at: int)
    requires
        -1 <= at < s.len(),
        forall|j: int| at < j < s.len() ==> s[j] != sep,
        at >= 0 ==> s[at] == sep,
    ensures
        at >= 0 ==> split_last(s, sep) == Some(
            (s.subrange(0, at), s.subrange(at + 1, s.len() as int)),
        ),
        at == -1 ==> split_last(s, sep) is None,
    decreases s.len(),
{
    if s.len() > 0 {
        if at == s.len() - 1 {
            assert(s.subrange(0, at) =~= s.drop_last());
            assert(s.subrange(at + 1, s.len() as int) =~= Seq::empty());
        } else {
            let shorter = s.drop_last();
            lemma_split_last(shorter, sep, at);
            if at >= 0 {
                assert(shorter.subrange(0, at) =~= s.subrange(0, at));
                assert(shorter.subrange(at + 1, shorter.len() as int).push(s.last())
                    =~= s.subrange(at + 1, s.len() as int));
            }
        }
    }
}

/// Two parts with a separator between them, the second without one, are cut
/// apart again.
pub proof fn lemma_split_last_join(before: Seq<char>, sep: char, after: Seq<char>)
    requires
        forall|i: int| 0 <= i < after.len() ==> #[trigger] after[i] != sep,
    ensures
        split_last(before + seq![sep] + after, sep) == Some((before, after)),
{
    let s = before + seq![sep] + after;
    let at = before.len() as int;
    assert forall|j: int| at < j < s.len() implies s[j] != sep by {
        assert(s[j] == after[j - at - 1]);
    }
    lemma_split_last(s, sep, at);
    assert(s.subrange(0, at) =~= before);
    assert(s.subrange(at + 1, s.len() as int) =~= after);
}

/// Cuts a text at the last separator, as `str::rsplit_once` does.
pub fn rsplit_once(s: &str, sep: char) -> (r: Option<(String, String)>)
    ensures
        match (r, split_last(s@, sep)) {
            (Some((before, after)), Some(v)) => (before@, after@) == v,
            (None, None) => true,
            _ => false,
        },
{
    let chars = chars_of(s);
    let mut i: usize = chars.len();
    while i > 0
        invariant
            i <= chars@.len(),
            chars@ == s@,
            forall|j: int| i <= j < chars@.len() ==> chars@[j] != sep,
        decreases i,
    {
        i -= 1;
        if chars[i] == sep {
            proof {
                lemma_split_last(s@, sep, i as int);
            }
            return Some((slice_of(&chars, 0, i), slice_of(&chars, i + 1, chars.len())));
        }
    }
    proof {
        lemma_split_last(s@, sep, -1);
    }
    None
}

/// Trimming takes away white space on either side and nothing else: what is left
/// neither begins nor ends with any, and what is taken away is nothing but that.
pub proof fn law_trim_takes_white_space(s: Seq<char>)
    ensures
        trimmed(s).len() > 0 ==> !is_white(trimmed(s)[0]) && !is_white(trimmed(s).last()),
        exists|from: int, to: int|
            #![trigger s.subrange(from, to)]
            0 <= from <= to <= s.len() && trimmed(s) == s.subrange(from, to) && (forall|i: int|
                0 <= i < from || to <= i < s.len() ==> is_white(#[trigger] s[i])),
{
    let rest = trim_start(s);
    lemma_trim_start(s);
    lemma_trim_end(rest);
    let from = s.len() - rest.len();
    let to = from + trim_end(rest).len();
    assert(s.subrange(from, to) =~= trim_end(rest));
    assert forall|i: int| 0 <= i < from || to <= i < s.len() implies is_white(#[trigger] s[i]) by {
        if to <= i {
            assert(rest[i - from] == s[i]);
        }
    }
}

proof fn lemma_trim_start(s: Seq<char>)
    ensures
        trim_start(s).len() <= s.len(),
        trim_start(s) == s.subrange(s.len() - trim_start(s).len(), s.len() as int),
        trim_start(s).len() > 0 ==> !is_white(trim_start(s)[0]),
        forall|i: int| 0 <= i < s.len() - trim_start(s).len() ==> is_white(#[trigger] s[i]),
    decreases s.len(),
{
    if s.len() > 0 && is_white(s[0]) {
        let rest = s.subrange(1, s.len() as int);
        lemma_trim_start(rest);
        assert(trim_start(s) =~= s.subrange(s.len() - trim_start(s).len(), s.len() as int));
        assert forall|i: int| 0 <= i < s.len() - trim_start(s).len() implies is_white(
            #[trigger] s[i],
        ) by {
            if i > 0 {
                assert(rest[i - 1] == s[i]);
            }
        }
    } else {
        assert(s =~= s.subrange(0, s.len() as int));
    }
}

proof fn lemma_trim_end(s: Seq<char>)
    ensures
        trim_end(s).len() <= s.len(),
        trim_end(s) == s.subrange(0, trim_end(s).len() as int),
        trim_end(s).len() > 0 ==> !is_white(trim_end(s).last()) && trim_end(s)[0] == s[0],
        forall|i: int| trim_end(s).len() <= i < s.len() ==> is_white(#[trigger] s[i]),
    decreases s.len(),
{
    if s.len() > 0 && is_white(s.last()) {
        lemma_trim_end(s.drop_last());
        assert(trim_end(s) =~= s.subrange(0, trim_end(s).len() as int));
        assert forall|i: int| trim_end(s).len() <= i < s.len() implies is_white(
            #[trigger] s[i],
        ) by {
            if i < s.len() - 1 {
                assert(s.drop_last()[i] == s[i]);
            }
        }
    } else {
        assert(s =~= s.subrange(0, s.len() as int));
    }
}

/// Cutting at a separator loses nothing: the pieces with the separator between
/// them are the text again, and no piece holds a separator.
pub proof fn law_split_and_join(s: Seq<char>, sep: char)
    ensures
        joined(split_on(s, sep), seq![sep]) == s,
        split_on(s, sep).len() > 0,
        forall|i: int, j: int|
            0 <= i < split_on(s, sep).len() && 0 <= j < split_on(s, sep)[i].len()
                ==> #[trigger] split_on(s, sep)[i][j] != sep,
    decreases s.len(),
{
    if s.len() == 0 {
        assert(s =~= Seq::empty());
    } else {
        let before = split_on(s.drop_last(), sep);
        law_split_and_join(s.drop_last(), sep);
        let pieces = split_on(s, sep);
        if s.last() == sep {
            assert(pieces.drop_last() =~= before);
            assert(joined(pieces, seq![sep]) =~= s.drop_last() + seq![sep] + Seq::empty());
            assert(s.drop_last() + seq![sep] + Seq::<char>::empty() =~= s);
        } else {
            let grown = before.last().push(s.last());
            assert(pieces.drop_last() =~= before.drop_last());
            assert(pieces.last() == grown);
            if before.len() == 1 {
                assert(before[0] == s.drop_last());
                assert(grown =~= s);
                assert(pieces[0] == grown);
            } else {
                let head = joined(before.drop_last(), seq![sep]);
                assert(joined(before, seq![sep]) == head + seq![sep] + before.last());
                assert(joined(pieces, seq![sep]) == head + seq![sep] + grown);
                assert(head + seq![sep] + grown =~= (head + seq![sep] + before.last()).push(
                    s.last(),
                ));
                assert(s.drop_last().push(s.last()) =~= s);
            }
            assert forall|i: int, j: int|
                0 <= i < pieces.len() && 0 <= j < pieces[i].len() implies #[trigger] pieces[i][j]
                != sep by {
                if i < before.len() - 1 {
                    assert(pieces[i] == before[i]);
                    assert(before[i][j] != sep);
                } else if j < before.last().len() {
                    assert(before[before.len() - 1][j] != sep);
                }
            }
        }
    }
}

/// Lines that are written with an end behind each are read back, in order, and
/// so is a last one without an end.
pub proof fn law_lines_are_read_back(lines: Seq<Seq<char>>, last: Seq<char>)
    requires
        forall|i: int, j: int|
            0 <= i < lines.len() && 0 <= j < lines[i].len() ==> #[trigger] lines[i][j] != '\n'
                && lines[i][j] != '\r',
        last.len() > 0,
        forall|j: int| 0 <= j < last.len() ==> #[trigger] last[j] != '\n',
    ensures
        lines_of(written(lines)) == lines,
        lines_of(written(lines) + last) == lines.push(last),
{
    lemma_written_split(lines);
    let pieces = split_on(written(lines), '\n');
    let ended = Seq::new((pieces.len() - 1) as nat, |i: int| without_cr(pieces[i]));
    assert(ended =~= lines) by {
        assert forall|i: int| 0 <= i < lines.len() implies without_cr(#[trigger] lines[i])
            == lines[i] by {
            if lines[i].len() > 0 {
                assert(lines[i][lines[i].len() - 1] != '\r');
            }
        }
    }
    lemma_split_append_plain(written(lines), last);
    let longer = split_on(written(lines) + last, '\n');
    assert(longer.last() =~= last);
    let more = Seq::new((longer.len() - 1) as nat, |i: int| without_cr(longer[i]));
    assert(more =~= ended);
}

/// The text of lines with an end behind each.
pub open spec fn written(lines: Seq<Seq<char>>) -> Seq<char>
    decreases lines.len(),
{
    if lines.len() == 0 {
        Seq::empty()
    } else {
        written(lines.drop_last()) + lines.last() + seq!['\n']
    }
}

proof fn lemma_written_split(lines: Seq<Seq<char>>)
    requires
        forall|i: int, j: int|
            0 <= i < lines.len() && 0 <= j < lines[i].len() ==> #[trigger] lines[i][j] != '\n'
                && lines[i][j] != '\r',
    ensures
        split_on(written(lines), '\n') == lines.push(Seq::empty()),
    decreases lines.len(),
{
    if lines.len() > 0 {
        let before = lines.drop_last();
        let line = lines.last();
        assert(line == lines[lines.len() - 1]);
        assert forall|i: int, j: int|
            0 <= i < before.len() && 0 <= j < before[i].len() implies #[trigger] before[i][j]
            != '\n' && before[i][j] != '\r' by {
            assert(before[i] == lines[i]);
        }
        lemma_written_split(before);
        lemma_split_append_plain(written(before), line);
        let text = written(before) + line;
        assert(split_on(text, '\n') =~= before.push(line)) by {
            assert(before.push(Seq::<char>::empty()).drop_last() =~= before);
            assert(Seq::<char>::empty() + line =~= line);
        }
        assert((text + seq!['\n']).drop_last() =~= text);
        assert((text + seq!['\n']).last() == '\n');
        assert(before.push(line) =~= lines);
    } else {
        assert(lines.push(Seq::<char>::empty()) =~= seq![Seq::<char>::empty()]);
    }
}

proof fn lemma_split_append_plain(s: Seq<char>, rest: Seq<char>)
    requires
        forall|j: int| 0 <= j < rest.len() ==> #[trigger] rest[j] != '\n',
    ensures
        split_on(s, '\n').len() > 0,
        split_on(s + rest, '\n') == split_on(s, '\n').drop_last().push(
            split_on(s, '\n').last() + rest,
        ),
    decreases rest.len(),
{
    law_split_and_join(s, '\n');
    let pieces = split_on(s, '\n');
    if rest.len() == 0 {
        assert(s + rest =~= s);
        assert(pieces.last() + rest =~= pieces.last());
        assert(pieces.drop_last().push(pieces.last()) =~= pieces);
    } else {
        let before = rest.drop_last();
        assert forall|j: int| 0 <= j < before.len() implies #[trigger] before[j] != '\n' by {
            assert(before[j] == rest[j]);
        }
        lemma_split_append_plain(s, before);
        assert((s + rest).drop_last() =~= s + before);
        assert((s + rest).last() == rest[rest.len() - 1]);
        let shorter = split_on(s + before, '\n');
        assert(shorter.drop_last() =~= pieces.drop_last());
        assert(shorter.last() == pieces.last() + before);
        assert((pieces.last() + before).push(rest.last()) =~= pieces.last() + rest);
    }
}

/// A prefix is taken off exactly where it stands in front.
pub proof fn law_prefix_is_taken_off(s: Seq<char>, prefix: Seq<char>)
    ensures
        stripped_prefix(s, prefix) is Some ==> prefix + stripped_prefix(s, prefix)->0 == s,
        has_prefix(s, prefix) <==> stripped_prefix(s, prefix) is Some,
{
    if has_prefix(s, prefix) {
        assert(prefix + s.subrange(prefix.len() as int, s.len() as int) =~= s);
    }
}

/// A number is written with its digits in order, the last for what is left of
/// tens.
pub proof fn law_numbers_are_decimal(n: nat)
    ensures
        n < 10 ==> dec(n) == seq![(48 + n) as char],
        n >= 10 ==> dec(n) == dec(n / 10) + seq![(48 + n % 10) as char],
        dec_int(n as int) == dec(n),
        n > 0 ==> dec_int(-(n as int)) == seq!['-'] + dec(n),
{
    if n >= 10 {
        assert(dec(n / 10).push((48 + n % 10) as char) =~= dec(n / 10) + seq![
            (48 + n % 10) as char,
        ]);
    }
}

/// A text that holds anything but digits, behind a plus in front, is no number,
/// and neither is nothing.
pub proof fn law_only_digits_are_a_number(s: Seq<char>, max: nat, i: int)
    ensures
        parse_uint(Seq::empty(), max) is Err,
        0 <= i < s.len() && !is_digit(s[i]) && !(i == 0 && s[i] == '+') ==> parse_uint(
            s,
            max,
        ) is Err,
        parse_uint(s, max) is Ok ==> parse_uint(s, max)->Ok_0 <= max,
{
    lemma_bounded(s, max);
    if s.len() > 0 {
        lemma_bounded(s.subrange(1, s.len() as int), max);
    }
    if 0 <= i < s.len() && !is_digit(s[i]) && !(i == 0 && s[i] == '+') {
        if s[0] == '+' && s.len() > 1 {
            let rest = s.subrange(1, s.len() as int);
            assert(rest[i - 1] == s[i]);
            lemma_bad_digit(rest, max, i - 1);
        } else {
            lemma_bad_digit(s, max, i);
        }
    }
}

proof fn lemma_bounded(digits: Seq<char>, max: nat)
    ensures
        digits_value(digits, max) is Ok ==> digits_value(digits, max)->Ok_0 <= max,
    decreases digits.len(),
{
    if digits.len() > 0 {
        lemma_bounded(digits.drop_last(), max);
    }
}

proof fn lemma_bad_digit(digits: Seq<char>, max: nat, i: int)
    requires
        0 <= i < digits.len(),
        !is_digit(digits[i]),
    ensures
        digits_value(digits, max) is Err,
    decreases digits.len(),
{
    if i < digits.len() - 1 {
        assert(digits.drop_last()[i] == digits[i]);
        lemma_bad_digit(digits.drop_last(), max, i);
    }
}

/// Capitals become small letters and everything else stays, place by place.
pub proof fn law_lowering_keeps_places(s: Seq<char>, i: int)
    requires
        0 <= i < s.len(),
    ensures
        lowered(s).len() == s.len(),
        'A' <= s[i] <= 'Z' ==> lowered(s)[i] as nat == s[i] as nat + 32,
        !('A' <= s[i] <= 'Z') ==> lowered(s)[i] == s[i],
{
}

/// A text without the separator cannot be cut at its last.
pub proof fn law_no_separator_no_cut(s: Seq<char>, sep: char)
    requires
        forall|i: int| 0 <= i < s.len() ==> #[trigger] s[i] != sep,
    ensures
        split_last(s, sep) is None,
{
    lemma_split_last(s, sep, -1);
}

/// Texts are joined in order with what is between them.
pub proof fn law_joined_in_order(strings: Seq<Seq<char>>, s: Seq<char>, sep: Seq<char>)
    ensures
        joined(Seq::empty(), sep) == Seq::<char>::empty(),
        joined(seq![s], sep) == s,
        strings.len() > 0 ==> joined(strings.push(s), sep) == joined(strings, sep) + sep + s,
{
    assert(strings.push(s).drop_last() =~= strings);
}

/// White space is what Unicode has as such: six characters that ASCII has too, and
/// nineteen more.
pub proof fn law_white_space_is_that_of_unicode(c: char)
    ensures
        is_white(c) <==> {
            ||| c == '\t'
            ||| c == '\n'
            ||| c == '\u{b}'
            ||| c == '\u{c}'
            ||| c == '\r'
            ||| c == ' '
            ||| c == '\u{85}'
            ||| c == '\u{a0}'
            ||| c == '\u{1680}'
            ||| c == '\u{2000}'
            ||| c == '\u{2001}'
            ||| c == '\u{2002}'
            ||| c == '\u{2003}'
            ||| c == '\u{2004}'
            ||| c == '\u{2005}'
            ||| c == '\u{2006}'
            ||| c == '\u{2007}'
            ||| c == '\u{2008}'
            ||| c == '\u{2009}'
            ||| c == '\u{200a}'
            ||| c == '\u{2028}'
            ||| c == '\u{2029}'
            ||| c == '\u{202f}'
            ||| c == '\u{205f}'
            ||| c == '\u{3000}'
        },
{
}

/// A piece in front of a separator is the first piece.
proof fn lemma_first_piece(first: Seq<char>, sep: char, rest: Seq<char>)
    requires
        forall|i: int| 0 <= i < first.len() ==> #[trigger] first[i] != sep,
    ensures
        split_on(first + seq![sep] + rest, sep) == seq![first] + split_on(rest, sep),
        split_on(rest, sep).len() > 0,
    decreases rest.len(),
{
    let whole = first + seq![sep] + rest;
    if rest.len() == 0 {
        lemma_whole_piece(first, sep);
        assert(whole.drop_last() =~= first);
        assert(whole.last() == sep);
        assert(rest =~= Seq::empty());
        assert(seq![first].push(Seq::empty()) =~= seq![first] + seq![Seq::<char>::empty()]);
    } else {
        let shorter = rest.drop_last();
        lemma_first_piece(first, sep, shorter);
        assert(whole.drop_last() =~= first + seq![sep] + shorter);
        assert(whole.last() == rest.last());
        let pieces = split_on(shorter, sep);
        let all = seq![first] + pieces;
        assert(all.last() == pieces.last());
        assert(all.drop_last() =~= seq![first] + pieces.drop_last());
        if rest.last() == sep {
            assert(all.push(Seq::empty()) =~= seq![first] + pieces.push(Seq::empty()));
        } else {
            let grown = pieces.last().push(rest.last());
            assert(all.drop_last().push(grown) =~= seq![first] + pieces.drop_last().push(grown));
        }
    }
}

/// A text without a separator is one piece.
proof fn lemma_whole_piece(s: Seq<char>, sep: char)
    requires
        forall|i: int| 0 <= i < s.len() ==> #[trigger] s[i] != sep,
    ensures
        split_on(s, sep) == seq![s],
    decreases s.len(),
{
    if s.len() > 0 {
        let before = s.drop_last();
        assert forall|i: int| 0 <= i < before.len() implies #[trigger] before[i] != sep by {
            assert(before[i] == s[i]);
        }
        lemma_whole_piece(before, sep);
        assert(s.last() == s[s.len() - 1]);
        assert(before.push(s.last()) =~= s);
        assert(seq![before].drop_last().push(s) =~= seq![s]);
    } else {
        assert(s =~= Seq::empty());
    }
}

/// Lines are read one behind the other: a line that a newline ends is the first, one
/// carriage return in front of the newline is no part of it, and the lines of the
/// rest follow.
pub proof fn law_lines_follow_each_other(line: Seq<char>, rest: Seq<char>)
    requires
        forall|i: int| 0 <= i < line.len() ==> #[trigger] line[i] != '\n',
    ensures
        lines_of(line + seq!['\r'] + seq!['\n'] + rest) == seq![line] + lines_of(rest),
        line.len() == 0 || line.last() != '\r' ==> lines_of(line + seq!['\n'] + rest) == seq![line]
            + lines_of(rest),
{
    lemma_first_line(line, rest);
    let ended = line + seq!['\r'];
    assert forall|i: int| 0 <= i < ended.len() implies #[trigger] ended[i] != '\n' by {
        if i < line.len() {
            assert(ended[i] == line[i]);
        }
    }
    lemma_first_line(ended, rest);
    assert(without_cr(ended) =~= line);
}

proof fn lemma_first_line(line: Seq<char>, rest: Seq<char>)
    requires
        forall|i: int| 0 <= i < line.len() ==> #[trigger] line[i] != '\n',
    ensures
        lines_of(line + seq!['\n'] + rest) == seq![without_cr(line)] + lines_of(rest),
{
    lemma_first_piece(line, '\n', rest);
    let pieces = split_on(rest, '\n');
    let all = seq![line] + pieces;
    let read = Seq::new((pieces.len() - 1) as nat, |i: int| without_cr(pieces[i]));
    let read_all = Seq::new((all.len() - 1) as nat, |i: int| without_cr(all[i]));
    assert(all.last() == pieces.last());
    assert forall|i: int| 0 <= i < read_all.len() implies #[trigger] read_all[i] == (seq![
        without_cr(line),
    ] + read)[i] by {
        if i > 0 {
            assert(all[i] == pieces[i - 1]);
        }
    }
    assert(read_all =~= seq![without_cr(line)] + read);
    assert(read_all.push(all.last()) =~= seq![without_cr(line)] + read.push(pieces.last()));
}

/// Texts are seen as they are, each in its place and none left out.
pub proof fn law_texts_are_seen_in_place(list: Seq<String>, i: int, s: String, t: &str)
    requires
        0 <= i < list.len(),
    ensures
        views(list).len() == list.len(),
        views(list)[i] == list[i]@,
        opt_view(Some(s)) == Some(s@),
        opt_view(None) is None,
        opt_str_view(Some(t)) == Some(t@),
        opt_str_view(None) is None,
{
}

} // verus!
