//! Text building shared by the modules: digits, owned strings from
//! characters and from bytes.
use vstd::prelude::*;
use vstd::utf8::{decode_utf8, valid_utf8};

verus! {

/// The lower-case hexadecimal digit of a value below sixteen.
pub open spec fn hex_digit(n: int) -> char {
    if n == 0 { '0' } else if n == 1 { '1' } else if n == 2 { '2' } else if n == 3 { '3' }
    else if n == 4 { '4' } else if n == 5 { '5' } else if n == 6 { '6' } else if n == 7 { '7' }
    else if n == 8 { '8' } else if n == 9 { '9' } else if n == 10 { 'a' } else if n == 11 { 'b' }
    else if n == 12 { 'c' } else if n == 13 { 'd' } else if n == 14 { 'e' } else { 'f' }
}

/// `value` in lower-case hexadecimal, padded with zeros on the left to at
/// least `width` digits.
pub open spec fn hex_text(value: nat, width: nat) -> Seq<char>
    decreases value, width,
{
    if value < 16 && width <= 1 {
        seq![hex_digit(value as int)]
    } else {
        hex_text(value / 16, if width > 0 { (width - 1) as nat } else { 0 })
            + seq![hex_digit((value % 16) as int)]
    }
}

/// The decimal digit of a value below ten.
pub open spec fn decimal_digit(n: int) -> char {
    if n == 0 { '0' } else if n == 1 { '1' } else if n == 2 { '2' } else if n == 3 { '3' }
    else if n == 4 { '4' } else if n == 5 { '5' } else if n == 6 { '6' } else if n == 7 { '7' }
    else if n == 8 { '8' } else { '9' }
}

/// `value` in decimal, without leading zeros.
pub open spec fn decimal_text(value: nat) -> Seq<char>
    decreases value,
{
    if value < 10 {
        seq![decimal_digit(value as int)]
    } else {
        decimal_text(value / 10) + seq![decimal_digit((value % 10) as int)]
    }
}

/// `value` in decimal, with a leading minus sign where it is negative.
pub open spec fn signed_decimal_text(value: int) -> Seq<char> {
    if value < 0 {
        seq!['-'] + decimal_text((-value) as nat)
    } else {
        decimal_text(value as nat)
    }
}

fn hex_digit_of(n: u8) -> (c: char)
    requires
        n < 16,
    ensures
        c == hex_digit(n as int),
{
    if n == 0 { '0' } else if n == 1 { '1' } else if n == 2 { '2' } else if n == 3 { '3' }
    else if n == 4 { '4' } else if n == 5 { '5' } else if n == 6 { '6' } else if n == 7 { '7' }
    else if n == 8 { '8' } else if n == 9 { '9' } else if n == 10 { 'a' } else if n == 11 { 'b' }
    else if n == 12 { 'c' } else if n == 13 { 'd' } else if n == 14 { 'e' } else { 'f' }
}

fn decimal_digit_of(n: u8) -> (c: char)
    requires
        n < 10,
    ensures
        c == decimal_digit(n as int),
{
    if n == 0 { '0' } else if n == 1 { '1' } else if n == 2 { '2' } else if n == 3 { '3' }
    else if n == 4 { '4' } else if n == 5 { '5' } else if n == 6 { '6' } else if n == 7 { '7' }
    else if n == 8 { '8' } else { '9' }
}

/// Appends `value` in hexadecimal, at least `width` digits wide.
pub fn push_hex(out: &mut Vec<char>, value: u64, width: usize)
    ensures
        final(out)@ == old(out)@ + hex_text(value as nat, width as nat),
    decreases value, width,
{
    if value < 16 && width <= 1 {
        out.push(hex_digit_of(value as u8));
    } else {
        push_hex(out, value / 16, if width > 0 { width - 1 } else { 0 });
        out.push(hex_digit_of((value % 16) as u8));
    }
}

/// Appends `value` in decimal.
pub fn push_decimal(out: &mut Vec<char>, value: u64)
    ensures
        final(out)@ == old(out)@ + decimal_text(value as nat),
    decreases value,
{
    if value < 10 {
        out.push(decimal_digit_of(value as u8));
    } else {
        push_decimal(out, value / 10);
        out.push(decimal_digit_of((value % 10) as u8));
    }
}

/// Appends `value` in decimal, with its sign.
pub fn push_signed_decimal(out: &mut Vec<char>, value: i64)
    ensures
        final(out)@ == old(out)@ + signed_decimal_text(value as int),
{
    if value < 0 {
        out.push('-');
        let magnitude: u64 = if value == i64::MIN {
            9223372036854775808u64
        } else {
            (-value) as u64
        };
        push_decimal(out, magnitude);
    } else {
        push_decimal(out, value as u64);
    }
}

/// Appends every character of `more`.
pub fn push_all(out: &mut Vec<char>, more: &Vec<char>)
    ensures
        final(out)@ == old(out)@ + more@,
{
    let mut i: usize = 0;
    while i < more.len()
        invariant
            i <= more.len(),
            out@ == old(out)@ + more@.take(i as int),
        decreases more.len() - i,
    {
        out.push(more[i]);
        i += 1;
    }
    assert(more@.take(more.len() as int) == more@);
}

/// Appends `count` copies of `c`.
pub fn push_repeated(out: &mut Vec<char>, c: char, count: usize)
    ensures
        final(out)@ == old(out)@ + Seq::new(count as nat, |i: int| c),
{
    let mut i: usize = 0;
    while i < count
        invariant
            i <= count,
            out@ == old(out)@ + Seq::new(i as nat, |k: int| c),
        decreases count - i,
    {
        out.push(c);
        i += 1;
    }
}

/// The owned string made of the given characters, by `String::from_iter`
/// of std: the string holds exactly these characters, in this order.
#[verifier::external_body]
pub(crate) fn string_from_chars(chars: &Vec<char>) -> (s: String)
    ensures
        s@ == chars@,
{
    String::from_iter(chars.iter())
}

/// The characters of a string slice, in order.
pub fn chars_of(s: &str) -> (chars: Vec<char>)
    ensures
        chars@ == s@,
{
    let mut chars: Vec<char> = Vec::new();
    for c in it: s.chars()
        invariant
            chars@ == it.history(),
            it.seq() == s@,
    {
        chars.push(c);
    }
    chars
}

/// Strict UTF-8 decoding by `String::from_utf8` of std: `Some` exactly for
/// well-formed UTF-8, and then the text that the bytes encode.
#[verifier::external_body]
pub(crate) fn string_from_utf8(bytes: &Vec<u8>) -> (r: Option<String>)
    ensures
        r is Some <==> valid_utf8(bytes@),
        r is Some ==> r->0@ == decode_utf8(bytes@),
{
    String::from_utf8(bytes.clone()).ok()
}

/// The text that `String::from_utf8_lossy` of std makes of bytes: the
/// text that they encode, with the replacement character in place of
/// every sequence that is not well-formed UTF-8.
pub uninterp spec fn lossy_text(bytes: Seq<u8>) -> Seq<char>;

/// Lossy UTF-8 decoding by `String::from_utf8_lossy` of std.  The result
/// depends on the bytes alone; for well-formed UTF-8 it is the text that
/// the bytes encode, unchanged.
#[verifier::external_body]
pub(crate) fn string_from_utf8_lossy(bytes: &Vec<u8>) -> (s: String)
    ensures
        s@ == lossy_text(bytes@),
        valid_utf8(bytes@) ==> s@ == decode_utf8(bytes@),
{
    String::from_utf8_lossy(bytes.as_slice()).into_owned()
}

} // verus!
