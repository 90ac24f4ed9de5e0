//! Building the small strings the kernel needs: decimal and hexadecimal
//! numbers, substring search, and text from raw bytes.

use vstd::prelude::*;
use vstd::string::*;
use vstd::utf8::*;

verus! {

/// The character for one digit, in bases up to sixteen, lower case.
pub open spec fn digit_char(d: int) -> char {
    if d == 0 {
        '0'
    } else if d == 1 {
        '1'
    } else if d == 2 {
        '2'
    } else if d == 3 {
        '3'
    } else if d == 4 {
        '4'
    } else if d == 5 {
        '5'
    } else if d == 6 {
        '6'
    } else if d == 7 {
        '7'
    } else if d == 8 {
        '8'
    } else if d == 9 {
        '9'
    } else if d == 10 {
        'a'
    } else if d == 11 {
        'b'
    } else if d == 12 {
        'c'
    } else if d == 13 {
        'd'
    } else if d == 14 {
        'e'
    } else {
        'f'
    }
}

/// The digits of `n` in decimal, most significant first, without padding.
pub open spec fn decimal_digits(n: nat) -> Seq<char>
    decreases n,
{
    if n < 10 {
        seq![digit_char(n as int)]
    } else {
        decimal_digits(n / 10).push(digit_char((n % 10) as int))
    }
}

/// The digits of `n` in lower-case hexadecimal, most significant first,
/// without padding or prefix.
pub open spec fn hex_digits(n: nat) -> Seq<char>
    decreases n,
{
    if n < 16 {
        seq![digit_char(n as int)]
    } else {
        hex_digits(n / 16).push(digit_char((n % 16) as int))
    }
}

/// A byte as exactly two lower-case hexadecimal digits.
pub open spec fn hex_byte(v: u8) -> Seq<char> {
    seq![digit_char(v as int / 16), digit_char(v as int % 16)]
}

/// `needle` occurs in `hay` as a contiguous run of characters.
pub open spec fn contains_text(hay: Seq<char>, needle: Seq<char>) -> bool {
    exists|i: int|
        0 <= i && i + needle.len() <= hay.len() && #[trigger] hay.subrange(
            i,
            i + needle.len(),
        ) == needle
}

/// Appends one digit to `s`.
pub fn push_digit(s: &mut String, d: u8)
    requires
        d < 16,
    ensures
        final(s)@ == old(s)@.push(digit_char(d as int)),
{
    proof {
        reveal_strlit("0");
        reveal_strlit("1");
        reveal_strlit("2");
        reveal_strlit("3");
        reveal_strlit("4");
        reveal_strlit("5");
        reveal_strlit("6");
        reveal_strlit("7");
        reveal_strlit("8");
        reveal_strlit("9");
        reveal_strlit("a");
        reveal_strlit("b");
        reveal_strlit("c");
        reveal_strlit("d");
        reveal_strlit("e");
        reveal_strlit("f");
    }
    let piece: &str = match d {
        0 => "0",
        1 => "1",
        2 => "2",
        3 => "3",
        4 => "4",
        5 => "5",
        6 => "6",
        7 => "7",
        8 => "8",
        9 => "9",
        10 => "a",
        11 => "b",
        12 => "c",
        13 => "d",
        14 => "e",
        _ => "f",
    };
    assert(piece@ =~= seq![digit_char(d as int)]);
    s.append(piece);
    assert(s@ =~= old(s)@.push(digit_char(d as int)));
}

/// Appends `n` in decimal to `s`.
pub fn push_decimal(s: &mut String, n: u64)
    ensures
        final(s)@ == old(s)@ + decimal_digits(n as nat),
    decreases n,
{
    if n >= 10 {
        push_decimal(s, n / 10);
    }
    push_digit(s, (n % 10) as u8);
    assert(s@ =~= old(s)@ + decimal_digits(n as nat));
}

/// Appends `n` in lower-case hexadecimal to `s`, without prefix.
pub fn push_hex(s: &mut String, n: u64)
    ensures
        final(s)@ == old(s)@ + hex_digits(n as nat),
    decreases n,
{
    if n >= 16 {
        push_hex(s, n / 16);
    }
    push_digit(s, (n % 16) as u8);
    assert(s@ =~= old(s)@ + hex_digits(n as nat));
}

/// Appends `v` as two hexadecimal digits to `s`.
pub fn push_hex_byte(s: &mut String, v: u8)
    ensures
        final(s)@ == old(s)@ + hex_byte(v),
{
    push_digit(s, v / 16);
    push_digit(s, v % 16);
    assert(s@ =~= old(s)@ + hex_byte(v));
}

/// Whether `needle` occurs in `hay`.
///
/// Trusted: this is `str::contains` of the standard library with a string
/// pattern, which is documented to return true exactly when the pattern
/// matches a sub-slice of the string.
#[verifier::external_body]
pub(crate) fn text_contains(hay: &str, needle: &str) -> (found: bool)
    ensures
        found == contains_text(hay@, needle@),
{
    hay.contains(needle)
}

/// A text that ends with `tail` contains `tail`.
pub proof fn lemma_contains_suffix(head: Seq<char>, tail: Seq<char>)
    ensures
        contains_text(head + tail, tail),
{
    let whole = head + tail;
    assert(whole.subrange(head.len() as int, (head.len() + tail.len()) as int) =~= tail);
}

/// The text that `bytes` hold, where they are valid UTF-8.
///
/// Trusted: this is `core::str::from_utf8`, which is documented to succeed
/// exactly on valid UTF-8 and then to return the same bytes as a string
/// slice.
#[verifier::external_body]
pub(crate) fn utf8_text(bytes: &[u8]) -> (text: Option<&str>)
    ensures
        text is Some <==> valid_utf8(bytes@),
        text is Some ==> text->Some_0@ == decode_utf8(bytes@),
{
    core::str::from_utf8(bytes).ok()
}

/// A 16-bit number as exactly four lower-case hexadecimal digits.
pub open spec fn hex_word(v: u16) -> Seq<char> {
    hex_byte((v / 0x100) as u8) + hex_byte((v % 0x100) as u8)
}

/// `digits` behind as many spaces as it takes to fill `width` characters.
pub open spec fn right_aligned(digits: Seq<char>, width: nat) -> Seq<char> {
    if digits.len() >= width {
        digits
    } else {
        Seq::new((width - digits.len()) as nat, |i: int| ' ') + digits
    }
}

/// Appends `v` as four hexadecimal digits to `s`.
pub fn push_hex_word(s: &mut String, v: u16)
    ensures
        final(s)@ == old(s)@ + hex_word(v),
{
    push_hex_byte(s, (v / 0x100) as u8);
    push_hex_byte(s, (v % 0x100) as u8);
    assert(s@ =~= old(s)@ + hex_word(v));
}

/// How many decimal digits `n` has.
pub fn decimal_width(n: u64) -> (width: usize)
    ensures
        width == decimal_digits(n as nat).len(),
        1 <= width <= 20,
    decreases n,
{
    if n < 10 {
        1
    } else {
        let rest = decimal_width(n / 10);
        proof {
            lemma_decimal_width_bound(n as nat);
        }
        rest + 1
    }
}

/// A number below two to the 64th has at most twenty decimal digits.
pub proof fn lemma_decimal_width_bound(n: nat)
    requires
        n <= u64::MAX,
    ensures
        decimal_digits(n).len() <= 20,
{
    reveal_with_fuel(decimal_digits, 21);
}

/// Appends `n` in decimal to `s`, behind as many spaces as it takes to
/// fill `width` characters.
pub fn push_decimal_right(s: &mut String, n: u64, width: usize)
    ensures
        final(s)@ == old(s)@ + right_aligned(decimal_digits(n as nat), width as nat),
{
    let digits = decimal_width(n);
    let mut padded: usize = digits;
    while padded < width
        invariant
            digits <= padded,
            padded <= width || padded == digits,
            s@ == old(s)@ + Seq::new((padded - digits) as nat, |i: int| ' '),
        decreases width - padded,
    {
        proof {
            reveal_strlit(" ");
        }
        s.append(" ");
        padded += 1;
        assert(s@ =~= old(s)@ + Seq::new((padded - digits) as nat, |i: int| ' '));
    }
    let ghost before = s@;
    push_decimal(s, n);
    assert(s@ =~= old(s)@ + right_aligned(decimal_digits(n as nat), width as nat));
}

/// Appends the character `c` to `s`.
///
/// Trusted: this is `String::push` of the standard library, which is
/// documented to append the given character to the end of the string.
#[verifier::external_body]
pub(crate) fn push_char(s: &mut String, c: char)
    ensures
        final(s)@ == old(s)@.push(c),
{
    s.push(c);
}

/// The characters `chars` as a string.
pub fn string_of(chars: &Vec<char>) -> (s: String)
    ensures
        s@ == chars@,
{
    let mut s = String::new();
    let mut i: usize = 0;
    while i < chars.len()
        invariant
            i <= chars.len(),
            s@ == chars@.take(i as int),
        decreases chars.len() - i,
    {
        push_char(&mut s, chars[i]);
        i += 1;
        assert(s@ =~= chars@.take(i as int));
    }
    assert(chars@.take(i as int) =~= chars@);
    s
}

} // verus!
