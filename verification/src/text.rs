//! Texts as runs of characters.

use vstd::prelude::*;

verus! {

/// `String::push` of the standard library appends the character to the
/// end of the string.
pub assume_specification[ std::string::String::push ](text: &mut std::string::String, c: char)
    ensures
        final(text)@ == old(text)@.push(c),
;

/// The characters of a text.
pub fn chars_of(text: &str) -> (chars: Vec<char>)
    ensures
        chars@ == text@,
{
    broadcast use vstd::string::axiom_spec_iter;

    let mut chars: Vec<char> = Vec::new();
    for c in iter: text.chars()
        invariant
            chars@ == iter.seq().take(iter.index() as int),
    {
        chars.push(c);
    }
    chars
}

/// Appends the characters of `line` from `from` up to `to` to a text.
pub fn push_chars(text: &mut String, line: &Vec<char>, from: usize, to: usize)
    requires
        from <= to <= line@.len(),
    ensures
        final(text)@ == old(text)@ + line@.subrange(from as int, to as int),
{
    let mut i: usize = from;
    assert(text@ + line@.subrange(from as int, from as int) =~= text@);
    while i < to
        invariant
            from <= i <= to <= line@.len(),
            text@ == old(text)@ + line@.subrange(from as int, i as int),
        decreases to - i,
    {
        text.push(line[i]);
        assert(old(text)@ + line@.subrange(from as int, i + 1) =~= (old(text)@ + line@.subrange(
            from as int,
            i as int,
        )).push(line@[i as int]));
        i += 1;
    }
}

/// The text made of the characters of `line` from `from` up to `to`.
pub fn text_of(line: &Vec<char>, from: usize, to: usize) -> (text: String)
    requires
        from <= to <= line@.len(),
    ensures
        text@ == line@.subrange(from as int, to as int),
{
    let mut text = String::new();
    push_chars(&mut text, line, from, to);
    assert(Seq::<char>::empty() + line@.subrange(from as int, to as int) =~= line@.subrange(
        from as int,
        to as int,
    ));
    text
}

/// Appends one text to another.
pub fn push_text(text: &mut String, more: &str)
    ensures
        final(text)@ == old(text)@ + more@,
{
    let chars = chars_of(more);
    push_chars(text, &chars, 0, chars.len());
    assert(chars@.subrange(0, chars@.len() as int) =~= chars@);
}

/// The character of a decimal digit.
pub open spec fn digit_char(digit: nat) -> char {
    (48 + digit) as char
}

/// A number written in decimal digits, without leading zeros.
pub open spec fn decimal_text(n: nat) -> Seq<char>
    decreases n,
{
    if n < 10 {
        seq![digit_char(n)]
    } else {
        decimal_text(n / 10).push(digit_char(n % 10))
    }
}

/// Appends a number in decimal digits to a text.
pub fn push_decimal(text: &mut String, n: u64)
    ensures
        final(text)@ == old(text)@ + decimal_text(n as nat),
    decreases n,
{
    if n >= 10 {
        push_decimal(text, n / 10);
    }
    let digit: u8 = (n % 10) as u8;
    let c: char = (48 + digit) as char;
    text.push(c);
    assert(final(text)@ =~= old(text)@ + decimal_text(n as nat));
}

/// A whole number written in decimal digits, with a minus sign in front
/// where it is negative.
pub open spec fn signed_text(n: int) -> Seq<char> {
    if n < 0 {
        seq!['-'] + decimal_text((-n) as nat)
    } else {
        decimal_text(n as nat)
    }
}

/// Appends a whole number in decimal digits to a text.
pub fn push_signed(text: &mut String, n: i32)
    ensures
        final(text)@ == old(text)@ + signed_text(n as int),
{
    if n < 0 {
        text.push('-');
        let ghost signed = text@;
        push_decimal(text, (0i64 - n as i64) as u64);
        assert(final(text)@ =~= old(text)@ + signed_text(n as int));
    } else {
        push_decimal(text, n as u64);
    }
}

} // verus!
