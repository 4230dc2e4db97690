//! Cutting a line of chat into tokens.

use crate::decimal::{digits_value, read_digits};
use crate::text::{chars_of, text_of};
use std::collections::VecDeque;
use vstd::prelude::*;

verus! {

/// A piece of a line of chat.
#[derive(Debug, Clone, PartialEq, Eq)]
pub enum Token {
    Integer(i64),
    /// A number written with a decimal point, as it was written. Whether
    /// the text reads as a number is left to whoever reads it as one.
    Float(String),
    /// A text that stood between double quotes.
    String(String),
    UnquotedString(String),
    Boolean(bool),
}

/// A token, with its text as a sequence of characters.
pub enum TokenView {
    Integer(i64),
    Float(Seq<char>),
    String(Seq<char>),
    UnquotedString(Seq<char>),
    Boolean(bool),
}

impl View for Token {
    type V = TokenView;

    open spec fn view(&self) -> TokenView {
        match *self {
            Token::Integer(value) => TokenView::Integer(value),
            Token::Float(text) => TokenView::Float(text@),
            Token::String(text) => TokenView::String(text@),
            Token::UnquotedString(text) => TokenView::UnquotedString(text@),
            Token::Boolean(value) => TokenView::Boolean(value),
        }
    }
}

/// The views of a run of tokens.
pub open spec fn views(tokens: Seq<Token>) -> Seq<TokenView> {
    tokens.map_values(|token: Token| token@)
}

/// Whether a character starts a number: a digit or a decimal point.
pub open spec fn starts_number(c: char) -> bool {
    ('0' <= c && c <= '9') || c == '.'
}

/// Whether a character starts a word: a letter of the English alphabet.
pub open spec fn starts_word(c: char) -> bool {
    ('a' <= c && c <= 'z') || ('A' <= c && c <= 'Z')
}

/// The place of the first space at or after `from`, or the length where
/// there is none. A number or a word runs up to there.
pub open spec fn word_end(line: Seq<char>, from: int) -> int
    decreases line.len() - from,
{
    if from < 0 || from >= line.len() {
        line.len() as int
    } else if line[from] == ' ' {
        from
    } else {
        word_end(line, from + 1)
    }
}

/// The text of a quoted string whose inside starts at `from`: everything
/// up to the next double quote, where a backslash gives way to the
/// character after it, whatever that is. A string that is not closed runs
/// to the end of the line.
pub open spec fn quoted_text(line: Seq<char>, from: int) -> Seq<char>
    decreases line.len() - from,
{
    if from < 0 || from >= line.len() || line[from] == '"' {
        Seq::empty()
    } else if line[from] == '\\' {
        if from + 1 < line.len() {
            seq![line[from + 1]] + quoted_text(line, from + 2)
        } else {
            Seq::empty()
        }
    } else {
        seq![line[from]] + quoted_text(line, from + 1)
    }
}

/// The place after a quoted string whose inside starts at `from`.
pub open spec fn quoted_end(line: Seq<char>, from: int) -> int
    decreases line.len() - from,
{
    if from < 0 || from >= line.len() {
        line.len() as int
    } else if line[from] == '"' {
        from + 1
    } else if line[from] == '\\' {
        if from + 1 < line.len() {
            quoted_end(line, from + 2)
        } else {
            line.len() as int
        }
    } else {
        quoted_end(line, from + 1)
    }
}

/// The bytes of characters that are all ASCII.
pub open spec fn ascii_bytes(text: Seq<char>) -> Seq<u8> {
    text.map_values(|c: char| c as u8)
}

/// Whether every character is a decimal digit.
pub open spec fn only_digits(text: Seq<char>) -> bool {
    forall|i: int| 0 <= i < text.len() ==> '0' <= #[trigger] text[i] && text[i] <= '9'
}

/// The token of a run of characters that starts like a number. With a
/// decimal point in it, it is taken for a number with a fraction. Without
/// one, it is a whole number if it is all digits and fits 64 bits, and a
/// plain text if not.
pub open spec fn number_token(text: Seq<char>) -> TokenView {
    if text.contains('.') {
        TokenView::Float(text)
    } else if text.len() > 0 && only_digits(text) && digits_value(ascii_bytes(text)) <= i64::MAX {
        TokenView::Integer(digits_value(ascii_bytes(text)) as i64)
    } else {
        TokenView::UnquotedString(text)
    }
}

/// The token of a run of characters that starts like a word: one of the
/// two truth values, or a plain text.
pub open spec fn word_token(text: Seq<char>) -> TokenView {
    if text == seq!['t', 'r', 'u', 'e'] {
        TokenView::Boolean(true)
    } else if text == seq!['f', 'a', 'l', 's', 'e'] {
        TokenView::Boolean(false)
    } else {
        TokenView::UnquotedString(text)
    }
}

/// The tokens of a line from `from` on. A double quote opens a quoted
/// string; a digit or a decimal point starts a number and a letter starts
/// a word, each running up to the next space; any other character is
/// passed over.
pub open spec fn tokens_from(line: Seq<char>, from: int) -> Seq<TokenView>
    decreases line.len() - from, 1int,
{
    if from < 0 || from >= line.len() {
        Seq::empty()
    } else if line[from] == '"' {
        seq![TokenView::String(quoted_text(line, from + 1))] + rest_after(
            line,
            from,
            quoted_end(line, from + 1),
        )
    } else if starts_number(line[from]) {
        seq![number_token(line.subrange(from, word_end(line, from + 1)))] + rest_after(
            line,
            from,
            word_end(line, from + 1),
        )
    } else if starts_word(line[from]) {
        seq![word_token(line.subrange(from, word_end(line, from + 1)))] + rest_after(
            line,
            from,
            word_end(line, from + 1),
        )
    } else {
        tokens_from(line, from + 1)
    }
}

/// The tokens from `next` on, which lies after `from`.
pub open spec fn rest_after(line: Seq<char>, from: int, next: int) -> Seq<TokenView>
    decreases line.len() - from, 0int,
{
    if from < next <= line.len() {
        tokens_from(line, next)
    } else {
        Seq::empty()
    }
}

fn find_word_end(line: &Vec<char>, from: usize) -> (end: usize)
    requires
        from <= line@.len(),
    ensures
        end == word_end(line@, from as int),
        from <= end <= line@.len(),
{
    let mut i: usize = from;
    while i < line.len() && line[i] != ' '
        invariant
            from <= i <= line@.len(),
            word_end(line@, from as int) == word_end(line@, i as int),
        decreases line@.len() - i,
    {
        i += 1;
    }
    i
}

fn read_quoted(line: &Vec<char>, from: usize) -> (r: (String, usize))
    requires
        from <= line@.len(),
    ensures
        r.0@ == quoted_text(line@, from as int),
        r.1 == quoted_end(line@, from as int),
        from <= r.1 <= line@.len(),
{
    let mut text = String::new();
    let mut i: usize = from;
    let len: usize = line.len();
    loop
        invariant_except_break
            quoted_text(line@, from as int) == text@ + quoted_text(line@, i as int),
            quoted_end(line@, from as int) == quoted_end(line@, i as int),
        invariant
            from <= i <= len,
            len == line@.len(),
        ensures
            text@ == quoted_text(line@, from as int),
            i == quoted_end(line@, from as int),
            from <= i <= len,
        decreases len - i,
    {
        if i >= len {
            assert(text@ + Seq::<char>::empty() =~= text@);
            break ;
        }
        let c: char = line[i];
        if c == '"' {
            assert(text@ + Seq::<char>::empty() =~= text@);
            i += 1;
            break ;
        }
        if c == '\\' {
            if i + 1 < len {
                let ghost before = text@;
                text.push(line[i + 1]);
                assert(before + (seq![line@[i + 1]] + quoted_text(line@, i + 2)) =~= text@
                    + quoted_text(line@, i + 2));
                i += 2;
            } else {
                assert(text@ + Seq::<char>::empty() =~= text@);
                i = len;
                break ;
            }
        } else {
            let ghost before = text@;
            text.push(c);
            assert(before + (seq![c] + quoted_text(line@, i + 1)) =~= text@ + quoted_text(
                line@,
                i + 1,
            ));
            i += 1;
        }
    }
    (text, i)
}

fn has_point(line: &Vec<char>, from: usize, to: usize) -> (found: bool)
    requires
        from <= to <= line@.len(),
    ensures
        found == line@.subrange(from as int, to as int).contains('.'),
{
    let mut i: usize = from;
    while i < to
        invariant
            from <= i <= to <= line@.len(),
            forall|j: int| from <= j < i ==> line@[j] != '.',
        decreases to - i,
    {
        if line[i] == '.' {
            assert(line@.subrange(from as int, to as int)[i - from] == '.');
            return true;
        }
        i += 1;
    }
    assert forall|j: int| 0 <= j < to - from implies line@.subrange(from as int, to as int)[j]
        != '.' by {
        assert(line@[from + j] != '.');
    }
    false
}

fn whole_number(line: &Vec<char>, from: usize, to: usize) -> (r: Option<i64>)
    requires
        from <= to <= line@.len(),
    ensures
        ({
            let text = line@.subrange(from as int, to as int);
            r == if text.len() > 0 && only_digits(text) && digits_value(ascii_bytes(text))
                <= i64::MAX {
                Some(digits_value(ascii_bytes(text)) as i64)
            } else {
                None
            }
        }),
{
    let ghost text = line@.subrange(from as int, to as int);
    let mut bytes: Vec<u8> = Vec::new();
    let mut i: usize = from;
    while i < to
        invariant
            from <= i <= to <= line@.len(),
            text == line@.subrange(from as int, to as int),
            bytes@ == ascii_bytes(text.subrange(0, i - from)),
            only_digits(text.subrange(0, i - from)),
        decreases to - i,
    {
        let c: char = line[i];
        if !('0' <= c && c <= '9') {
            assert(text[i - from] == c);
            return None;
        }
        bytes.push(c as u8);
        proof {
            let longer = text.subrange(0, i - from + 1);
            assert(longer.drop_last() =~= text.subrange(0, i - from));
            assert(longer.last() == c);
            assert(ascii_bytes(longer) =~= ascii_bytes(text.subrange(0, i - from)).push(c as u8));
            assert forall|j: int| 0 <= j < longer.len() implies '0' <= #[trigger] longer[j]
                && longer[j] <= '9' by {
                if j < i - from {
                    assert(text.subrange(0, i - from)[j] == longer[j]);
                }
            }
        }
        i += 1;
    }
    proof {
        assert(text.subrange(0, to - from) =~= text);
        assert forall|j: int| 0 <= j < bytes@.len() implies crate::decimal::is_digit(
            #[trigger] bytes@[j],
        ) by {
            assert('0' <= text[j] && text[j] <= '9');
        }
    }
    match read_digits(bytes.as_slice(), 0x7fff_ffff_ffff_ffff) {
        Some(value) => Some(value as i64),
        None => None,
    }
}

fn is_word(line: &Vec<char>, from: usize, to: usize, word: &Vec<char>) -> (same: bool)
    requires
        from <= to <= line@.len(),
    ensures
        same == (line@.subrange(from as int, to as int) == word@),
{
    if to - from != word.len() {
        return false;
    }
    let mut i: usize = 0;
    while i < word.len()
        invariant
            from <= to <= line@.len(),
            to - from == word@.len(),
            i <= word@.len(),
            forall|j: int| 0 <= j < i ==> line@[from + j] == word@[j],
        decreases word@.len() - i,
    {
        if line[from + i] != word[i] {
            assert(line@.subrange(from as int, to as int)[i as int] != word@[i as int]);
            return false;
        }
        i += 1;
    }
    assert(line@.subrange(from as int, to as int) =~= word@);
    true
}

/// Cuts a line of chat into its tokens.
pub fn tokenize(input: &str) -> (tokens: VecDeque<Token>)
    ensures
        views(tokens@) == tokens_from(input@, 0),
{
    let line = chars_of(input);
    let yes: Vec<char> = vec!['t', 'r', 'u', 'e'];
    let no: Vec<char> = vec!['f', 'a', 'l', 's', 'e'];
    let mut tokens: VecDeque<Token> = VecDeque::new();
    let mut i: usize = 0;
    assert(views(tokens@) =~= Seq::<TokenView>::empty());
    while i < line.len()
        invariant
            i <= line@.len(),
            line@ == input@,
            yes@ == seq!['t', 'r', 'u', 'e'],
            no@ == seq!['f', 'a', 'l', 's', 'e'],
            tokens_from(line@, 0) == views(tokens@) + tokens_from(line@, i as int),
        decreases line@.len() - i,
    {
        let c: char = line[i];
        let ghost before = views(tokens@);
        if c == '"' {
            let (text, end) = read_quoted(&line, i + 1);
            assert(rest_after(line@, i as int, end as int) == tokens_from(line@, end as int));
            assert(line@[i as int] == '"');
            assert(tokens_from(line@, i as int) == seq![
                TokenView::String(quoted_text(line@, i + 1)),
            ] + rest_after(line@, i as int, quoted_end(line@, i + 1)));
            assert(tokens_from(line@, i as int) == seq![TokenView::String(text@)] + tokens_from(
                line@,
                end as int,
            ));
            tokens.push_back(Token::String(text));
            proof {
                assert(views(tokens@) =~= before.push(TokenView::String(text@)));
                assert(before + (seq![TokenView::String(text@)] + tokens_from(line@, end as int))
                    =~= views(tokens@) + tokens_from(line@, end as int));
            }
            i = end;
        } else if ('0' <= c && c <= '9') || c == '.' {
            let end = find_word_end(&line, i + 1);
            let token = if has_point(&line, i, end) {
                Token::Float(text_of(&line, i, end))
            } else {
                match whole_number(&line, i, end) {
                    Some(value) => Token::Integer(value),
                    None => Token::UnquotedString(text_of(&line, i, end)),
                }
            };
            assert(token@ == number_token(line@.subrange(i as int, end as int)));
            assert(rest_after(line@, i as int, end as int) == tokens_from(line@, end as int));
            assert(starts_number(line@[i as int]));
            assert(tokens_from(line@, i as int) == seq![token@] + tokens_from(line@, end as int));
            tokens.push_back(token);
            proof {
                assert(views(tokens@) =~= before.push(token@));
                assert(before + (seq![token@] + tokens_from(line@, end as int)) =~= views(tokens@)
                    + tokens_from(line@, end as int));
            }
            i = end;
        } else if ('a' <= c && c <= 'z') || ('A' <= c && c <= 'Z') {
            let end = find_word_end(&line, i + 1);
            let token = if is_word(&line, i, end, &yes) {
                Token::Boolean(true)
            } else if is_word(&line, i, end, &no) {
                Token::Boolean(false)
            } else {
                Token::UnquotedString(text_of(&line, i, end))
            };
            assert(token@ == word_token(line@.subrange(i as int, end as int)));
            assert(rest_after(line@, i as int, end as int) == tokens_from(line@, end as int));
            assert(starts_word(line@[i as int]) && !starts_number(line@[i as int]));
            assert(tokens_from(line@, i as int) == seq![token@] + tokens_from(line@, end as int));
            tokens.push_back(token);
            proof {
                assert(views(tokens@) =~= before.push(token@));
                assert(before + (seq![token@] + tokens_from(line@, end as int)) =~= views(tokens@)
                    + tokens_from(line@, end as int));
            }
            i = end;
        } else {
            assert(tokens_from(line@, i as int) == tokens_from(line@, i + 1));
            i += 1;
        }
    }
    assert(views(tokens@) + Seq::<TokenView>::empty() =~= views(tokens@));
    tokens
}

} // verus!
