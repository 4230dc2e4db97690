//! Reading a command and its arguments off the tokens of a chat line.

use crate::tokenizer::{Token, TokenView};
use std::collections::VecDeque;
use vstd::prelude::*;

verus! {

/// What a command says of one of its arguments.
#[derive(Debug)]
pub struct ArgumentDef {
    pub name: &'static str,
    /// The name of the argument's type.
    pub ty: &'static str,
    /// Whether the argument may be left out.
    pub optional: bool,
}

/// What a command says of itself.
#[derive(Debug)]
pub struct CommandDef {
    pub name: &'static str,
    pub description: Option<String>,
    pub arguments: Vec<ArgumentDef>,
}

/// The name of a command.
#[derive(Debug, Clone, PartialEq, Eq)]
pub struct Ident(pub String);

/// An argument of a command.
#[derive(Debug, Clone, PartialEq, Eq)]
pub enum Argument {
    Integer(i64),
    /// A number written with a decimal point, as it was written.
    Float(String),
    String(String),
    Boolean(bool),
    OptionalInteger(Option<i64>),
    /// A number written with a decimal point, or none.
    OptionalFloat(Option<String>),
    OptionalString(Option<String>),
    OptionalBoolean(Option<bool>),
}

impl Argument {
    /// The whole number that the argument stands for: only a whole number
    /// does.
    pub open spec fn integer(&self) -> Option<i64> {
        match *self {
            Argument::Integer(value) => Some(value),
            _ => None,
        }
    }

    /// The truth value that the argument stands for: a truth value does,
    /// and so do the whole numbers 0, for false, and 1, for true.
    pub open spec fn boolean(&self) -> Option<bool> {
        match *self {
            Argument::Integer(value) => if value == 0 {
                Some(false)
            } else if value == 1 {
                Some(true)
            } else {
                None
            },
            Argument::Boolean(value) => Some(value),
            _ => None,
        }
    }

    /// The whole number that may be left out which the argument stands
    /// for: a whole number does, and so does one that may be left out.
    pub open spec fn optional_integer(&self) -> Option<Option<i64>> {
        match *self {
            Argument::Integer(value) => Some(Some(value)),
            Argument::OptionalInteger(value) => Some(value),
            _ => None,
        }
    }

    /// The truth value that may be left out which the argument stands
    /// for: whatever stands for a truth value does, and so does a truth
    /// value that may be left out.
    pub open spec fn optional_boolean(&self) -> Option<Option<bool>> {
        match *self {
            Argument::OptionalBoolean(value) => Some(value),
            _ => match self.boolean() {
                Some(value) => Some(Some(value)),
                None => None,
            },
        }
    }

    /// Reads the argument as a whole number.
    pub fn to_integer(&self) -> (r: Option<i64>)
        ensures
            r == self.integer(),
    {
        match self {
            Argument::Integer(value) => Some(*value),
            _ => None,
        }
    }

    /// Reads the argument as a truth value.
    pub fn to_boolean(&self) -> (r: Option<bool>)
        ensures
            r == self.boolean(),
    {
        match self {
            Argument::Integer(value) => {
                if *value == 0 {
                    Some(false)
                } else if *value == 1 {
                    Some(true)
                } else {
                    None
                }
            },
            Argument::Boolean(value) => Some(*value),
            _ => None,
        }
    }

    /// Reads the argument as a whole number that may be left out.
    pub fn to_optional_integer(&self) -> (r: Option<Option<i64>>)
        ensures
            r == self.optional_integer(),
    {
        match self {
            Argument::Integer(value) => Some(Some(*value)),
            Argument::OptionalInteger(value) => Some(*value),
            _ => None,
        }
    }

    /// Reads the argument as a truth value that may be left out.
    pub fn to_optional_boolean(&self) -> (r: Option<Option<bool>>)
        ensures
            r == self.optional_boolean(),
    {
        match self {
            Argument::OptionalBoolean(value) => Some(*value),
            _ => match self.to_boolean() {
                Some(value) => Some(Some(value)),
                None => None,
            },
        }
    }
}

/// Why a line is no command.
#[derive(Clone, Copy, Debug, PartialEq, Eq, Structural)]
pub enum ParseError {
    /// The line does not begin with the name of a command.
    InvalidCommand,
}

/// An argument read off a line, with its text as a sequence of characters.
pub enum ArgumentView {
    Integer(i64),
    Float(Seq<char>),
    String(Seq<char>),
    Boolean(bool),
}

/// The argument that a token stands for. A text is an argument whether it
/// stood between quotes or not.
pub open spec fn argument_of(token: TokenView) -> ArgumentView {
    match token {
        TokenView::Integer(value) => ArgumentView::Integer(value),
        TokenView::Float(text) => ArgumentView::Float(text),
        TokenView::String(text) => ArgumentView::String(text),
        TokenView::UnquotedString(text) => ArgumentView::String(text),
        TokenView::Boolean(value) => ArgumentView::Boolean(value),
    }
}

/// Whether an argument is the one read off a token with this view.
pub open spec fn reads_as(argument: Argument, view: ArgumentView) -> bool {
    match (argument, view) {
        (Argument::Integer(a), ArgumentView::Integer(b)) => a == b,
        (Argument::Float(a), ArgumentView::Float(b)) => a@ == b,
        (Argument::String(a), ArgumentView::String(b)) => a@ == b,
        (Argument::Boolean(a), ArgumentView::Boolean(b)) => a == b,
        _ => false,
    }
}

/// The command in a run of tokens: the first token, which must be a plain
/// text, names it, and every other token is an argument.
pub open spec fn command_of(tokens: Seq<TokenView>) -> Result<
    (Seq<char>, Seq<ArgumentView>),
    ParseError,
> {
    if tokens.len() > 0 && tokens[0] is UnquotedString {
        Ok(
            (
                tokens[0]->UnquotedString_0,
                Seq::new((tokens.len() - 1) as nat, |i: int| argument_of(tokens[i + 1])),
            ),
        )
    } else {
        Err(ParseError::InvalidCommand)
    }
}

/// Turns a token into the argument it stands for.
pub fn argument(token: Token) -> (argument: Argument)
    ensures
        reads_as(argument, argument_of(token@)),
{
    match token {
        Token::Integer(value) => Argument::Integer(value),
        Token::Float(text) => Argument::Float(text),
        Token::String(text) => Argument::String(text),
        Token::UnquotedString(text) => Argument::String(text),
        Token::Boolean(value) => Argument::Boolean(value),
    }
}

/// Reads a command and its arguments off the tokens of a line.
pub fn parse(tokens: VecDeque<Token>) -> (r: Result<(Ident, VecDeque<Argument>), ParseError>)
    ensures
        match command_of(crate::tokenizer::views(tokens@)) {
            Ok((name, arguments)) => r matches Ok((ident, args)) && ident.0@ == name && args@.len()
                == arguments.len() && forall|i: int|
                0 <= i < args@.len() ==> reads_as(#[trigger] args@[i], arguments[i]),
            Err(e) => r == Err::<(Ident, VecDeque<Argument>), ParseError>(e),
        },
{
    let ghost all = tokens@;
    let mut tokens = tokens;
    let mut args: VecDeque<Argument> = VecDeque::new();
    let cmd: Ident = match tokens.pop_front() {
        Some(Token::UnquotedString(name)) => Ident(name),
        _ => {
            return Err(ParseError::InvalidCommand);
        },
    };
    while tokens.len() > 0
        invariant
            all.len() > 0,
            args@.len() + tokens@.len() == all.len() - 1,
            tokens@ == all.subrange(args@.len() as int + 1, all.len() as int),
            forall|i: int|
                0 <= i < args@.len() ==> reads_as(#[trigger] args@[i], argument_of(all[i + 1]@)),
        decreases tokens@.len(),
    {
        let ghost done = args@.len() as int;
        match tokens.pop_front() {
            Some(token) => {
                assert(token == all[done + 1]);
                args.push_back(argument(token));
                assert(tokens@ =~= all.subrange(done + 2, all.len() as int));
            },
            None => {},
        }
    }
    Ok((cmd, args))
}

} // verus!
