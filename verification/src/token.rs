//! The shared instruction set that every dialect tokenizes into.

use vstd::prelude::*;

verus! {

/// One Brainfuck instruction.  Every dialect maps its surface syntax onto
/// these eight executable opcodes; `NoOP` marks source characters that carry
/// no instruction and is filtered out before execution.
#[derive(Debug, PartialEq, Eq, Clone, Copy, Structural)]
pub enum BFToken {
    CellAdd,
    CellSubtract,
    PtrLeft,
    PtrRight,
    Print,
    Input,
    JumpForwards,
    JumpBackwards,
    NoOP,
}

/// The error returned when source text cannot be tokenized, or when a token
/// has no rendering in the requested dialect.
#[derive(Debug, PartialEq, Eq, Clone, Copy, Structural)]
pub struct TokenParseError;

/// A dialect's two directions of translation: source text to the shared
/// token sequence, and a single token back to its rendering in the dialect.
/// Each implementation states exactly which token sequence it produces.
pub trait Tokenizer {
    /// Tokenizes source text written in this dialect.
    fn to_tokens(element: String) -> Result<Vec<BFToken>, TokenParseError>;

    /// Renders a token in this dialect; `NoOP` has no rendering.
    fn token_to_string(element: BFToken) -> Result<String, TokenParseError>;
}

/// The standard Brainfuck character for each executable token.
pub open spec fn spec_bf_char_of_token(t: BFToken) -> char {
    match t {
        BFToken::CellAdd => '+',
        BFToken::CellSubtract => '-',
        BFToken::PtrLeft => '<',
        BFToken::PtrRight => '>',
        BFToken::Print => '.',
        BFToken::Input => ',',
        BFToken::JumpForwards => '[',
        BFToken::JumpBackwards => ']',
        BFToken::NoOP => arbitrary(),
    }
}

impl BFToken {
    /// Renders this token as its standard Brainfuck character;
    /// `NoOP` has no rendering.
    pub fn to_bf_char(&self) -> (r: Result<char, TokenParseError>)
        ensures
            *self is NoOP <==> r is Err,
            !(*self is NoOP) ==> r == Ok::<char, TokenParseError>(spec_bf_char_of_token(*self)),
    {
        match self {
            BFToken::CellAdd => Ok('+'),
            BFToken::CellSubtract => Ok('-'),
            BFToken::PtrLeft => Ok('<'),
            BFToken::PtrRight => Ok('>'),
            BFToken::Print => Ok('.'),
            BFToken::Input => Ok(','),
            BFToken::JumpForwards => Ok('['),
            BFToken::JumpBackwards => Ok(']'),
            BFToken::NoOP => Err(TokenParseError),
        }
    }
}

} // verus!
