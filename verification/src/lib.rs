//! A verified interpreter for Brainfuck and its token-substitution dialects.
//!
//! Source text in any supported dialect (standard Brainfuck, Ook, Blub, or a
//! user-defined single-character mapping) is tokenized into one shared
//! instruction set, [`token::BFToken`].  The execution engine,
//! [`runtime::BrainfuckRuntime`], runs such an instruction sequence over a
//! byte tape that grows on demand in both directions, consuming bytes from an
//! in-memory input buffer and appending to an in-memory output buffer, so a
//! host can wire it to any source and sink it likes.

pub mod builtin_tokenizers;
pub mod custom;
pub mod matching;
pub mod runtime;
pub mod token;
