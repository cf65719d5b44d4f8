//! The built-in dialects and their tokenizers.
//!
//! Each dialect maps its surface syntax onto the shared instruction set: one
//! character per token for standard Brainfuck, one pair of symbol characters
//! (drawn from `.`, `!` and `?`) per token for Ook and Blub.  Characters that
//! carry no instruction are filtered out, so arbitrary text may be
//! interleaved with a program.

use crate::token::{spec_bf_char_of_token, BFToken, TokenParseError, Tokenizer};
use vstd::prelude::*;

verus! {

/// The standard Brainfuck dialect: `+ - < > . , [ ]`, one character per
/// token, everything else ignored.
pub struct Brainfuck;

/// The Ook dialect: each token is a pair of the punctuation characters taken
/// from the words `Ook. Ook? Ook!`.
pub struct Ook;

/// The Blub dialect: the same pairing as Ook, spelled with `Blub` words.
pub struct Blub;

/// The token a standard Brainfuck character stands for; `NoOP` for any
/// character outside the eight commands.
pub open spec fn spec_bf_token_of_char(c: char) -> BFToken {
    if c == '+' {
        BFToken::CellAdd
    } else if c == '-' {
        BFToken::CellSubtract
    } else if c == '<' {
        BFToken::PtrLeft
    } else if c == '>' {
        BFToken::PtrRight
    } else if c == '.' {
        BFToken::Print
    } else if c == ',' {
        BFToken::Input
    } else if c == '[' {
        BFToken::JumpForwards
    } else if c == ']' {
        BFToken::JumpBackwards
    } else {
        BFToken::NoOP
    }
}

/// The token sequence of a standard Brainfuck source text: each character
/// mapped to its token, with the `NoOP` markers filtered out.
pub open spec fn spec_single_char_tokens(s: Seq<char>) -> Seq<BFToken>
    decreases s.len(),
{
    if s.len() == 0 {
        Seq::empty()
    } else {
        let rest = spec_single_char_tokens(s.drop_last());
        let t = spec_bf_token_of_char(s.last());
        if t == BFToken::NoOP {
            rest
        } else {
            rest.push(t)
        }
    }
}

/// Maps one standard Brainfuck character to its token.
fn bf_token_of_char(c: char) -> (t: BFToken)
    ensures
        t == spec_bf_token_of_char(c),
{
    match c {
        '+' => BFToken::CellAdd,
        '-' => BFToken::CellSubtract,
        '<' => BFToken::PtrLeft,
        '>' => BFToken::PtrRight,
        '.' => BFToken::Print,
        ',' => BFToken::Input,
        '[' => BFToken::JumpForwards,
        ']' => BFToken::JumpBackwards,
        _ => BFToken::NoOP,
    }
}

impl Tokenizer for Brainfuck {
    /// Tokenizes standard Brainfuck source text.  Every text tokenizes:
    /// characters outside the eight commands are simply dropped.
    fn to_tokens(element: String) -> (r: Result<Vec<BFToken>, TokenParseError>)
        ensures
            r matches Ok(ts) && ts@ == spec_single_char_tokens(element@),
    {
        let s = element.as_str();
        let n = s.unicode_len();
        let mut tokens: Vec<BFToken> = Vec::new();
        let mut i: usize = 0;
        while i < n
            invariant
                i <= n,
                n == s@.len(),
                s@ == element@,
                tokens@ == spec_single_char_tokens(element@.take(i as int)),
            decreases n - i,
        {
            let c = s.get_char(i);
            let t = bf_token_of_char(c);
            proof {
                assert(element@.take(i as int + 1).drop_last() =~= element@.take(i as int));
                assert(element@.take(i as int + 1).last() == element@[i as int]);
            }
            if !matches!(t, BFToken::NoOP) {
                tokens.push(t);
            }
            i = i + 1;
        }
        proof {
            assert(element@.take(n as int) =~= element@);
        }
        Ok(tokens)
    }

    /// Renders a token as its standard Brainfuck command character;
    /// `NoOP` has no rendering.
    fn token_to_string(element: BFToken) -> (r: Result<String, TokenParseError>)
        ensures
            element is NoOP <==> r is Err,
            !(element is NoOP) ==> (r matches Ok(s) && s@ == seq![
                spec_bf_char_of_token(element),
            ]),
    {
        match element {
            BFToken::CellAdd => {
                let s = String::from_str("+");
                proof {
                    reveal_strlit("+");
                    assert(s@ =~= seq!['+']);
                }
                Ok(s)
            },
            BFToken::CellSubtract => {
                let s = String::from_str("-");
                proof {
                    reveal_strlit("-");
                    assert(s@ =~= seq!['-']);
                }
                Ok(s)
            },
            BFToken::PtrLeft => {
                let s = String::from_str("<");
                proof {
                    reveal_strlit("<");
                    assert(s@ =~= seq!['<']);
                }
                Ok(s)
            },
            BFToken::PtrRight => {
                let s = String::from_str(">");
                proof {
                    reveal_strlit(">");
                    assert(s@ =~= seq!['>']);
                }
                Ok(s)
            },
            BFToken::Print => {
                let s = String::from_str(".");
                proof {
                    reveal_strlit(".");
                    assert(s@ =~= seq!['.']);
                }
                Ok(s)
            },
            BFToken::Input => {
                let s = String::from_str(",");
                proof {
                    reveal_strlit(",");
                    assert(s@ =~= seq![',']);
                }
                Ok(s)
            },
            BFToken::JumpForwards => {
                let s = String::from_str("[");
                proof {
                    reveal_strlit("[");
                    assert(s@ =~= seq!['[']);
                }
                Ok(s)
            },
            BFToken::JumpBackwards => {
                let s = String::from_str("]");
                proof {
                    reveal_strlit("]");
                    assert(s@ =~= seq![']']);
                }
                Ok(s)
            },
            BFToken::NoOP => Err(TokenParseError),
        }
    }
}

/// Whether a character is one of the three symbol characters that carry the
/// instruction in the Ook and Blub dialects.
pub open spec fn is_symbol_char(c: char) -> bool {
    c == '.' || c == '!' || c == '?'
}

/// The symbol characters of a source text, in order, everything else
/// dropped.
pub open spec fn spec_symbol_filter(s: Seq<char>) -> Seq<char>
    decreases s.len(),
{
    if s.len() == 0 {
        Seq::empty()
    } else {
        let rest = spec_symbol_filter(s.drop_last());
        if is_symbol_char(s.last()) {
            rest.push(s.last())
        } else {
            rest
        }
    }
}

/// The token a pair of symbol characters stands for in Ook and Blub;
/// `NoOP` for a pairing outside the eight fixed ones.
pub open spec fn spec_pair_token(a: char, b: char) -> BFToken {
    if a == '.' && b == '.' {
        BFToken::CellAdd
    } else if a == '!' && b == '!' {
        BFToken::CellSubtract
    } else if a == '?' && b == '.' {
        BFToken::PtrLeft
    } else if a == '.' && b == '?' {
        BFToken::PtrRight
    } else if a == '!' && b == '.' {
        BFToken::Print
    } else if a == '.' && b == '!' {
        BFToken::Input
    } else if a == '!' && b == '?' {
        BFToken::JumpForwards
    } else if a == '?' && b == '!' {
        BFToken::JumpBackwards
    } else {
        BFToken::NoOP
    }
}

/// The token sequence of an even-length symbol sequence, read two symbols at
/// a time, with unknown pairings filtered out as `NoOP`.
pub open spec fn spec_pair_tokens(v: Seq<char>) -> Seq<BFToken>
    decreases v.len(),
{
    if v.len() < 2 {
        Seq::empty()
    } else {
        let rest = spec_pair_tokens(v.drop_last().drop_last());
        let t = spec_pair_token(v[v.len() - 2], v.last());
        if t == BFToken::NoOP {
            rest
        } else {
            rest.push(t)
        }
    }
}

/// The token sequence of an Ook or Blub source text: keep the symbol
/// characters, reject an odd count, and read the symbols two at a time.
pub open spec fn spec_multi_char_tokens(s: Seq<char>) -> Result<Seq<BFToken>, TokenParseError> {
    let v = spec_symbol_filter(s);
    if v.len() % 2 != 0 {
        Err(TokenParseError)
    } else {
        Ok(spec_pair_tokens(v))
    }
}

/// Whether a character is a symbol character.
fn symbol_char(c: char) -> (r: bool)
    ensures
        r == is_symbol_char(c),
{
    c == '.' || c == '!' || c == '?'
}

/// Maps one pair of symbol characters to its token.
fn pair_token(a: char, b: char) -> (t: BFToken)
    ensures
        t == spec_pair_token(a, b),
{
    if a == '.' && b == '.' {
        BFToken::CellAdd
    } else if a == '!' && b == '!' {
        BFToken::CellSubtract
    } else if a == '?' && b == '.' {
        BFToken::PtrLeft
    } else if a == '.' && b == '?' {
        BFToken::PtrRight
    } else if a == '!' && b == '.' {
        BFToken::Print
    } else if a == '.' && b == '!' {
        BFToken::Input
    } else if a == '!' && b == '?' {
        BFToken::JumpForwards
    } else if a == '?' && b == '!' {
        BFToken::JumpBackwards
    } else {
        BFToken::NoOP
    }
}

/// Tokenizes an Ook or Blub source text: filter the symbol characters,
/// reject an odd count, then map each pair of symbols to its token.
fn multi_char_to_tokens(element: &str) -> (r: Result<Vec<BFToken>, TokenParseError>)
    ensures
        match spec_multi_char_tokens(element@) {
            Ok(ts) => r matches Ok(v) && v@ == ts,
            Err(_) => r is Err,
        },
{
    let n = element.unicode_len();
    let mut symbols: Vec<char> = Vec::new();
    let mut i: usize = 0;
    while i < n
        invariant
            i <= n,
            n == element@.len(),
            symbols@ == spec_symbol_filter(element@.take(i as int)),
        decreases n - i,
    {
        let c = element.get_char(i);
        proof {
            assert(element@.take(i as int + 1).drop_last() =~= element@.take(i as int));
            assert(element@.take(i as int + 1).last() == element@[i as int]);
        }
        if symbol_char(c) {
            symbols.push(c);
        }
        i = i + 1;
    }
    proof {
        assert(element@.take(n as int) =~= element@);
    }
    let m = symbols.len();
    if m % 2 != 0 {
        return Err(TokenParseError);
    }
    let mut tokens: Vec<BFToken> = Vec::new();
    let mut k: usize = 0;
    while k < m
        invariant
            k <= m,
            k % 2 == 0,
            m % 2 == 0,
            m == symbols@.len(),
            tokens@ == spec_pair_tokens(symbols@.take(k as int)),
        decreases m - k,
    {
        let t = pair_token(symbols[k], symbols[k + 1]);
        proof {
            assert(symbols@.take(k as int + 2).drop_last().drop_last() =~= symbols@.take(
                k as int,
            ));
            assert(symbols@.take(k as int + 2).last() == symbols@[k as int + 1]);
            assert(symbols@.take(k as int + 2)[k as int] == symbols@[k as int]);
        }
        if !matches!(t, BFToken::NoOP) {
            tokens.push(t);
        }
        k = k + 2;
    }
    proof {
        assert(symbols@.take(m as int) =~= symbols@);
    }
    Ok(tokens)
}

impl Tokenizer for Ook {
    /// Tokenizes Ook source text: only the `.`, `!` and `?` characters
    /// carry the program, read two at a time; an odd number of them is a
    /// parse error.
    fn to_tokens(element: String) -> (r: Result<Vec<BFToken>, TokenParseError>)
        ensures
            match spec_multi_char_tokens(element@) {
                Ok(ts) => r matches Ok(v) && v@ == ts,
                Err(_) => r is Err,
            },
    {
        multi_char_to_tokens(element.as_str())
    }

    /// Renders a token as its Ook word pair; `NoOP` has no rendering.
    fn token_to_string(element: BFToken) -> (r: Result<String, TokenParseError>)
        ensures
            element is NoOP <==> r is Err,
            !(element is NoOP) ==> (r matches Ok(s) && s@ == spec_ook_string(element)),
    {
        match element {
            BFToken::CellAdd => {
                let s = String::from_str("Ook. Ook.");
                proof {
                    reveal_strlit("Ook. Ook.");
                    assert(s@ =~= spec_ook_string(element));
                }
                Ok(s)
            },
            BFToken::CellSubtract => {
                let s = String::from_str("Ook! Ook!");
                proof {
                    reveal_strlit("Ook! Ook!");
                    assert(s@ =~= spec_ook_string(element));
                }
                Ok(s)
            },
            BFToken::PtrLeft => {
                let s = String::from_str("Ook? Ook.");
                proof {
                    reveal_strlit("Ook? Ook.");
                    assert(s@ =~= spec_ook_string(element));
                }
                Ok(s)
            },
            BFToken::PtrRight => {
                let s = String::from_str("Ook. Ook?");
                proof {
                    reveal_strlit("Ook. Ook?");
                    assert(s@ =~= spec_ook_string(element));
                }
                Ok(s)
            },
            BFToken::Print => {
                let s = String::from_str("Ook! Ook.");
                proof {
                    reveal_strlit("Ook! Ook.");
                    assert(s@ =~= spec_ook_string(element));
                }
                Ok(s)
            },
            BFToken::Input => {
                let s = String::from_str("Ook. Ook!");
                proof {
                    reveal_strlit("Ook. Ook!");
                    assert(s@ =~= spec_ook_string(element));
                }
                Ok(s)
            },
            BFToken::JumpForwards => {
                let s = String::from_str("Ook! Ook?");
                proof {
                    reveal_strlit("Ook! Ook?");
                    assert(s@ =~= spec_ook_string(element));
                }
                Ok(s)
            },
            BFToken::JumpBackwards => {
                let s = String::from_str("Ook? Ook!");
                proof {
                    reveal_strlit("Ook? Ook!");
                    assert(s@ =~= spec_ook_string(element));
                }
                Ok(s)
            },
            BFToken::NoOP => Err(TokenParseError),
        }
    }
}

impl Tokenizer for Blub {
    /// Tokenizes Blub source text: the same symbol pairing as Ook.
    fn to_tokens(element: String) -> (r: Result<Vec<BFToken>, TokenParseError>)
        ensures
            match spec_multi_char_tokens(element@) {
                Ok(ts) => r matches Ok(v) && v@ == ts,
                Err(_) => r is Err,
            },
    {
        multi_char_to_tokens(element.as_str())
    }

    /// Renders a token as its Blub word pair; `NoOP` has no rendering.
    fn token_to_string(element: BFToken) -> (r: Result<String, TokenParseError>)
        ensures
            element is NoOP <==> r is Err,
            !(element is NoOP) ==> (r matches Ok(s) && s@ == spec_blub_string(element)),
    {
        match element {
            BFToken::CellAdd => {
                let s = String::from_str("Blub. Blub.");
                proof {
                    reveal_strlit("Blub. Blub.");
                    assert(s@ =~= spec_blub_string(element));
                }
                Ok(s)
            },
            BFToken::CellSubtract => {
                let s = String::from_str("Blub! Blub!");
                proof {
                    reveal_strlit("Blub! Blub!");
                    assert(s@ =~= spec_blub_string(element));
                }
                Ok(s)
            },
            BFToken::PtrLeft => {
                let s = String::from_str("Blub? Blub.");
                proof {
                    reveal_strlit("Blub? Blub.");
                    assert(s@ =~= spec_blub_string(element));
                }
                Ok(s)
            },
            BFToken::PtrRight => {
                let s = String::from_str("Blub. Blub?");
                proof {
                    reveal_strlit("Blub. Blub?");
                    assert(s@ =~= spec_blub_string(element));
                }
                Ok(s)
            },
            BFToken::Print => {
                let s = String::from_str("Blub! Blub.");
                proof {
                    reveal_strlit("Blub! Blub.");
                    assert(s@ =~= spec_blub_string(element));
                }
                Ok(s)
            },
            BFToken::Input => {
                let s = String::from_str("Blub. Blub!");
                proof {
                    reveal_strlit("Blub. Blub!");
                    assert(s@ =~= spec_blub_string(element));
                }
                Ok(s)
            },
            BFToken::JumpForwards => {
                let s = String::from_str("Blub! Blub?");
                proof {
                    reveal_strlit("Blub! Blub?");
                    assert(s@ =~= spec_blub_string(element));
                }
                Ok(s)
            },
            BFToken::JumpBackwards => {
                let s = String::from_str("Blub? Blub!");
                proof {
                    reveal_strlit("Blub? Blub!");
                    assert(s@ =~= spec_blub_string(element));
                }
                Ok(s)
            },
            BFToken::NoOP => Err(TokenParseError),
        }
    }
}

/// The pair of symbol characters that renders a token in Ook and Blub.
pub open spec fn spec_symbol_pair_of_token(t: BFToken) -> (char, char) {
    match t {
        BFToken::CellAdd => ('.', '.'),
        BFToken::CellSubtract => ('!', '!'),
        BFToken::PtrLeft => ('?', '.'),
        BFToken::PtrRight => ('.', '?'),
        BFToken::Print => ('!', '.'),
        BFToken::Input => ('.', '!'),
        BFToken::JumpForwards => ('!', '?'),
        BFToken::JumpBackwards => ('?', '!'),
        BFToken::NoOP => arbitrary(),
    }
}

/// The Ook rendering of a token, such as `Ook. Ook?` for `PtrRight`.
pub open spec fn spec_ook_string(t: BFToken) -> Seq<char> {
    let p = spec_symbol_pair_of_token(t);
    seq!['O', 'o', 'k', p.0, ' ', 'O', 'o', 'k', p.1]
}

/// The Blub rendering of a token, such as `Blub. Blub?` for `PtrRight`.
pub open spec fn spec_blub_string(t: BFToken) -> Seq<char> {
    let p = spec_symbol_pair_of_token(t);
    seq!['B', 'l', 'u', 'b', p.0, ' ', 'B', 'l', 'u', 'b', p.1]
}

/// Characters that map to no token are invisible to the tokenizer:
/// inserting one anywhere in a standard Brainfuck text leaves the token
/// sequence — and with it every execution result — unchanged.
pub proof fn lemma_noop_chars_ignored(s1: Seq<char>, c: char, s2: Seq<char>)
    requires
        spec_bf_token_of_char(c) == BFToken::NoOP,
    ensures
        spec_single_char_tokens(s1 + seq![c] + s2) == spec_single_char_tokens(s1 + s2),
    decreases s2.len(),
{
    if s2.len() == 0 {
        assert((s1 + seq![c] + s2).drop_last() =~= s1);
        assert((s1 + seq![c] + s2).last() == c);
        assert(s1 + s2 =~= s1);
    } else {
        lemma_noop_chars_ignored(s1, c, s2.drop_last());
        assert((s1 + seq![c] + s2).drop_last() =~= s1 + seq![c] + s2.drop_last());
        assert((s1 + seq![c] + s2).last() == s2.last());
        assert((s1 + s2).drop_last() =~= s1 + s2.drop_last());
        assert((s1 + s2).last() == s2.last());
    }
}

/// The standard Brainfuck rendering of a token sequence: the command
/// characters of its tokens, in order.
pub open spec fn spec_render_bf(ts: Seq<BFToken>) -> Seq<char>
    decreases ts.len(),
{
    if ts.len() == 0 {
        Seq::empty()
    } else {
        spec_render_bf(ts.drop_last()).push(spec_bf_char_of_token(ts.last()))
    }
}

/// The Ook rendering of a token sequence: the Ook word pairs of its tokens,
/// concatenated in order.
pub open spec fn spec_render_ook(ts: Seq<BFToken>) -> Seq<char>
    decreases ts.len(),
{
    if ts.len() == 0 {
        Seq::empty()
    } else {
        spec_render_ook(ts.drop_last()) + spec_ook_string(ts.last())
    }
}

/// The Blub rendering of a token sequence.
pub open spec fn spec_render_blub(ts: Seq<BFToken>) -> Seq<char>
    decreases ts.len(),
{
    if ts.len() == 0 {
        Seq::empty()
    } else {
        spec_render_blub(ts.drop_last()) + spec_blub_string(ts.last())
    }
}

/// The symbol filter distributes over concatenation.
pub proof fn lemma_symbol_filter_add(a: Seq<char>, b: Seq<char>)
    ensures
        spec_symbol_filter(a + b) == spec_symbol_filter(a) + spec_symbol_filter(b),
    decreases b.len(),
{
    if b.len() == 0 {
        assert(a + b =~= a);
        assert(spec_symbol_filter(a) + spec_symbol_filter(b) =~= spec_symbol_filter(a));
    } else {
        lemma_symbol_filter_add(a, b.drop_last());
        assert((a + b).drop_last() =~= a + b.drop_last());
        assert((a + b).last() == b.last());
        if is_symbol_char(b.last()) {
            assert(spec_symbol_filter(a) + spec_symbol_filter(b) =~= (spec_symbol_filter(a)
                + spec_symbol_filter(b.drop_last())).push(b.last()));
        }
    }
}

/// The symbol characters of a token's Ook rendering are exactly its symbol
/// pair.
pub proof fn lemma_ook_string_symbols(t: BFToken)
    requires
        t != BFToken::NoOP,
    ensures
        spec_symbol_filter(spec_ook_string(t)) == seq![
            spec_symbol_pair_of_token(t).0,
            spec_symbol_pair_of_token(t).1,
        ],
{
    reveal_with_fuel(spec_symbol_filter, 10);
    let p = spec_symbol_pair_of_token(t);
    assert(is_symbol_char(p.0) && is_symbol_char(p.1));
    assert(spec_symbol_filter(spec_ook_string(t)) =~= seq![p.0, p.1]);
}

/// The symbol characters of a token's Blub rendering are exactly its symbol
/// pair.
pub proof fn lemma_blub_string_symbols(t: BFToken)
    requires
        t != BFToken::NoOP,
    ensures
        spec_symbol_filter(spec_blub_string(t)) == seq![
            spec_symbol_pair_of_token(t).0,
            spec_symbol_pair_of_token(t).1,
        ],
{
    reveal_with_fuel(spec_symbol_filter, 12);
    let p = spec_symbol_pair_of_token(t);
    assert(is_symbol_char(p.0) && is_symbol_char(p.1));
    assert(spec_symbol_filter(spec_blub_string(t)) =~= seq![p.0, p.1]);
}

/// Reading back the symbol pair of an executable token yields that token.
pub proof fn lemma_pair_token_inverse(t: BFToken)
    requires
        t != BFToken::NoOP,
    ensures
        spec_pair_token(spec_symbol_pair_of_token(t).0, spec_symbol_pair_of_token(t).1) == t,
{
}

/// Reading back the command character of an executable token yields that
/// token.
pub proof fn lemma_bf_char_inverse(t: BFToken)
    requires
        t != BFToken::NoOP,
    ensures
        spec_bf_token_of_char(spec_bf_char_of_token(t)) == t,
{
}

/// Round trip through standard Brainfuck text: rendering a sequence of
/// executable tokens and tokenizing the text again reproduces the sequence
/// exactly.
pub proof fn lemma_bf_round_trip(ts: Seq<BFToken>)
    requires
        forall|i: int| 0 <= i < ts.len() ==> ts[i] != BFToken::NoOP,
    ensures
        spec_single_char_tokens(spec_render_bf(ts)) == ts,
    decreases ts.len(),
{
    if ts.len() == 0 {
        assert(spec_single_char_tokens(spec_render_bf(ts)) =~= ts);
    } else {
        let u = ts.drop_last();
        let t = ts.last();
        lemma_bf_round_trip(u);
        lemma_bf_char_inverse(t);
        let s = spec_render_bf(u).push(spec_bf_char_of_token(t));
        assert(s.drop_last() =~= spec_render_bf(u));
        assert(spec_single_char_tokens(s) == u.push(t));
        assert(u.push(t) =~= ts);
    }
}

/// Round trip through Ook text: rendering a sequence of executable tokens
/// and tokenizing the text again reproduces the sequence exactly.
pub proof fn lemma_ook_round_trip(ts: Seq<BFToken>)
    requires
        forall|i: int| 0 <= i < ts.len() ==> ts[i] != BFToken::NoOP,
    ensures
        spec_multi_char_tokens(spec_render_ook(ts)) == Ok::<Seq<BFToken>, TokenParseError>(ts),
    decreases ts.len(),
{
    if ts.len() == 0 {
        assert(spec_symbol_filter(spec_render_ook(ts)) =~= Seq::<char>::empty());
        assert(spec_pair_tokens(Seq::<char>::empty()) =~= ts);
    } else {
        let u = ts.drop_last();
        let t = ts.last();
        assert(forall|i: int| 0 <= i < u.len() ==> u[i] == ts[i] && ts[i] != BFToken::NoOP);
        lemma_ook_round_trip(u);
        lemma_symbol_filter_add(spec_render_ook(u), spec_ook_string(t));
        lemma_ook_string_symbols(t);
        lemma_pair_token_inverse(t);
        let f = spec_symbol_filter(spec_render_ook(u));
        let p = spec_symbol_pair_of_token(t);
        let v = spec_symbol_filter(spec_render_ook(ts));
        assert(v == f + seq![p.0, p.1]);
        assert(v.drop_last().drop_last() =~= f);
        assert(v[v.len() - 2] == p.0 && v.last() == p.1);
        assert(spec_pair_tokens(v) == spec_pair_tokens(f).push(t));
        assert(spec_pair_tokens(f).push(t) =~= ts);
    }
}

/// Round trip through Blub text: rendering a sequence of executable tokens
/// and tokenizing the text again reproduces the sequence exactly.
pub proof fn lemma_blub_round_trip(ts: Seq<BFToken>)
    requires
        forall|i: int| 0 <= i < ts.len() ==> ts[i] != BFToken::NoOP,
    ensures
        spec_multi_char_tokens(spec_render_blub(ts)) == Ok::<Seq<BFToken>, TokenParseError>(ts),
    decreases ts.len(),
{
    if ts.len() == 0 {
        assert(spec_symbol_filter(spec_render_blub(ts)) =~= Seq::<char>::empty());
        assert(spec_pair_tokens(Seq::<char>::empty()) =~= ts);
    } else {
        let u = ts.drop_last();
        let t = ts.last();
        assert(forall|i: int| 0 <= i < u.len() ==> u[i] == ts[i] && ts[i] != BFToken::NoOP);
        lemma_blub_round_trip(u);
        lemma_symbol_filter_add(spec_render_blub(u), spec_blub_string(t));
        lemma_blub_string_symbols(t);
        lemma_pair_token_inverse(t);
        let f = spec_symbol_filter(spec_render_blub(u));
        let p = spec_symbol_pair_of_token(t);
        let v = spec_symbol_filter(spec_render_blub(ts));
        assert(v == f + seq![p.0, p.1]);
        assert(v.drop_last().drop_last() =~= f);
        assert(v[v.len() - 2] == p.0 && v.last() == p.1);
        assert(spec_pair_tokens(v) == spec_pair_tokens(f).push(t));
        assert(spec_pair_tokens(f).push(t) =~= ts);
    }
}

} // verus!
