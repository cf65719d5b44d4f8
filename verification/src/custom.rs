//! A user-defined dialect: eight distinct characters, one per executable
//! token, validated for uniqueness before use.

use crate::token::{BFToken, TokenParseError};
use vstd::prelude::*;

verus! {

/// A single-character mapping chosen by the user.  `Custom::new` rejects a
/// mapping in which two tokens share a character.
pub struct Custom {
    pub add: char,
    pub subtract: char,
    pub left: char,
    pub right: char,
    pub print: char,
    pub input: char,
    pub jump_forwards: char,
    pub jump_backwards: char,
}

impl Custom {
    /// The eight characters of the mapping, in the fixed token order.
    pub open spec fn spec_symbols(self) -> Seq<char> {
        seq![
            self.add,
            self.subtract,
            self.left,
            self.right,
            self.print,
            self.input,
            self.jump_forwards,
            self.jump_backwards,
        ]
    }

    /// A well-formed mapping gives every token its own character.
    pub open spec fn wf(self) -> bool {
        forall|i: int, j: int|
            0 <= i < j < 8 ==> self.spec_symbols()[i] != self.spec_symbols()[j]
    }

    /// The character that renders a token under this mapping.
    pub open spec fn spec_char_of_token(self, t: BFToken) -> char {
        match t {
            BFToken::CellAdd => self.add,
            BFToken::CellSubtract => self.subtract,
            BFToken::PtrLeft => self.left,
            BFToken::PtrRight => self.right,
            BFToken::Print => self.print,
            BFToken::Input => self.input,
            BFToken::JumpForwards => self.jump_forwards,
            BFToken::JumpBackwards => self.jump_backwards,
            BFToken::NoOP => arbitrary(),
        }
    }

    /// The token a character stands for under this mapping, `NoOP` when it
    /// stands for none.  Ties are decided in the fixed token order, so the
    /// function is total even on an ill-formed mapping.
    pub open spec fn spec_token_of_char(self, c: char) -> BFToken {
        if c == self.add {
            BFToken::CellAdd
        } else if c == self.subtract {
            BFToken::CellSubtract
        } else if c == self.left {
            BFToken::PtrLeft
        } else if c == self.right {
            BFToken::PtrRight
        } else if c == self.print {
            BFToken::Print
        } else if c == self.input {
            BFToken::Input
        } else if c == self.jump_forwards {
            BFToken::JumpForwards
        } else if c == self.jump_backwards {
            BFToken::JumpBackwards
        } else {
            BFToken::NoOP
        }
    }

    /// The token sequence of a source text under this mapping: each
    /// character mapped to its token, unmapped characters dropped.
    pub open spec fn spec_tokens(self, s: Seq<char>) -> Seq<BFToken>
        decreases s.len(),
    {
        if s.len() == 0 {
            Seq::empty()
        } else {
            let rest = self.spec_tokens(s.drop_last());
            let t = self.spec_token_of_char(s.last());
            if t == BFToken::NoOP {
                rest
            } else {
                rest.push(t)
            }
        }
    }

    /// Builds a mapping from the eight characters, rejecting any mapping in
    /// which two tokens would share a character.
    pub fn new(
        add: char,
        subtract: char,
        left: char,
        right: char,
        print: char,
        input: char,
        jump_forwards: char,
        jump_backwards: char,
    ) -> (r: Result<Self, String>)
        ensures
            ({
                let c = Custom {
                    add,
                    subtract,
                    left,
                    right,
                    print,
                    input,
                    jump_forwards,
                    jump_backwards,
                };
                if c.wf() {
                    r == Ok::<Custom, String>(c)
                } else {
                    r is Err
                }
            }),
    {
        let final_object = Custom {
            add,
            subtract,
            left,
            right,
            print,
            input,
            jump_forwards,
            jump_backwards,
        };
        if final_object.has_duplicate_fields() {
            return Err(String::from_str("Fields have duplicates"));
        }
        Ok(final_object)
    }

    /// Whether two of the eight characters coincide.
    fn has_duplicate_fields(&self) -> (r: bool)
        ensures
            r <==> !self.wf(),
    {
        let mut fields: Vec<char> = Vec::new();
        fields.push(self.add);
        fields.push(self.subtract);
        fields.push(self.left);
        fields.push(self.right);
        fields.push(self.print);
        fields.push(self.input);
        fields.push(self.jump_forwards);
        fields.push(self.jump_backwards);
        proof {
            assert(fields@ =~= self.spec_symbols());
        }
        let mut i: usize = 0;
        while i < 8
            invariant
                i <= 8,
                fields@ == self.spec_symbols(),
                fields@.len() == 8,
                forall|a: int, b: int|
                    0 <= a < b < 8 && a < i ==> self.spec_symbols()[a] != self.spec_symbols()[b],
            decreases 8 - i,
        {
            let mut j: usize = i + 1;
            while j < 8
                invariant
                    i < 8,
                    i < j <= 8,
                    fields@ == self.spec_symbols(),
                    fields@.len() == 8,
                    forall|a: int, b: int|
                        0 <= a < b < 8 && a < i ==> self.spec_symbols()[a]
                            != self.spec_symbols()[b],
                    forall|b: int| i < b < j ==> self.spec_symbols()[i as int]
                        != self.spec_symbols()[b],
                decreases 8 - j,
            {
                if fields[i] == fields[j] {
                    proof {
                        assert(self.spec_symbols()[i as int] == self.spec_symbols()[j as int]);
                        assert(!self.wf());
                    }
                    return true;
                }
                j = j + 1;
            }
            i = i + 1;
        }
        false
    }

    /// Tokenizes source text under this mapping.  Every text tokenizes:
    /// unmapped characters are simply dropped.
    pub fn to_tokens(&self, element: String) -> (r: Result<Vec<BFToken>, TokenParseError>)
        ensures
            r matches Ok(ts) && ts@ == self.spec_tokens(element@),
    {
        let s = element.as_str();
        let n = s.unicode_len();
        let mut tokens: Vec<BFToken> = Vec::new();
        let mut i: usize = 0;
        while i < n
            invariant
                i <= n,
                n == s@.len(),
                s@ == element@,
                tokens@ == self.spec_tokens(element@.take(i as int)),
            decreases n - i,
        {
            let c = s.get_char(i);
            let t = self.token_of_char(c);
            proof {
                assert(element@.take(i as int + 1).drop_last() =~= element@.take(i as int));
                assert(element@.take(i as int + 1).last() == element@[i as int]);
            }
            if !matches!(t, BFToken::NoOP) {
                tokens.push(t);
            }
            i = i + 1;
        }
        proof {
            assert(element@.take(n as int) =~= element@);
        }
        Ok(tokens)
    }

    /// Maps one character to its token under this mapping.
    fn token_of_char(&self, c: char) -> (t: BFToken)
        ensures
            t == self.spec_token_of_char(c),
    {
        if c == self.add {
            BFToken::CellAdd
        } else if c == self.subtract {
            BFToken::CellSubtract
        } else if c == self.left {
            BFToken::PtrLeft
        } else if c == self.right {
            BFToken::PtrRight
        } else if c == self.print {
            BFToken::Print
        } else if c == self.input {
            BFToken::Input
        } else if c == self.jump_forwards {
            BFToken::JumpForwards
        } else if c == self.jump_backwards {
            BFToken::JumpBackwards
        } else {
            BFToken::NoOP
        }
    }
}

impl BFToken {
    /// Renders this token as its character under a user-defined mapping;
    /// `NoOP` has no rendering.
    pub fn to_custom(&self, custom: &Custom) -> (r: Result<char, TokenParseError>)
        ensures
            *self is NoOP <==> r is Err,
            !(*self is NoOP) ==> r == Ok::<char, TokenParseError>(
                custom.spec_char_of_token(*self),
            ),
    {
        match self {
            BFToken::CellAdd => Ok(custom.add),
            BFToken::CellSubtract => Ok(custom.subtract),
            BFToken::PtrLeft => Ok(custom.left),
            BFToken::PtrRight => Ok(custom.right),
            BFToken::Print => Ok(custom.print),
            BFToken::Input => Ok(custom.input),
            BFToken::JumpForwards => Ok(custom.jump_forwards),
            BFToken::JumpBackwards => Ok(custom.jump_backwards),
            BFToken::NoOP => Err(TokenParseError),
        }
    }
}

/// The rendering of a token sequence under a user-defined mapping: the
/// characters of its tokens, in order.
pub open spec fn spec_render_custom(custom: Custom, ts: Seq<BFToken>) -> Seq<char>
    decreases ts.len(),
{
    if ts.len() == 0 {
        Seq::empty()
    } else {
        spec_render_custom(custom, ts.drop_last()).push(
            custom.spec_char_of_token(ts.last()),
        )
    }
}

/// Under a well-formed mapping, reading back the character of an executable
/// token yields that token.
pub proof fn lemma_custom_char_inverse(custom: Custom, t: BFToken)
    requires
        custom.wf(),
        t != BFToken::NoOP,
    ensures
        custom.spec_token_of_char(custom.spec_char_of_token(t)) == t,
{
    assert(custom.spec_symbols()[0] == custom.add);
    assert(custom.spec_symbols()[1] == custom.subtract);
    assert(custom.spec_symbols()[2] == custom.left);
    assert(custom.spec_symbols()[3] == custom.right);
    assert(custom.spec_symbols()[4] == custom.print);
    assert(custom.spec_symbols()[5] == custom.input);
    assert(custom.spec_symbols()[6] == custom.jump_forwards);
    assert(custom.spec_symbols()[7] == custom.jump_backwards);
}

/// Round trip through a well-formed user-defined dialect: rendering a
/// sequence of executable tokens and tokenizing the text again reproduces
/// the sequence exactly.
pub proof fn lemma_custom_round_trip(custom: Custom, ts: Seq<BFToken>)
    requires
        custom.wf(),
        forall|i: int| 0 <= i < ts.len() ==> ts[i] != BFToken::NoOP,
    ensures
        custom.spec_tokens(spec_render_custom(custom, ts)) == ts,
    decreases ts.len(),
{
    if ts.len() == 0 {
        assert(custom.spec_tokens(spec_render_custom(custom, ts)) =~= ts);
    } else {
        let u = ts.drop_last();
        let t = ts.last();
        assert(forall|i: int| 0 <= i < u.len() ==> u[i] == ts[i] && ts[i] != BFToken::NoOP);
        lemma_custom_round_trip(custom, u);
        lemma_custom_char_inverse(custom, t);
        let s = spec_render_custom(custom, u).push(custom.spec_char_of_token(t));
        assert(s.drop_last() =~= spec_render_custom(custom, u));
        assert(custom.spec_tokens(s) == u.push(t));
        assert(u.push(t) =~= ts);
    }
}

} // verus!
