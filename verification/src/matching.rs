//! Bracket matching: locating the jump partner of a `JumpForwards` or
//! `JumpBackwards` instruction by tracking a signed nesting balance.

use crate::token::BFToken;
use vstd::prelude::*;

verus! {

/// The direction in which a matching scan walks the instruction sequence.
pub enum IteratorOrder {
    FrontToBack,
    BackToFront,
}

/// The contribution of one token to the nesting balance: `+1` for the
/// opening class, `-1` for the closing class, `0` for anything else.
pub open spec fn token_delta(t: BFToken, loop_start: BFToken, loop_end: BFToken) -> int {
    if t == loop_start {
        1
    } else if t == loop_end {
        -1
    } else {
        0
    }
}

/// The scan that `find_matching` performs front to back, as a mathematical
/// function: starting at index `i` with accumulated balance `bal`, add each
/// token's delta in turn and stop at the first index where the balance
/// reaches zero.
pub open spec fn spec_scan_forward(
    s: Seq<BFToken>,
    loop_start: BFToken,
    loop_end: BFToken,
    i: int,
    bal: int,
) -> Option<int>
    decreases s.len() - i,
{
    if i < 0 || i >= s.len() {
        None
    } else {
        let b = bal + token_delta(s[i], loop_start, loop_end);
        if b == 0 {
            Some(i)
        } else {
            spec_scan_forward(s, loop_start, loop_end, i + 1, b)
        }
    }
}

/// The scan that `find_matching` performs back to front, stopping at the
/// first index (walking downward) where the balance reaches zero.
pub open spec fn spec_scan_backward(
    s: Seq<BFToken>,
    loop_start: BFToken,
    loop_end: BFToken,
    i: int,
    bal: int,
) -> Option<int>
    decreases i + 1,
{
    if i < 0 || i >= s.len() {
        None
    } else {
        let b = bal + token_delta(s[i], loop_start, loop_end);
        if b == 0 {
            Some(i)
        } else {
            spec_scan_backward(s, loop_start, loop_end, i - 1, b)
        }
    }
}

/// What `find_matching` returns for each direction.
pub open spec fn spec_find_matching(
    s: Seq<BFToken>,
    loop_start: BFToken,
    loop_end: BFToken,
    offset: int,
    forward: bool,
) -> Option<int> {
    if forward {
        spec_scan_forward(s, loop_start, loop_end, offset, 0)
    } else {
        spec_scan_backward(s, loop_start, loop_end, offset, 0)
    }
}

/// The accumulated balance of the tokens at indices `lo <= k < hi`.
pub open spec fn spec_balance(
    s: Seq<BFToken>,
    loop_start: BFToken,
    loop_end: BFToken,
    lo: int,
    hi: int,
) -> int
    decreases hi - lo,
{
    if lo >= hi {
        0
    } else {
        token_delta(s[lo], loop_start, loop_end) + spec_balance(s, loop_start, loop_end, lo + 1, hi)
    }
}

/// Balances over adjacent ranges add up.
pub proof fn lemma_balance_split(
    s: Seq<BFToken>,
    loop_start: BFToken,
    loop_end: BFToken,
    lo: int,
    mid: int,
    hi: int,
)
    requires
        lo <= mid <= hi,
    ensures
        spec_balance(s, loop_start, loop_end, lo, hi) == spec_balance(
            s,
            loop_start,
            loop_end,
            lo,
            mid,
        ) + spec_balance(s, loop_start, loop_end, mid, hi),
    decreases mid - lo,
{
    if lo < mid {
        lemma_balance_split(s, loop_start, loop_end, lo + 1, mid, hi);
    }
}

/// The accumulated balance of the tokens at indices `lo <= k <= i`:
/// `spec_balance` with an inclusive upper end, which keeps quantified
/// statements about backward scans free of arithmetic.
pub open spec fn spec_balance_through(
    s: Seq<BFToken>,
    loop_start: BFToken,
    loop_end: BFToken,
    lo: int,
    i: int,
) -> int {
    spec_balance(s, loop_start, loop_end, lo, i + 1)
}

/// What the forward scan computes, said with balances: it returns the first
/// index `j` at or after `i` where the balance accumulated since the start
/// of the scan reaches zero, and `None` exactly when no index does.
pub proof fn lemma_scan_forward_characterizes(
    s: Seq<BFToken>,
    loop_start: BFToken,
    loop_end: BFToken,
    i: int,
    bal: int,
)
    requires
        0 <= i,
    ensures
        match spec_scan_forward(s, loop_start, loop_end, i, bal) {
            Some(j) => i <= j < s.len() && bal + spec_balance(s, loop_start, loop_end, i, j + 1)
                == 0 && (forall|m: int|
                i < m <= j ==> bal + #[trigger] spec_balance(s, loop_start, loop_end, i, m) != 0),
            None => forall|m: int|
                i < m <= s.len() ==> bal + #[trigger] spec_balance(s, loop_start, loop_end, i, m)
                    != 0,
        },
    decreases s.len() - i,
{
    if i < s.len() {
        let b = bal + token_delta(s[i], loop_start, loop_end);
        assert(spec_balance(s, loop_start, loop_end, i + 1, i + 1) == 0);
        assert(spec_balance(s, loop_start, loop_end, i, i + 1) == token_delta(
            s[i],
            loop_start,
            loop_end,
        ));
        if b != 0 {
            lemma_scan_forward_characterizes(s, loop_start, loop_end, i + 1, b);
            assert forall|m: int| i + 1 <= m <= s.len() implies bal + #[trigger] spec_balance(
                s,
                loop_start,
                loop_end,
                i,
                m,
            ) == b + spec_balance(s, loop_start, loop_end, i + 1, m) by {
                lemma_balance_split(s, loop_start, loop_end, i, i + 1, m);
            }
        }
    }
}

/// What the backward scan computes, said with balances: it returns the
/// largest index `j` at or below `i` where the balance accumulated while
/// walking down from `i` reaches zero, and `None` exactly when none does.
pub proof fn lemma_scan_backward_characterizes(
    s: Seq<BFToken>,
    loop_start: BFToken,
    loop_end: BFToken,
    i: int,
    bal: int,
)
    requires
        i < s.len(),
    ensures
        match spec_scan_backward(s, loop_start, loop_end, i, bal) {
            Some(j) => 0 <= j <= i && bal + spec_balance_through(s, loop_start, loop_end, j, i)
                == 0 && (forall|m: int|
                j < m <= i ==> bal + #[trigger] spec_balance_through(s, loop_start, loop_end, m, i)
                    != 0),
            None => forall|m: int|
                0 <= m <= i ==> bal + #[trigger] spec_balance_through(s, loop_start, loop_end, m, i)
                    != 0,
        },
    decreases i + 1,
{
    if 0 <= i {
        let b = bal + token_delta(s[i], loop_start, loop_end);
        assert(spec_balance(s, loop_start, loop_end, i + 1, i + 1) == 0);
        assert(spec_balance(s, loop_start, loop_end, i, i + 1) == token_delta(
            s[i],
            loop_start,
            loop_end,
        ));
        if b != 0 {
            lemma_scan_backward_characterizes(s, loop_start, loop_end, i - 1, b);
            match spec_scan_backward(s, loop_start, loop_end, i - 1, b) {
                Some(j) => {
                    assert(spec_balance_through(s, loop_start, loop_end, j, i - 1) == spec_balance(
                        s,
                        loop_start,
                        loop_end,
                        j,
                        i,
                    ));
                    lemma_balance_split(s, loop_start, loop_end, j, i, i + 1);
                    assert(bal + spec_balance_through(s, loop_start, loop_end, j, i) == 0);
                    assert forall|m: int| j < m <= i implies bal + #[trigger] spec_balance_through(
                        s,
                        loop_start,
                        loop_end,
                        m,
                        i,
                    ) != 0 by {
                        if m < i {
                            assert(b + spec_balance_through(s, loop_start, loop_end, m, i - 1)
                                != 0);
                            assert(spec_balance_through(s, loop_start, loop_end, m, i - 1)
                                == spec_balance(s, loop_start, loop_end, m, i));
                            lemma_balance_split(s, loop_start, loop_end, m, i, i + 1);
                        }
                    }
                },
                None => {
                    assert forall|m: int| 0 <= m <= i implies bal + #[trigger] spec_balance_through(
                        s,
                        loop_start,
                        loop_end,
                        m,
                        i,
                    ) != 0 by {
                        if m < i {
                            assert(b + spec_balance_through(s, loop_start, loop_end, m, i - 1)
                                != 0);
                            assert(spec_balance_through(s, loop_start, loop_end, m, i - 1)
                                == spec_balance(s, loop_start, loop_end, m, i));
                            lemma_balance_split(s, loop_start, loop_end, m, i, i + 1);
                        }
                    }
                },
            }
        }
    }
}

/// Matching is its own inverse: if the forward scan from `i` finds its
/// balancing partner at `j`, then the backward scan from `j` finds `i`.
pub proof fn lemma_find_matching_inverse(
    s: Seq<BFToken>,
    loop_start: BFToken,
    loop_end: BFToken,
    i: int,
    j: int,
)
    requires
        0 <= i,
        spec_find_matching(s, loop_start, loop_end, i, true) == Some(j),
    ensures
        spec_find_matching(s, loop_start, loop_end, j, false) == Some(i),
{
    lemma_scan_forward_characterizes(s, loop_start, loop_end, i, 0);
    lemma_scan_backward_characterizes(s, loop_start, loop_end, j, 0);
    assert(spec_balance_through(s, loop_start, loop_end, i, j) == spec_balance(
        s,
        loop_start,
        loop_end,
        i,
        j + 1,
    ));
    match spec_scan_backward(s, loop_start, loop_end, j, 0) {
        None => {
            assert(spec_balance_through(s, loop_start, loop_end, i, j) != 0);
            assert(false);
        },
        Some(k) => {
            if k < i {
                assert(spec_balance_through(s, loop_start, loop_end, i, j) != 0);
                assert(false);
            } else if k > i {
                lemma_balance_split(s, loop_start, loop_end, i, k, j + 1);
                assert(spec_balance_through(s, loop_start, loop_end, k, j) == spec_balance(
                    s,
                    loop_start,
                    loop_end,
                    k,
                    j + 1,
                ));
                assert(spec_balance(s, loop_start, loop_end, i, k) == 0);
                assert(false);
            }
        },
    }
}

/// Finds the index of the token that balances the bracket class at `offset`.
///
/// A signed balance starts at zero and accumulates `+1` on `loop_start` and
/// `-1` on `loop_end` while scanning from `offset` to the end
/// (`FrontToBack`) or from `offset` down to index zero (`BackToFront`); the
/// scan includes the starting token itself, and the first index at which the
/// balance returns to zero is the match.  `None` means the scan ran off the
/// sequence: the brackets are unbalanced.
pub fn find_matching(
    full_list: &Vec<BFToken>,
    loop_start: BFToken,
    loop_end: BFToken,
    offset: usize,
    order: IteratorOrder,
) -> (r: Option<usize>)
    requires
        offset < full_list@.len(),
    ensures
        match r {
            Some(j) => Some(j as int) == spec_find_matching(
                full_list@,
                loop_start,
                loop_end,
                offset as int,
                order is FrontToBack,
            ) && j < full_list@.len(),
            None => spec_find_matching(
                full_list@,
                loop_start,
                loop_end,
                offset as int,
                order is FrontToBack,
            ) is None,
        },
{
    let ghost s = full_list@;
    let mut balance: i128 = 0;
    match order {
        IteratorOrder::FrontToBack => {
            let mut idx: usize = offset;
            while idx < full_list.len()
                invariant
                    order is FrontToBack,
                    offset <= idx <= s.len(),
                    s == full_list@,
                    -(idx - offset) <= balance <= idx - offset,
                    spec_scan_forward(s, loop_start, loop_end, offset as int, 0)
                        == spec_scan_forward(s, loop_start, loop_end, idx as int, balance as int),
                decreases s.len() - idx,
            {
                let ghost prev_bal = balance as int;
                let t = full_list[idx];
                if t == loop_start {
                    balance = balance + 1;
                } else if t == loop_end {
                    balance = balance - 1;
                }
                proof {
                    assert(balance as int == prev_bal + token_delta(s[idx as int], loop_start, loop_end));
                    assert(spec_scan_forward(s, loop_start, loop_end, idx as int, prev_bal)
                        == if balance as int == 0 {
                            Some(idx as int)
                        } else {
                            spec_scan_forward(s, loop_start, loop_end, idx as int + 1, balance as int)
                        });
                }
                if balance == 0 {
                    proof {
                        assert(spec_scan_forward(s, loop_start, loop_end, offset as int, 0)
                            == Some(idx as int));
                    }
                    return Some(idx);
                }
                idx = idx + 1;
            }
            None
        },
        IteratorOrder::BackToFront => {
            let mut idx: usize = offset;
            loop
                invariant_except_break
                    -(offset - idx) <= balance <= offset - idx,
                    spec_scan_backward(s, loop_start, loop_end, offset as int, 0)
                        == spec_scan_backward(s, loop_start, loop_end, idx as int, balance as int),
                invariant
                    order is BackToFront,
                    idx <= offset < s.len(),
                    s == full_list@,
                ensures
                    spec_scan_backward(s, loop_start, loop_end, offset as int, 0) is None,
                decreases idx,
            {
                let ghost prev_bal = balance as int;
                let t = full_list[idx];
                if t == loop_start {
                    balance = balance + 1;
                } else if t == loop_end {
                    balance = balance - 1;
                }
                proof {
                    assert(balance as int == prev_bal + token_delta(s[idx as int], loop_start, loop_end));
                    assert(spec_scan_backward(s, loop_start, loop_end, idx as int, prev_bal)
                        == if balance as int == 0 {
                            Some(idx as int)
                        } else {
                            spec_scan_backward(s, loop_start, loop_end, idx as int - 1, balance as int)
                        });
                }
                if balance == 0 {
                    proof {
                        assert(spec_scan_backward(s, loop_start, loop_end, offset as int, 0)
                            == Some(idx as int));
                    }
                    return Some(idx);
                }
                if idx == 0 {
                    break;
                }
                idx = idx - 1;
            }
            None
        },
    }
}

/// The contribution of the character pair at even index `i` to the nesting
/// balance: `+1` when it spells the opening pair, `-1` for the closing
/// pair, `0` for anything else.
pub open spec fn pair_delta(s: Seq<char>, i: int, a0: char, a1: char, b0: char, b1: char) -> int {
    if s[i] == a0 && s[i + 1] == a1 {
        1
    } else if s[i] == b0 && s[i + 1] == b1 {
        -1
    } else {
        0
    }
}

/// The scan that `find_matching_substring` performs front to back: walk the
/// indices upward, let the character pair at each even index contribute its
/// delta, and stop at the first even index where the balance reaches zero.
pub open spec fn spec_scan_pairs_forward(
    s: Seq<char>,
    a0: char,
    a1: char,
    b0: char,
    b1: char,
    i: int,
    bal: int,
) -> Option<int>
    decreases s.len() - i,
{
    if i < 0 || i >= s.len() {
        None
    } else if i % 2 != 0 {
        spec_scan_pairs_forward(s, a0, a1, b0, b1, i + 1, bal)
    } else {
        let b = bal + pair_delta(s, i, a0, a1, b0, b1);
        if b == 0 {
            Some(i)
        } else {
            spec_scan_pairs_forward(s, a0, a1, b0, b1, i + 1, b)
        }
    }
}

/// The scan that `find_matching_substring` performs back to front.
pub open spec fn spec_scan_pairs_backward(
    s: Seq<char>,
    a0: char,
    a1: char,
    b0: char,
    b1: char,
    i: int,
    bal: int,
) -> Option<int>
    decreases i + 1,
{
    if i < 0 || i >= s.len() {
        None
    } else if i % 2 != 0 {
        spec_scan_pairs_backward(s, a0, a1, b0, b1, i - 1, bal)
    } else {
        let b = bal + pair_delta(s, i, a0, a1, b0, b1);
        if b == 0 {
            Some(i)
        } else {
            spec_scan_pairs_backward(s, a0, a1, b0, b1, i - 1, b)
        }
    }
}

/// What `find_matching_substring` returns for each direction.
pub open spec fn spec_find_matching_substring(
    s: Seq<char>,
    start: Seq<char>,
    end: Seq<char>,
    offset: int,
    forward: bool,
) -> Option<int> {
    if forward {
        spec_scan_pairs_forward(s, start[0], start[1], end[0], end[1], offset, 0)
    } else {
        spec_scan_pairs_backward(s, start[0], start[1], end[0], end[1], offset, 0)
    }
}

/// Finds the index of the two-character bracket pair that balances the pair
/// class at `offset`, for dialects that spell a token with two characters.
///
/// Only indices aligned to the two-character grid are examined; at each, the
/// pair of characters starting there contributes `+1` when it spells
/// `substr_start`, `-1` when it spells `substr_end`.  The first aligned
/// index at which the balance reaches zero is the match; `None` means the
/// brackets are unbalanced.
pub fn find_matching_substring(
    full_list: &Vec<char>,
    substr_start: &str,
    substr_end: &str,
    offset: usize,
    order: IteratorOrder,
) -> (r: Option<usize>)
    requires
        substr_start@.len() == 2,
        substr_end@.len() == 2,
        full_list@.len() % 2 == 0,
        offset < full_list@.len(),
    ensures
        match r {
            Some(j) => Some(j as int) == spec_find_matching_substring(
                full_list@,
                substr_start@,
                substr_end@,
                offset as int,
                order is FrontToBack,
            ) && j < full_list@.len(),
            None => spec_find_matching_substring(
                full_list@,
                substr_start@,
                substr_end@,
                offset as int,
                order is FrontToBack,
            ) is None,
        },
{
    let ghost s = full_list@;
    let a0 = substr_start.get_char(0);
    let a1 = substr_start.get_char(1);
    let b0 = substr_end.get_char(0);
    let b1 = substr_end.get_char(1);
    let mut balance: i128 = 0;
    match order {
        IteratorOrder::FrontToBack => {
            let mut idx: usize = offset;
            while idx < full_list.len()
                invariant
                    order is FrontToBack,
                    offset <= idx <= s.len(),
                    s == full_list@,
                    s.len() % 2 == 0,
                    a0 == substr_start@[0] && a1 == substr_start@[1],
                    b0 == substr_end@[0] && b1 == substr_end@[1],
                    -(idx - offset) <= balance <= idx - offset,
                    spec_scan_pairs_forward(s, a0, a1, b0, b1, offset as int, 0)
                        == spec_scan_pairs_forward(s, a0, a1, b0, b1, idx as int, balance as int),
                decreases s.len() - idx,
            {
                let ghost prev_bal = balance as int;
                if idx % 2 == 0 {
                    let c0 = full_list[idx];
                    let c1 = full_list[idx + 1];
                    if c0 == a0 && c1 == a1 {
                        balance = balance + 1;
                    } else if c0 == b0 && c1 == b1 {
                        balance = balance - 1;
                    }
                    proof {
                        assert(balance as int == prev_bal + pair_delta(s, idx as int, a0, a1, b0, b1));
                        assert(spec_scan_pairs_forward(s, a0, a1, b0, b1, idx as int, prev_bal)
                            == if balance as int == 0 {
                                Some(idx as int)
                            } else {
                                spec_scan_pairs_forward(
                                    s,
                                    a0,
                                    a1,
                                    b0,
                                    b1,
                                    idx as int + 1,
                                    balance as int,
                                )
                            });
                    }
                    if balance == 0 {
                        return Some(idx);
                    }
                } else {
                    proof {
                        assert(spec_scan_pairs_forward(s, a0, a1, b0, b1, idx as int, prev_bal)
                            == spec_scan_pairs_forward(s, a0, a1, b0, b1, idx as int + 1, prev_bal));
                    }
                }
                idx = idx + 1;
            }
            None
        },
        IteratorOrder::BackToFront => {
            let mut idx: usize = offset;
            loop
                invariant_except_break
                    -(offset - idx) <= balance <= offset - idx,
                    spec_scan_pairs_backward(s, a0, a1, b0, b1, offset as int, 0)
                        == spec_scan_pairs_backward(s, a0, a1, b0, b1, idx as int, balance as int),
                invariant
                    order is BackToFront,
                    idx <= offset < s.len(),
                    s == full_list@,
                    s.len() % 2 == 0,
                    a0 == substr_start@[0] && a1 == substr_start@[1],
                    b0 == substr_end@[0] && b1 == substr_end@[1],
                ensures
                    spec_scan_pairs_backward(s, a0, a1, b0, b1, offset as int, 0) is None,
                decreases idx,
            {
                let ghost prev_bal = balance as int;
                if idx % 2 == 0 {
                    let c0 = full_list[idx];
                    let c1 = full_list[idx + 1];
                    if c0 == a0 && c1 == a1 {
                        balance = balance + 1;
                    } else if c0 == b0 && c1 == b1 {
                        balance = balance - 1;
                    }
                    proof {
                        assert(balance as int == prev_bal + pair_delta(s, idx as int, a0, a1, b0, b1));
                        assert(spec_scan_pairs_backward(s, a0, a1, b0, b1, idx as int, prev_bal)
                            == if balance as int == 0 {
                                Some(idx as int)
                            } else {
                                spec_scan_pairs_backward(
                                    s,
                                    a0,
                                    a1,
                                    b0,
                                    b1,
                                    idx as int - 1,
                                    balance as int,
                                )
                            });
                    }
                    if balance == 0 {
                        return Some(idx);
                    }
                } else {
                    proof {
                        assert(spec_scan_pairs_backward(s, a0, a1, b0, b1, idx as int, prev_bal)
                            == spec_scan_pairs_backward(s, a0, a1, b0, b1, idx as int - 1, prev_bal));
                    }
                }
                if idx == 0 {
                    break;
                }
                idx = idx - 1;
            }
            None
        },
    }
}

} // verus!
