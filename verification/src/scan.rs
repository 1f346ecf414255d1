//! Looking ahead over tokens.

use vstd::prelude::*;
use crate::lexer::{tokens_view, Token, TokenKind, TokenV};
use crate::lint::less_one;

verus! {

/// The kind of the token at a position.
pub open spec fn kind_at(ts: Seq<TokenV>, i: int) -> Option<TokenKind> {
    if 0 <= i < ts.len() {
        Some(ts[i].kind)
    } else {
        None
    }
}

/// Whether a token of a kind stands at a position.
pub open spec fn is_kind(ts: Seq<TokenV>, i: int, kind: TokenKind) -> bool {
    0 <= i < ts.len() && ts[i].kind == kind
}

pub fn peek_kind_at(tokens: &Vec<Token>, i: usize) -> (r: Option<TokenKind>)
    ensures
        r == kind_at(tokens_view(tokens@), i as int),
{
    if i < tokens.len() {
        Some(tokens[i].kind)
    } else {
        None
    }
}

pub fn check_kind_at(tokens: &Vec<Token>, i: usize, kind: TokenKind) -> (r: bool)
    ensures
        r == is_kind(tokens_view(tokens@), i as int, kind),
{
    i < tokens.len() && tokens[i].kind == kind
}

/// Whether a condition that starts before position `i` is followed by `=>`, as in a
/// conditional expression, rather than by a block.
pub open spec fn arrow_follows(
    ts: Seq<TokenV>,
    i: int,
    parens: nat,
    brackets: nat,
    braces: nat,
) -> bool
    decreases ts.len() - i,
{
    if i < 0 || i >= ts.len() {
        false
    } else {
        let k = ts[i].kind;
        let flat = parens == 0 && brackets == 0 && braces == 0;
        if k == TokenKind::LParen {
            arrow_follows(ts, i + 1, parens + 1, brackets, braces)
        } else if k == TokenKind::RParen {
            arrow_follows(ts, i + 1, less_one(parens), brackets, braces)
        } else if k == TokenKind::LBracket {
            arrow_follows(ts, i + 1, parens, brackets + 1, braces)
        } else if k == TokenKind::RBracket {
            arrow_follows(ts, i + 1, parens, less_one(brackets), braces)
        } else if k == TokenKind::LBrace {
            !flat && arrow_follows(ts, i + 1, parens, brackets, braces + 1)
        } else if k == TokenKind::RBrace {
            braces > 0 && arrow_follows(ts, i + 1, parens, brackets, (braces - 1) as nat)
        } else if flat && k == TokenKind::FatArrow {
            true
        } else if flat && (k == TokenKind::Semicolon || k == TokenKind::Eof) {
            false
        } else {
            arrow_follows(ts, i + 1, parens, brackets, braces)
        }
    }
}

/// Whether an `if` at a position starts a conditional expression.
pub open spec fn if_is_expression(ts: Seq<TokenV>, i: int) -> bool {
    is_kind(ts, i, TokenKind::If) && arrow_follows(ts, i + 1, 0, 0, 0)
}

pub fn check_if_expression_start(tokens: &Vec<Token>, index: usize) -> (r: bool)
    ensures
        r == if_is_expression(tokens_view(tokens@), index as int),
{
    let ghost ts = tokens_view(tokens@);
    if !check_kind_at(tokens, index, TokenKind::If) {
        return false;
    }
    let total: usize = tokens.len();
    let mut i: usize = index + 1;
    let mut parens: usize = 0;
    let mut brackets: usize = 0;
    let mut braces: usize = 0;
    while i < total
        invariant
            index < i <= tokens@.len(),
            total == tokens@.len(),
            ts == tokens_view(tokens@),
            is_kind(ts, index as int, TokenKind::If),
            parens < i,
            brackets < i,
            braces < i,
            arrow_follows(ts, index + 1, 0, 0, 0) == arrow_follows(
                ts,
                i as int,
                parens as nat,
                brackets as nat,
                braces as nat,
            ),
        decreases tokens@.len() - i,
    {
        let k = tokens[i].kind;
        let flat = parens == 0 && brackets == 0 && braces == 0;
        if k == TokenKind::LParen {
            parens += 1;
        } else if k == TokenKind::RParen {
            if parens > 0 {
                parens -= 1;
            }
        } else if k == TokenKind::LBracket {
            brackets += 1;
        } else if k == TokenKind::RBracket {
            if brackets > 0 {
                brackets -= 1;
            }
        } else if k == TokenKind::LBrace {
            if flat {
                return false;
            }
            braces += 1;
        } else if k == TokenKind::RBrace {
            if braces == 0 {
                return false;
            }
            braces -= 1;
        } else if flat && k == TokenKind::FatArrow {
            return true;
        } else if flat && (k == TokenKind::Semicolon || k == TokenKind::Eof) {
            return false;
        }
        i += 1;
    }
    false
}

/// Whether the bracket group that is open at position `i` is followed by one of two
/// kinds of token.
pub open spec fn bracket_followed_by(
    ts: Seq<TokenV>,
    i: int,
    depth: nat,
    a: TokenKind,
    b: TokenKind,
) -> bool
    decreases ts.len() - i,
{
    if i < 0 || i >= ts.len() {
        false
    } else {
        let k = ts[i].kind;
        if k == TokenKind::LBracket {
            bracket_followed_by(ts, i + 1, depth + 1, a, b)
        } else if k == TokenKind::RBracket {
            if less_one(depth) == 0 {
                is_kind(ts, i + 1, a) || is_kind(ts, i + 1, b)
            } else {
                bracket_followed_by(ts, i + 1, less_one(depth), a, b)
            }
        } else if k == TokenKind::Eof {
            false
        } else {
            bracket_followed_by(ts, i + 1, depth, a, b)
        }
    }
}

pub fn check_bracket_followed_by(
    tokens: &Vec<Token>,
    start: usize,
    a: TokenKind,
    b: TokenKind,
) -> (r:
    bool)
    ensures
        r == bracket_followed_by(tokens_view(tokens@), start as int, 0, a, b),
{
    let ghost ts = tokens_view(tokens@);
    let mut depth: usize = 0;
    let mut i: usize = start;
    while i < tokens.len()
        invariant
            start <= i,
            i <= tokens@.len() || i == start,
            ts == tokens_view(tokens@),
            depth <= i,
            bracket_followed_by(ts, start as int, 0, a, b) == bracket_followed_by(
                ts,
                i as int,
                depth as nat,
                a,
                b,
            ),
        decreases tokens@.len() - i,
    {
        let k = tokens[i].kind;
        if k == TokenKind::LBracket {
            depth += 1;
        } else if k == TokenKind::RBracket {
            if depth > 0 {
                depth -= 1;
            }
            if depth == 0 {
                return check_kind_at(tokens, i + 1, a) || check_kind_at(tokens, i + 1, b);
            }
        } else if k == TokenKind::Eof {
            return false;
        }
        i += 1;
    }
    false
}

} // verus!
