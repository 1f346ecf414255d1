//! What the grammar is for: which tree a run of tokens is read as.

use vstd::prelude::*;
use crate::builtins::{builtin_index, BuiltinFunction};
use crate::grammar::{
    args_rest, array_literal, array_rest, assign, block, call_args, else_branch, if_stmt, immutable,
    loop_body, while_stmt, let_mutability, let_name, let_slot, let_stmt, let_struct, terminator,
    value, and_expr, and_rest, at, comparison, comparison_rest, compared, expect, expr, factor,
    factor_rest, get_local, named, or_expr, or_rest, plain_name, postfix, prefixed, primary, skip,
    term, term_rest, unary_expr, undotted, ParV, Parsed,
};
use crate::ir::{BinOp, ExprV, StmtV, UnOp};
use crate::lexer::TokenKind;

verus! {

// ---------------------------------------------------------------------------
// Operators.

/// The tree of a binary operation.
pub open spec fn operation(op: BinOp, l: ExprV, r: ExprV) -> ExprV {
    ExprV::Binary(op, Box::new(l), Box::new(r))
}

/// `*`, `/` and `%` between operands: the product, the quotient and the remainder of what stands
/// before and behind them, grouped to the left. Without them an operand stands for itself.
pub proof fn law_factors(s: ParV, l: ExprV, s1: ParV, r: ExprV, s2: ParV, b: nat)
    requires
        b > 0,
        unary_expr(s, b) == Parsed::<ExprV>::Ok((l, s1)),
    ensures
        !at(s1, TokenKind::Star) && !at(s1, TokenKind::Slash) && !at(s1, TokenKind::Percent)
            ==> factor(s, b) == Parsed::<ExprV>::Ok((l, s1)),
        unary_expr(skip(s1, 1), b) == Parsed::<ExprV>::Ok((r, s2)) ==> {
            &&& at(s1, TokenKind::Star) ==> factor(s, b) == factor_rest(
                s2,
                operation(BinOp::Mul, l, r),
                (b - 1) as nat,
            )
            &&& at(s1, TokenKind::Slash) ==> factor(s, b) == factor_rest(
                s2,
                operation(BinOp::Div, l, r),
                (b - 1) as nat,
            )
            &&& at(s1, TokenKind::Percent) ==> factor(s, b) == factor_rest(
                s2,
                operation(BinOp::Mod, l, r),
                (b - 1) as nat,
            )
        },
        !at(s2, TokenKind::Star) && !at(s2, TokenKind::Slash) && !at(s2, TokenKind::Percent)
            ==> factor_rest(s2, r, (b - 1) as nat) == Parsed::<ExprV>::Ok((r, s2)),
{
}

/// `+` and `-` between factors: the sum and the difference of what stands before and behind
/// them, grouped to the left.
pub proof fn law_terms(s: ParV, l: ExprV, s1: ParV, r: ExprV, s2: ParV, b: nat)
    requires
        b > 0,
        factor(s, b) == Parsed::<ExprV>::Ok((l, s1)),
    ensures
        !at(s1, TokenKind::Plus) && !at(s1, TokenKind::Minus) ==> term(s, b) == Parsed::<ExprV>::Ok(
            (l, s1),
        ),
        factor(skip(s1, 1), b) == Parsed::<ExprV>::Ok((r, s2)) ==> {
            &&& at(s1, TokenKind::Plus) ==> term(s, b) == term_rest(
                s2,
                operation(BinOp::Add, l, r),
                (b - 1) as nat,
            )
            &&& at(s1, TokenKind::Minus) ==> term(s, b) == term_rest(
                s2,
                operation(BinOp::Sub, l, r),
                (b - 1) as nat,
            )
        },
        !at(s2, TokenKind::Plus) && !at(s2, TokenKind::Minus) ==> term_rest(
            s2,
            r,
            (b - 1) as nat,
        ) == Parsed::<ExprV>::Ok((r, s2)),
{
}

/// `==`, `!=`, `<` and `>` between terms: whether what stands before and behind them is equal,
/// is not, is smaller, is larger.
pub proof fn law_comparisons(s: ParV, l: ExprV, s1: ParV, r: ExprV, s2: ParV, b: nat)
    requires
        b > 0,
        term(s, b) == Parsed::<ExprV>::Ok((l, s1)),
    ensures
        !at(s1, TokenKind::EqualEqual) && !at(s1, TokenKind::BangEqual) && !at(s1, TokenKind::Less)
            && !at(s1, TokenKind::LessEqual) && !at(s1, TokenKind::Greater) && !at(
            s1,
            TokenKind::GreaterEqual,
        ) ==> comparison(s, b) == Parsed::<ExprV>::Ok((l, s1)),
        term(skip(s1, 1), b) == Parsed::<ExprV>::Ok((r, s2)) ==> {
            &&& at(s1, TokenKind::EqualEqual) ==> comparison(s, b) == comparison_rest(
                s2,
                operation(BinOp::Eq, l, r),
                (b - 1) as nat,
            )
            &&& at(s1, TokenKind::BangEqual) ==> comparison(s, b) == comparison_rest(
                s2,
                ExprV::Unary(UnOp::Not, Box::new(operation(BinOp::Eq, l, r))),
                (b - 1) as nat,
            )
            &&& at(s1, TokenKind::Less) ==> comparison(s, b) == comparison_rest(
                s2,
                operation(BinOp::Lt, l, r),
                (b - 1) as nat,
            )
            &&& at(s1, TokenKind::Greater) ==> comparison(s, b) == comparison_rest(
                s2,
                operation(BinOp::Gt, l, r),
                (b - 1) as nat,
            )
        },
        !at(s2, TokenKind::EqualEqual) && !at(s2, TokenKind::BangEqual) && !at(s2, TokenKind::Less)
            && !at(s2, TokenKind::LessEqual) && !at(s2, TokenKind::Greater) && !at(
            s2,
            TokenKind::GreaterEqual,
        ) ==> comparison_rest(s2, r, (b - 1) as nat) == Parsed::<ExprV>::Ok((r, s2)),
{
    reveal(compared);
}

/// `&&` between comparisons and `||` between those, grouped to the left.
pub proof fn law_connectives(s: ParV, l: ExprV, s1: ParV, r: ExprV, s2: ParV, b: nat)
    requires
        b > 0,
    ensures
        comparison(s, b) == Parsed::<ExprV>::Ok((l, s1)) ==> {
            &&& !at(s1, TokenKind::AmpersandAmpersand) ==> and_expr(s, b) == Parsed::<ExprV>::Ok(
                (l, s1),
            )
            &&& at(s1, TokenKind::AmpersandAmpersand) && comparison(skip(s1, 1), b) == Parsed::<
                ExprV,
            >::Ok((r, s2)) ==> and_expr(s, b) == and_rest(
                s2,
                operation(BinOp::And, l, r),
                (b - 1) as nat,
            )
        },
        and_expr(s, b) == Parsed::<ExprV>::Ok((l, s1)) ==> {
            &&& !at(s1, TokenKind::PipePipe) ==> or_expr(s, b) == Parsed::<ExprV>::Ok((l, s1))
            &&& at(s1, TokenKind::PipePipe) && and_expr(skip(s1, 1), b) == Parsed::<ExprV>::Ok(
                (r, s2),
            ) ==> or_expr(s, b) == or_rest(s2, operation(BinOp::Or, l, r), (b - 1) as nat)
        },
        !at(s2, TokenKind::AmpersandAmpersand) ==> and_rest(s2, r, (b - 1) as nat) == Parsed::<
            ExprV,
        >::Ok((r, s2)),
        !at(s2, TokenKind::PipePipe) ==> or_rest(s2, r, (b - 1) as nat) == Parsed::<ExprV>::Ok(
            (r, s2),
        ),
{
}

/// `-`, `!` and `&` before an operand: its opposite, its negation, and a loan of it. The
/// magnitude of the least integer is a number only behind a minus sign.
pub proof fn law_prefixes(s: ParV, e: ExprV, s1: ParV, b: nat)
    requires
        b > 0,
    ensures
        at(s, TokenKind::Minus) && crate::grammar::ahead(s, 1, TokenKind::IntMinMagnitude)
            && !crate::grammar::word_ahead(s, 0, "typeof"@) ==> unary_expr(s, b) == Parsed::<
            ExprV,
        >::Ok((ExprV::Int(i64::MIN), skip(s, 2))),
        unary_expr(skip(s, 1), (b - 1) as nat) == Parsed::<ExprV>::Ok((e, s1)) ==> {
            &&& at(s, TokenKind::Minus) && !crate::grammar::ahead(s, 1, TokenKind::IntMinMagnitude)
                ==> unary_expr(s, b) == Parsed::<ExprV>::Ok(
                (ExprV::Unary(UnOp::Neg, Box::new(e)), s1),
            )
            &&& at(s, TokenKind::Bang) ==> unary_expr(s, b) == Parsed::<ExprV>::Ok(
                (ExprV::Unary(UnOp::Not, Box::new(e)), s1),
            )
            &&& at(s, TokenKind::Ampersand) && !crate::grammar::word_ahead(s, 1, "mut"@)
                ==> unary_expr(s, b) == Parsed::<ExprV>::Ok(
                (ExprV::Unary(UnOp::Borrow, Box::new(e)), s1),
            )
        },
{
    let c = (b - 1) as nat;
    if unary_expr(skip(s, 1), c) == Parsed::<ExprV>::Ok((e, s1)) {
        assert(prefixed(UnOp::Neg, skip(s, 1), c) == Parsed::<ExprV>::Ok(
            (ExprV::Unary(UnOp::Neg, Box::new(e)), s1),
        ));
        assert(prefixed(UnOp::Not, skip(s, 1), c) == Parsed::<ExprV>::Ok(
            (ExprV::Unary(UnOp::Not, Box::new(e)), s1),
        ));
        assert(prefixed(UnOp::Borrow, skip(s, 1), c) == Parsed::<ExprV>::Ok(
            (ExprV::Unary(UnOp::Borrow, Box::new(e)), s1),
        ));
    }
}

/// Literals stand for themselves, and what is in parentheses for what it is without them.
pub proof fn law_operands(s: ParV, e: ExprV, s1: ParV, b: nat)
    requires
        b > 0,
    ensures
        at(s, TokenKind::True) ==> unary_expr(s, b) == Parsed::<ExprV>::Ok(
            (ExprV::Bool(true), skip(s, 1)),
        ),
        at(s, TokenKind::False) ==> unary_expr(s, b) == Parsed::<ExprV>::Ok(
            (ExprV::Bool(false), skip(s, 1)),
        ),
        at(s, TokenKind::Null) ==> unary_expr(s, b) == Parsed::<ExprV>::Ok(
            (ExprV::Null, skip(s, 1)),
        ),
        at(s, TokenKind::Int) ==> unary_expr(s, b) == Parsed::<ExprV>::Ok(
            (ExprV::Int(s.ts[s.pos].number), skip(s, 1)),
        ),
        at(s, TokenKind::Float) ==> unary_expr(s, b) == Parsed::<ExprV>::Ok(
            (ExprV::Float(s.ts[s.pos].text), skip(s, 1)),
        ),
        at(s, TokenKind::String) ==> unary_expr(s, b) == Parsed::<ExprV>::Ok(
            (ExprV::Str(s.ts[s.pos].text), skip(s, 1)),
        ),
        at(s, TokenKind::LParen) && !s.config.dialect.allow_arrow_closure && expr(skip(s, 1), b)
            == Parsed::<ExprV>::Ok((e, s1)) && at(s1, TokenKind::RParen) && !at(
            skip(s1, 1),
            TokenKind::LBracket,
        ) && !at(skip(s1, 1), TokenKind::Dot) && !at(skip(s1, 1), TokenKind::Question)
            ==> unary_expr(s, b) == Parsed::<ExprV>::Ok((e, skip(s1, 1))),
{
    reveal(expect);
    if at(s, TokenKind::True) || at(s, TokenKind::False) || at(s, TokenKind::Null) || at(
        s,
        TokenKind::Int,
    ) || at(s, TokenKind::Float) || at(s, TokenKind::String) || at(s, TokenKind::LParen) {
        assert(unary_expr(s, b) == primary(s, b));
    }
    let after = skip(s1, 1);
    if !at(after, TokenKind::LBracket) && !at(after, TokenKind::Dot) && !at(
        after,
        TokenKind::Question,
    ) {
        assert(postfix(after, e, b) == Parsed::<ExprV>::Ok((e, after)));
    }
}

// ---------------------------------------------------------------------------
// Reading what was written.

/// The token that an operator is written as.
pub open spec fn operator_token(op: BinOp) -> TokenKind {
    match op {
        BinOp::Add => TokenKind::Plus,
        BinOp::Sub => TokenKind::Minus,
        BinOp::Mul => TokenKind::Star,
        BinOp::Div => TokenKind::Slash,
        BinOp::Mod => TokenKind::Percent,
        BinOp::And => TokenKind::AmpersandAmpersand,
        BinOp::Or => TokenKind::PipePipe,
        BinOp::Eq => TokenKind::EqualEqual,
        BinOp::Lt => TokenKind::Less,
        BinOp::Gt => TokenKind::Greater,
    }
}

/// The token that an operator before its operand is written as.
pub open spec fn prefix_token(op: UnOp) -> TokenKind {
    match op {
        UnOp::Neg => TokenKind::Minus,
        UnOp::Not => TokenKind::Bang,
        _ => TokenKind::Ampersand,
    }
}

/// A parser at a position.
pub open spec fn moved(s: ParV, p: int) -> ParV {
    ParV { pos: p, ..s }
}

/// The number of tokens that an expression is written with.
pub open spec fn width(e: ExprV) -> int
    decreases e,
{
    match e {
        ExprV::Binary(_, l, r) => width(*l) + width(*r) + 3,
        ExprV::Unary(_, x) => width(*x) + 3,
        _ => 1,
    }
}

/// How deep the parentheses of an expression go.
pub open spec fn height(e: ExprV) -> nat
    decreases e,
{
    match e {
        ExprV::Binary(_, l, r) => 2 + (if height(*l) >= height(*r) {
            height(*l)
        } else {
            height(*r)
        }),
        ExprV::Unary(_, x) => 2 + height(*x),
        _ => 0,
    }
}

/// Whether the tokens from a position on are an expression as it is written: literals and names
/// as they are, everything else in parentheses, with each operator between or before what it
/// is applied to.
pub open spec fn written(s: ParV, p: int, e: ExprV) -> bool
    decreases e,
{
    match e {
        ExprV::Null => at(moved(s, p), TokenKind::Null),
        ExprV::Bool(v) => at(
            moved(s, p),
            if v {
                TokenKind::True
            } else {
                TokenKind::False
            },
        ),
        ExprV::Int(v) => at(moved(s, p), TokenKind::Int) && s.ts[p].number == v,
        ExprV::Float(t) => at(moved(s, p), TokenKind::Float) && s.ts[p].text == t,
        ExprV::Str(t) => at(moved(s, p), TokenKind::String) && s.ts[p].text == t,
        ExprV::Var(slot) => {
            let name = s.ts[p].text;
            &&& at(moved(s, p), TokenKind::Ident)
            &&& s.names.has_binding(name)
            &&& get_local(moved(s, p + 1), name) == Parsed::<u16>::Ok((slot, moved(s, p + 1)))
            &&& name != "mut"@ && name != "return"@
        },
        ExprV::Binary(op, l, r) => {
            &&& at(moved(s, p), TokenKind::LParen)
            &&& written(s, p + 1, *l)
            &&& at(moved(s, p + 1 + width(*l)), operator_token(op))
            &&& written(s, p + 2 + width(*l), *r)
            &&& at(moved(s, p + 2 + width(*l) + width(*r)), TokenKind::RParen)
        },
        ExprV::Unary(op, x) => {
            &&& op is Neg || op is Not || op is Borrow
            &&& at(moved(s, p), TokenKind::LParen)
            &&& at(moved(s, p + 1), prefix_token(op))
            &&& written(s, p + 2, *x)
            &&& at(moved(s, p + 2 + width(*x)), TokenKind::RParen)
        },
        _ => false,
    }
}

/// Whether what stands at a position is no part of the operand before it.
pub open spec fn ends_operand(s: ParV) -> bool {
    !at(s, TokenKind::LParen) && !at(s, TokenKind::Colon) && !at(s, TokenKind::Dot) && !at(
        s,
        TokenKind::LBracket,
    ) && !at(s, TokenKind::Question) && !at(s, TokenKind::Bang) && !at(s, TokenKind::Equal)
}

/// Whether what stands at a position is no operator between operands.
pub open spec fn ends_operation(s: ParV) -> bool {
    !at(s, TokenKind::Star) && !at(s, TokenKind::Slash) && !at(s, TokenKind::Percent) && !at(
        s,
        TokenKind::Plus,
    ) && !at(s, TokenKind::Minus) && !at(s, TokenKind::EqualEqual) && !at(s, TokenKind::BangEqual)
        && !at(s, TokenKind::Less) && !at(s, TokenKind::LessEqual) && !at(s, TokenKind::Greater)
        && !at(s, TokenKind::GreaterEqual) && !at(s, TokenKind::AmpersandAmpersand) && !at(
        s,
        TokenKind::PipePipe,
    )
}

/// Whether a language reads names and parentheses in the common way.
pub open spec fn is_common(s: ParV) -> bool {
    !s.config.dialect.allow_arrow_closure && !s.config.dialect.allow_dotted_call
        && !s.config.dialect.allow_typeof_operator
}

/// An operand with no operator behind it is a whole expression.
proof fn lemma_operand_alone(s: ParV, e: ExprV, s1: ParV, b: nat)
    requires
        b > 0,
        unary_expr(s, b) == Parsed::<ExprV>::Ok((e, s1)),
        ends_operation(s1),
    ensures
        factor(s, b) == Parsed::<ExprV>::Ok((e, s1)),
        term(s, b) == Parsed::<ExprV>::Ok((e, s1)),
        comparison(s, b) == Parsed::<ExprV>::Ok((e, s1)),
        and_expr(s, b) == Parsed::<ExprV>::Ok((e, s1)),
        or_expr(s, b) == Parsed::<ExprV>::Ok((e, s1)),
        expr(s, b + 1) == Parsed::<ExprV>::Ok((e, s1)),
{
    law_factors(s, e, s1, e, s1, b);
    law_terms(s, e, s1, e, s1, b);
    law_comparisons(s, e, s1, e, s1, b);
    law_connectives(s, e, s1, e, s1, b);
}

/// Two operands with one operator between them and none behind are its operation.
proof fn lemma_operands_with_operator(
    s: ParV,
    op: BinOp,
    l: ExprV,
    s1: ParV,
    r: ExprV,
    s2: ParV,
    b: nat,
)
    requires
        b > 0,
        unary_expr(s, b) == Parsed::<ExprV>::Ok((l, s1)),
        at(s1, operator_token(op)),
        unary_expr(skip(s1, 1), b) == Parsed::<ExprV>::Ok((r, s2)),
        ends_operation(s2),
    ensures
        or_expr(s, b) == Parsed::<ExprV>::Ok((operation(op, l, r), s2)),
{
    let e = operation(op, l, r);
    let t = skip(s1, 1);
    lemma_operand_alone(t, r, s2, b);
    law_factors(s, l, s1, r, s2, b);
    law_factors(s, l, s1, e, s2, b);
    if op is Mul || op is Div || op is Mod {
        assert(factor(s, b) == Parsed::<ExprV>::Ok((e, s2)));
        law_terms(s, e, s2, e, s2, b);
        law_comparisons(s, e, s2, e, s2, b);
        law_connectives(s, e, s2, e, s2, b);
    } else {
        assert(factor(s, b) == Parsed::<ExprV>::Ok((l, s1)));
        law_terms(s, l, s1, r, s2, b);
        law_terms(s, l, s1, e, s2, b);
        if op is Add || op is Sub {
            assert(term(s, b) == Parsed::<ExprV>::Ok((e, s2)));
            law_comparisons(s, e, s2, e, s2, b);
            law_connectives(s, e, s2, e, s2, b);
        } else {
            assert(term(s, b) == Parsed::<ExprV>::Ok((l, s1)));
            law_comparisons(s, l, s1, r, s2, b);
            law_comparisons(s, l, s1, e, s2, b);
            if op is Eq || op is Lt || op is Gt {
                assert(comparison(s, b) == Parsed::<ExprV>::Ok((e, s2)));
                law_connectives(s, e, s2, e, s2, b);
            } else {
                assert(comparison(s, b) == Parsed::<ExprV>::Ok((l, s1)));
                law_connectives(s, l, s1, r, s2, b);
                law_connectives(s, l, s1, e, s2, b);
                law_connectives(s, e, s2, e, s2, b);
            }
        }
    }
}

/// What is in parentheses is the expression there.
proof fn lemma_parentheses(s: ParV, p: int, e: ExprV, q: int, b: nat)
    requires
        is_common(s),
        b > 0,
        at(moved(s, p), TokenKind::LParen),
        or_expr(moved(s, p + 1), (b - 1) as nat) == Parsed::<ExprV>::Ok((e, moved(s, q))),
        at(moved(s, q), TokenKind::RParen),
        ends_operand(moved(s, q + 1)),
    ensures
        unary_expr(moved(s, p), b) == Parsed::<ExprV>::Ok((e, moved(s, q + 1))),
{
    let here = moved(s, p);
    assert(skip(here, 1) == moved(s, p + 1));
    assert(expr(moved(s, p + 1), b) == Parsed::<ExprV>::Ok((e, moved(s, q))));
    assert(skip(moved(s, q), 1) == moved(s, q + 1));
    law_operands(here, e, moved(s, q), b);
}

/// A name that stands for a local is that local.
proof fn lemma_name(s: ParV, p: int, slot: u16, b: nat)
    requires
        is_common(s),
        b > 0,
        written(s, p, ExprV::Var(slot)),
        ends_operand(moved(s, p + 1)),
    ensures
        unary_expr(moved(s, p), b) == Parsed::<ExprV>::Ok((ExprV::Var(slot), moved(s, p + 1))),
{
    let here = moved(s, p);
    let next = moved(s, p + 1);
    let name = s.ts[p].text;
    assert(skip(here, 1) == next);
    assert(unary_expr(here, b) == primary(here, b));
    assert(primary(here, b) == named(next, name, b));
    assert(named(next, name, b) == undotted(next, name, b));
    assert(plain_name(next, name, b) == Parsed::<ExprV>::Ok((ExprV::Var(slot), next)));
    assert(postfix(next, ExprV::Var(slot), b) == Parsed::<ExprV>::Ok((ExprV::Var(slot), next)));
}

/// Whether a position reads as an expression: as an operand, and as a whole where no operator
/// follows.
pub open spec fn reads(s: ParV, p: int, e: ExprV, b: nat) -> bool {
    unary_expr(moved(s, p), b) == Parsed::<ExprV>::Ok((e, moved(s, p + width(e))))
}

proof fn lemma_operation_back(s: ParV, p: int, op: BinOp, l: ExprV, r: ExprV, b: nat)
    requires
        is_common(s),
        b > 1,
        written(s, p, operation(op, l, r)),
        ends_operand(moved(s, p + width(operation(op, l, r)))),
        reads(s, p + 1, l, (b - 1) as nat),
        reads(s, p + 2 + width(l), r, (b - 1) as nat),
    ensures
        reads(s, p, operation(op, l, r), b),
{
    let c = (b - 1) as nat;
    let e = operation(op, l, r);
    let q = p + 1 + width(l);
    let z = q + 1 + width(r);
    assert(width(e) == width(l) + width(r) + 3);
    assert(skip(moved(s, q), 1) == moved(s, q + 1));
    lemma_operands_with_operator(moved(s, p + 1), op, l, moved(s, q), r, moved(s, z), c);
    lemma_parentheses(s, p, e, z, b);
}

proof fn lemma_prefix_back(s: ParV, p: int, op: UnOp, x: ExprV, b: nat)
    requires
        is_common(s),
        b > 2,
        written(s, p, ExprV::Unary(op, Box::new(x))),
        ends_operand(moved(s, p + width(x) + 3)),
        reads(s, p + 2, x, (b - 2) as nat),
    ensures
        reads(s, p, ExprV::Unary(op, Box::new(x)), b),
{
    let c = (b - 1) as nat;
    let e = ExprV::Unary(op, Box::new(x));
    let z = p + 2 + width(x);
    assert(width(e) == width(x) + 3);
    assert(skip(moved(s, p + 1), 1) == moved(s, p + 2));
    law_prefixes(moved(s, p + 1), x, moved(s, z), c);
    assert(unary_expr(moved(s, p + 1), c) == Parsed::<ExprV>::Ok((e, moved(s, z)))) by {
        lemma_no_magnitude(s, p + 2, x);
    }
    lemma_operand_alone(moved(s, p + 1), e, moved(s, z), c);
    lemma_parentheses(s, p, e, z, b);
}

proof fn lemma_no_magnitude(s: ParV, p: int, x: ExprV)
    requires
        written(s, p, x),
    ensures
        !at(moved(s, p), TokenKind::IntMinMagnitude),
        at(moved(s, p), TokenKind::Ident) ==> s.ts[p].text != "mut"@,
{
}

/// Reading gives back what was written: where the tokens are an expression as it is written,
/// the grammar reads that expression, and stops behind it.
pub proof fn law_reading_gives_back_what_was_written(s: ParV, p: int, e: ExprV, b: nat)
    requires
        is_common(s),
        written(s, p, e),
        b > height(e),
        ends_operand(moved(s, p + width(e))),
    ensures
        reads(s, p, e, b),
    decreases e,
{
    match e {
        ExprV::Binary(op, l, r) => {
            let c = (b - 1) as nat;
            law_reading_gives_back_what_was_written(s, p + 1, *l, c);
            law_reading_gives_back_what_was_written(s, p + 2 + width(*l), *r, c);
            assert(operation(op, *l, *r) == e);
            lemma_operation_back(s, p, op, *l, *r, b);
        },
        ExprV::Unary(op, x) => {
            law_reading_gives_back_what_was_written(s, p + 2, *x, (b - 2) as nat);
            assert(e == ExprV::Unary(op, Box::new(*x)));
            lemma_prefix_back(s, p, op, *x, b);
        },
        ExprV::Var(slot) => lemma_name(s, p, slot, b),
        _ => {
            let here = moved(s, p);
            assert(skip(here, 1) == moved(s, p + 1));
            law_operands(here, e, here, b);
        },
    }
}

/// And where no operator follows, that is the whole expression.
pub proof fn law_reading_a_whole_expression(s: ParV, p: int, e: ExprV, b: nat)
    requires
        is_common(s),
        written(s, p, e),
        b > height(e),
        ends_operand(moved(s, p + width(e))),
        ends_operation(moved(s, p + width(e))),
    ensures
        expr(moved(s, p), b + 1) == Parsed::<ExprV>::Ok((e, moved(s, p + width(e)))),
{
    law_reading_gives_back_what_was_written(s, p, e, b);
    lemma_operand_alone(moved(s, p), e, moved(s, p + width(e)), b);
}

// ---------------------------------------------------------------------------
// Statements.

/// `let name = e;` gives the value of an expression to the slot that the name has from there
/// on.
pub proof fn law_let_statements(s: ParV, e: ExprV, s3: ParV, b: nat)
    requires
        at(s, TokenKind::Ident),
        !s.config.dialect.allow_let_mut_binding,
        at(skip(s, 1), TokenKind::Equal),
        expr(skip(skip(s, 1), 1), b) == Parsed::<ExprV>::Ok((e, s3)),
        at(s3, TokenKind::Semicolon),
    ensures
        let_stmt(s, true, b) matches Ok((st, s4)) ==> {
            &&& st matches StmtV::Let { index, expr, .. } && expr == e && (let_slot(
                skip(s3, 1),
                s.ts[s.pos].text,
                false,
            ) matches Ok((slot, _)) && slot == index)
            &&& s4.pos == s3.pos + 1
        },
        let_slot(skip(s3, 1), s.ts[s.pos].text, false) is Ok ==> let_stmt(s, true, b) is Ok,
{
    reveal(expect);
    reveal(let_name);
    reveal(let_struct);
    reveal(let_slot);
    reveal(terminator);
    reveal(let_mutability);
    assert(value(skip(s, 1), true, "expected ';' after let"@, b) == Parsed::<ExprV>::Ok(
        (e, skip(s3, 1)),
    ));
}

/// `name = e;` gives the value of an expression to the slot that the name has.
pub proof fn law_assignments(s: ParV, e: ExprV, s2: ParV, slot: u16, s3: ParV, b: nat)
    requires
        at(s, TokenKind::Ident),
        at(skip(s, 1), TokenKind::Equal),
        expr(skip(skip(s, 1), 1), b) == Parsed::<ExprV>::Ok((e, s2)),
        at(s2, TokenKind::Semicolon),
        get_local(skip(s2, 1), s.ts[s.pos].text) == Parsed::<u16>::Ok((slot, s3)),
    ensures
        !s3.config.enforce_mutable_bindings || s3.names.is_mutable(slot) ==> (assign(s, true, b)
            matches Ok((st, s4)) && s4 == s3 && (st matches StmtV::Assign { index, expr, .. }
            && index == slot && expr == e)),
        s3.config.enforce_mutable_bindings && !s3.names.is_mutable(slot) ==> assign(s, true, b)
            is Err,
{
    reveal(expect);
    reveal(terminator);
    reveal(immutable);
    assert(value(skip(s, 1), true, "expected ';' after assignment"@, b) == Parsed::<ExprV>::Ok(
        (e, skip(s2, 1)),
    ));
}

/// `if c { .. } else { .. }` runs the first block where the condition holds, and the other one
/// where it does not.
pub proof fn law_if_statements(
    s: ParV,
    c: ExprV,
    s1: ParV,
    yes: Seq<StmtV>,
    s2: ParV,
    no: Seq<StmtV>,
    s3: ParV,
    b: nat,
)
    requires
        expr(s, b) == Parsed::<ExprV>::Ok((c, s1)),
        block(s1, "expected '{' after if condition"@, b) == Parsed::<Seq<StmtV>>::Ok((yes, s2)),
        else_branch(s2, b) == Parsed::<Seq<StmtV>>::Ok((no, s3)),
    ensures
        if_stmt(s, b) matches Ok((st, s4)) && s4 == s3 && (st matches StmtV::IfElse {
            condition,
            then_branch,
            else_branch,
            ..
        } && condition == c && then_branch == yes && else_branch == no),
{
}

/// `while c { .. }` runs its block as long as the condition holds.
pub proof fn law_while_statements(
    s: ParV,
    c: ExprV,
    s1: ParV,
    inside: Seq<StmtV>,
    s2: ParV,
    b: nat,
)
    requires
        expr(s, b) == Parsed::<ExprV>::Ok((c, s1)),
        loop_body(s1, "expected '{' after while condition"@, b) == Parsed::<Seq<StmtV>>::Ok(
            (inside, s2),
        ),
    ensures
        while_stmt(s, b) matches Ok((st, s3)) && s3 == s2 && (st matches StmtV::While {
            condition,
            body,
            ..
        } && condition == c && body == inside),
{
}

/// The elements of an array are pushed to an empty one, in order.
pub proof fn law_arrays(s: ParV, out: ExprV, e: ExprV, s1: ParV, b: nat)
    requires
        b > 0,
    ensures
        at(s, TokenKind::RBracket) ==> array_literal(s, b) == Parsed::<ExprV>::Ok(
            (ExprV::Call(builtin_index(BuiltinFunction::ArrayNew), Seq::empty()), skip(s, 1)),
        ),
        expr(s, b) == Parsed::<ExprV>::Ok((e, s1)) ==> {
            let next = ExprV::Call(builtin_index(BuiltinFunction::ArrayPush), seq![out, e]);
            &&& at(s1, TokenKind::RBracket) ==> array_rest(s, out, b) == Parsed::<ExprV>::Ok(
                (next, skip(s1, 1)),
            )
            &&& at(s1, TokenKind::Comma) ==> array_rest(s, out, b) == array_rest(
                skip(s1, 1),
                next,
                (b - 1) as nat,
            )
        },
{
    reveal(expect);
}

/// The arguments of a call are those between its parentheses, in order.
pub proof fn law_arguments(s: ParV, args: Seq<ExprV>, e: ExprV, s1: ParV, b: nat)
    requires
        b > 0,
    ensures
        at(s, TokenKind::RParen) ==> call_args(s, b) == Parsed::<Seq<ExprV>>::Ok(
            (Seq::empty(), skip(s, 1)),
        ),
        expr(s, b) == Parsed::<ExprV>::Ok((e, s1)) ==> {
            &&& at(s1, TokenKind::RParen) ==> args_rest(s, args, b) == Parsed::<Seq<ExprV>>::Ok(
                (args.push(e), skip(s1, 1)),
            )
            &&& at(s1, TokenKind::Comma) ==> args_rest(s, args, b) == args_rest(
                skip(s1, 1),
                args.push(e),
                (b - 1) as nat,
            )
        },
{
    reveal(expect);
}

} // verus!
