//! Which statements, calls and accesses runs of tokens are read as.

use vstd::prelude::*;
use crate::builtins::{builtin_index, BuiltinFunction};
use crate::grammar::{
    access, ahead, at, block, block_rest, body_value, branch_value, declare, declared_call,
    else_branch, else_expr, expect, expr, fn_body, fn_decl, fn_head, for_clause, for_start,
    for_stmt, get_local, if_branch, if_expr, if_stmt, language_call, let_stmt, loop_body,
    loop_control, member_access, named_call, program_rest, resolve_function, skip, statement, stmt,
    terminator, while_stmt, ParV, Parsed,
};
use crate::ir::{ExprV, FunctionDeclV, StmtV, UnOp, ValueType};
use crate::lexer::TokenKind;

verus! {

/// `if c => { t } else => { f }` is the choice between two expressions by a condition.
pub proof fn law_conditionals(
    s: ParV,
    c: ExprV,
    s1: ParV,
    t: ExprV,
    s3: ParV,
    f: ExprV,
    s5: ParV,
    b: nat,
)
    requires
        expr(s, b) == Parsed::<ExprV>::Ok((c, s1)),
        at(s1, TokenKind::FatArrow),
        if_branch(skip(s1, 1), b) == Parsed::<ExprV>::Ok((t, s3)),
        at(s3, TokenKind::Else),
        else_expr(skip(s3, 1), b) == Parsed::<ExprV>::Ok((f, s5)),
    ensures
        if_expr(s, b) == Parsed::<ExprV>::Ok(
            (ExprV::IfElse(Box::new(c), Box::new(t), Box::new(f)), s5),
        ),
{
    reveal(expect);
}

/// The value of a branch is the expression at its end, behind what runs before it.
pub proof fn law_branch_values(s: ParV, stmts: Seq<StmtV>, e: ExprV)
    ensures
        branch_value(s, stmts, Some(e)) == Parsed::<ExprV>::Ok(
            (
                if stmts.len() == 0 {
                    e
                } else {
                    ExprV::Block(stmts, Box::new(e))
                },
                s,
            ),
        ),
        branch_value(s, Seq::empty(), None) is Err,
{
    reveal(branch_value);
    reveal(body_value);
}

/// Without `else` there is nothing to run; `else if` runs another `if`; else a block.
pub proof fn law_else_branches(s: ParV, st: StmtV, s1: ParV, b: nat)
    requires
        b > 0,
    ensures
        !at(s, TokenKind::Else) ==> else_branch(s, b) == Parsed::<Seq<StmtV>>::Ok(
            (Seq::empty(), s),
        ),
        at(s, TokenKind::Else) && ahead(s, 1, TokenKind::If) && if_stmt(skip(s, 2), (b - 1) as nat)
            == Parsed::<StmtV>::Ok((st, s1)) ==> else_branch(s, b) == Parsed::<Seq<StmtV>>::Ok(
            (seq![st], s1),
        ),
        at(s, TokenKind::Else) && !ahead(s, 1, TokenKind::If) ==> else_branch(s, b) == block(
            skip(s, 1),
            "expected '{' after else"@,
            b,
        ),
{
}

/// The statements of a block are those between its braces, in order; those of a program all
/// that there are.
pub proof fn law_statements_stay_in_order(
    s: ParV,
    stmts: Seq<StmtV>,
    st: StmtV,
    s1: ParV,
    message: Seq<char>,
    b: nat,
)
    requires
        b > 0,
    ensures
        at(s, TokenKind::LBrace) ==> block(s, message, b) == block_rest(
            skip(s, 1),
            Seq::empty(),
            b,
        ),
        at(s, TokenKind::RBrace) ==> block_rest(s, stmts, b) == Parsed::<Seq<StmtV>>::Ok(
            (stmts, skip(s, 1)),
        ),
        at(s, TokenKind::Eof) ==> program_rest(s, stmts, b) == Parsed::<Seq<StmtV>>::Ok((stmts, s)),
        stmt(s, b) == Parsed::<StmtV>::Ok((st, s1)) ==> {
            &&& !at(s, TokenKind::RBrace) && !at(s, TokenKind::Eof) ==> block_rest(s, stmts, b)
                == block_rest(s1, stmts.push(st), (b - 1) as nat)
            &&& !at(s, TokenKind::Eof) ==> program_rest(s, stmts, b) == program_rest(
                s1,
                stmts.push(st),
                (b - 1) as nat,
            )
        },
{
    reveal(expect);
}

/// Each keyword starts its statement.
pub proof fn law_keywords_start_their_statements(s: ParV, b: nat)
    requires
        !s.config.dialect.allow_require_declaration,
    ensures
        at(s, TokenKind::Fn) ==> statement(s, b) == fn_decl(skip(s, 1), false, b),
        at(s, TokenKind::Pub) && ahead(s, 1, TokenKind::Fn) ==> statement(s, b) == fn_decl(
            skip(s, 2),
            true,
            b,
        ),
        at(s, TokenKind::Let) ==> statement(s, b) == let_stmt(skip(s, 1), true, b),
        at(s, TokenKind::For) ==> statement(s, b) == for_stmt(skip(s, 1), b),
        at(s, TokenKind::If) ==> statement(s, b) == if_stmt(skip(s, 1), b),
        at(s, TokenKind::While) ==> statement(s, b) == while_stmt(skip(s, 1), b),
        b > 0 ==> stmt(s, b) == statement(s, (b - 1) as nat),
{
}

/// `break` and `continue` stand in a loop only, and are what they say.
pub proof fn law_loop_control(s: ParV, b: nat)
    ensures
        at(s, TokenKind::Break) ==> statement(s, b) == loop_control(skip(s, 1), true),
        at(s, TokenKind::Continue) ==> statement(s, b) == loop_control(skip(s, 1), false),
        s.loop_depth == 0 ==> loop_control(s, true) is Err && loop_control(s, false) is Err,
        s.loop_depth > 0 && at(s, TokenKind::Semicolon) ==> (loop_control(s, true) matches Ok(
            (st, s1),
        ) && st is Break && s1 == skip(s, 1)),
        s.loop_depth > 0 && at(s, TokenKind::Semicolon) ==> (loop_control(s, false) matches Ok(
            (st, s1),
        ) && st is Continue && s1 == skip(s, 1)),
{
    reveal(loop_control);
    reveal(terminator);
}

/// The body of a loop is one loop deeper, and what stands behind it is not.
pub proof fn law_loops_are_left(
    s: ParV,
    inside: Seq<StmtV>,
    s1: ParV,
    message: Seq<char>,
    b: nat,
)
    requires
        s.loop_depth < usize::MAX,
        block(ParV { loop_depth: (s.loop_depth + 1) as usize, ..s }, message, b) == Parsed::<
            Seq<StmtV>,
        >::Ok((inside, s1)),
    ensures
        loop_body(s, message, b) matches Ok((r, s2)) && r == inside && s2.loop_depth
            == s.loop_depth && s2.pos == s1.pos && s2.names == s1.names,
{
}

/// `for (init; c; post) { .. }` has its parts where they stand.
pub proof fn law_for_statements(
    s: ParV,
    first: StmtV,
    s2: ParV,
    c: ExprV,
    s4: ParV,
    last: StmtV,
    s6: ParV,
    inside: Seq<StmtV>,
    s8: ParV,
    b: nat,
)
    requires
        at(s, TokenKind::LParen),
        for_start(skip(s, 1), b) == Parsed::<StmtV>::Ok((first, s2)),
        at(s2, TokenKind::Semicolon),
        expr(skip(s2, 1), b) == Parsed::<ExprV>::Ok((c, s4)),
        at(s4, TokenKind::Semicolon),
        for_clause(skip(s4, 1), b) == Parsed::<StmtV>::Ok((last, s6)),
        at(s6, TokenKind::RParen),
        loop_body(skip(s6, 1), "expected '{' after for clauses"@, b) == Parsed::<Seq<StmtV>>::Ok(
            (inside, s8),
        ),
    ensures
        for_stmt(s, b) matches Ok((st, s9)) && s9 == s8 && (st matches StmtV::For {
            init,
            condition,
            post,
            body,
            ..
        } && *init == first && condition == c && *post == last && body == inside),
{
    reveal(expect);
}

/// `e[k]` is what stands in `e` at `k`, `e.name` what stands there under the name; `e.length`,
/// `e.keys` and `e.copy()` are its length, its keys and a copy of it.
pub proof fn law_accesses(s: ParV, e: ExprV, k: ExprV, s1: ParV, b: nat)
    ensures
        at(s, TokenKind::LBracket) && !ahead(s, 1, TokenKind::Colon) && expr(skip(s, 1), b)
            == Parsed::<ExprV>::Ok((k, s1)) && at(s1, TokenKind::RBracket) ==> access(s, e, b)
            == Parsed::<ExprV>::Ok(
            (ExprV::Call(builtin_index(BuiltinFunction::Get), seq![e, k]), skip(s1, 1)),
        ),
        at(s, TokenKind::Dot) && at(skip(s, 1), TokenKind::Ident) ==> {
            let name = s.ts[s.pos + 1].text;
            &&& name != "copy"@ && name != "length"@ && name != "keys"@ ==> access(s, e, b)
                == Parsed::<ExprV>::Ok(
                (
                    ExprV::Call(builtin_index(BuiltinFunction::Get), seq![e, ExprV::Str(name)]),
                    skip(s, 2),
                ),
            )
            &&& name == "length"@ ==> access(s, e, b) == Parsed::<ExprV>::Ok(
                (ExprV::Call(builtin_index(BuiltinFunction::Len), seq![e]), skip(s, 2)),
            )
            &&& name == "keys"@ ==> access(s, e, b) == Parsed::<ExprV>::Ok(
                (ExprV::Call(builtin_index(BuiltinFunction::Keys), seq![e]), skip(s, 2)),
            )
            &&& name == "copy"@ && ahead(s, 2, TokenKind::LParen) && ahead(s, 3, TokenKind::RParen)
                ==> access(s, e, b) == Parsed::<ExprV>::Ok(
                (ExprV::Unary(UnOp::ToOwned, Box::new(e)), skip(s, 4)),
            )
        },
{
    reveal(expect);
    reveal(member_access);
    reveal_strlit("copy");
    reveal_strlit("length");
    reveal_strlit("keys");
    assert("copy"@.len() == 4 && "length"@.len() == 6 && "keys"@.len() == 4);
    assert("copy"@[0] == 'c' && "keys"@[0] == 'k');
    assert(skip(skip(s, 1), 1) == skip(s, 2));
    assert(skip(skip(skip(s, 2), 1), 1) == skip(s, 4));
}

/// A call by a name: of a local that has the name, else of the function that is declared with
/// it, with exactly its number of arguments.
pub proof fn law_calls_by_name(
    s: ParV,
    name: Seq<char>,
    args: Seq<ExprV>,
    slot: u16,
    s1: ParV,
    decl: FunctionDeclV,
)
    requires
        name != "print"@,
        name != "println"@,
        name != "type"@,
        name != "assert"@,
    ensures
        s.names.has_binding(name) && get_local(s, name) == Parsed::<u16>::Ok((slot, s1))
            ==> named_call(s, name, args) == Parsed::<ExprV>::Ok(
            (ExprV::LocalCall(slot, args), s1),
        ),
        !s.names.has_binding(name) && s.names.decl(name) == Some(decl) ==> {
            &&& decl.arity == args.len() ==> named_call(s, name, args) == Parsed::<ExprV>::Ok(
                (ExprV::Call(decl.index, args), s),
            )
            &&& decl.arity != args.len() ==> named_call(s, name, args) is Err
        },
        !s.names.has_binding(name) && s.names.decl(name) is None && s.hosts.direct_target(
            name,
        ) is None && !s.config.allow_implicit_externs ==> named_call(s, name, args) is Err,
{
    reveal(named_call);
    reveal(declared_call);
    reveal(resolve_function);
    reveal(language_call);
}

/// A function is declared once, with its name, its parameters and whether it can be imported,
/// under the next index.
pub proof fn law_functions_are_declared_as_written(
    s: ParV,
    name: Seq<char>,
    params: Seq<Seq<char>>,
    exported: bool,
    ty: ValueType,
)
    ensures
        declare(s, name, params, exported, ty) matches Ok((decl, s1)) ==> {
            &&& decl.name == name && decl.arity == params.len() && decl.args == params
                && decl.exported == exported && decl.return_type == ty
            &&& decl.index == s.names.next_function
            &&& s1.pos == s.pos
            &&& s.names.decl(name) is None
        },
        s.names.decl(name) is Some || params.len() > 255 ==> declare(
            s,
            name,
            params,
            exported,
            ty,
        ) is Err,
{
    reveal(declare);
}

/// A function's statement says what was declared.
pub proof fn law_function_statements(
    s: ParV,
    name: Seq<char>,
    params: Seq<Seq<char>>,
    ty: ValueType,
    s1: ParV,
    decl: FunctionDeclV,
    s2: ParV,
    s3: ParV,
    exported: bool,
    b: nat,
)
    requires
        fn_head(s) == Parsed::<(Seq<char>, Seq<Seq<char>>, ValueType)>::Ok(
            ((name, params, ty), s1),
        ),
        declare(s1, name, params, exported, ty) == Parsed::<FunctionDeclV>::Ok((decl, s2)),
        fn_body(s2, decl, b) == Result::<ParV, crate::errors::ParseErrorV>::Ok(s3),
    ensures
        fn_decl(s, exported, b) matches Ok((st, s4)) && s4 == s3 && (st matches StmtV::FuncDecl {
            name: n,
            index,
            arity,
            args,
            exported: x,
            ..
        } && n == name && index == s1.names.next_function && arity == params.len() && args == params
            && x == exported),
{
    law_functions_are_declared_as_written(s1, name, params, exported, ty);
}

} // verus!
