//! Line numbers of a tree that was parsed behind a prelude.

use std::collections::HashMap;
use vstd::prelude::*;
use crate::host::put;
use crate::infer::impls_view;
use crate::ir::{
    arms_view, exprs_view, stmts_view, ClosureExpr, ClosureV, Expr, ExprV, FrontendIr, FunctionImpl,
    FunctionImplV, MatchPattern, PatternV, Stmt, StmtV,
};

verus! {

/// A line counted without the lines of a prelude, and never below the first.
pub open spec fn shifted_line(line: u32, offset: u32) -> u32 {
    if line > offset {
        (line - offset) as u32
    } else {
        1
    }
}

/// A closure with its lines shifted.
pub open spec fn shifted_closure(c: ClosureV, offset: u32) -> ClosureV
    decreases c,
{
    ClosureV { body: Box::new(shifted_expr(*c.body, offset)), ..c }
}

/// Expressions with their lines shifted.
pub open spec fn shifted_exprs(list: Seq<ExprV>, offset: u32) -> Seq<ExprV>
    decreases list,
{
    Seq::new(
        list.len(),
        |i: int|
            if 0 <= i < list.len() {
                shifted_expr(list[i], offset)
            } else {
                arbitrary()
            },
    )
}

/// Arms with their lines shifted.
pub open spec fn shifted_arms(list: Seq<(PatternV, ExprV)>, offset: u32) -> Seq<(PatternV, ExprV)>
    decreases list,
{
    Seq::new(
        list.len(),
        |i: int|
            if 0 <= i < list.len() {
                (list[i].0, shifted_expr(list[i].1, offset))
            } else {
                arbitrary()
            },
    )
}

/// Statements with their lines shifted.
pub open spec fn shifted_stmts(list: Seq<StmtV>, offset: u32) -> Seq<StmtV>
    decreases list,
{
    Seq::new(
        list.len(),
        |i: int|
            if 0 <= i < list.len() {
                shifted_stmt(list[i], offset)
            } else {
                arbitrary()
            },
    )
}

/// An expression with the lines of the statements in it shifted.
pub open spec fn shifted_expr(e: ExprV, offset: u32) -> ExprV
    decreases e,
{
    match e {
        ExprV::Call(index, args) => ExprV::Call(index, shifted_exprs(args, offset)),
        ExprV::LocalCall(slot, args) => ExprV::LocalCall(slot, shifted_exprs(args, offset)),
        ExprV::ClosureCall(closure, args) => ExprV::ClosureCall(
            shifted_closure(closure, offset),
            shifted_exprs(args, offset),
        ),
        ExprV::Closure(closure) => ExprV::Closure(shifted_closure(closure, offset)),
        ExprV::Binary(op, l, r) => ExprV::Binary(
            op,
            Box::new(shifted_expr(*l, offset)),
            Box::new(shifted_expr(*r, offset)),
        ),
        ExprV::Unary(op, inner) => ExprV::Unary(op, Box::new(shifted_expr(*inner, offset))),
        ExprV::IfElse(c, t, f) => ExprV::IfElse(
            Box::new(shifted_expr(*c, offset)),
            Box::new(shifted_expr(*t, offset)),
            Box::new(shifted_expr(*f, offset)),
        ),
        ExprV::Match { value_slot, result_slot, value, arms, default } => ExprV::Match {
            value_slot,
            result_slot,
            value: Box::new(shifted_expr(*value, offset)),
            arms: shifted_arms(arms, offset),
            default: Box::new(shifted_expr(*default, offset)),
        },
        ExprV::Block(stmts, expr) => ExprV::Block(
            shifted_stmts(stmts, offset),
            Box::new(shifted_expr(*expr, offset)),
        ),
        _ => e,
    }
}

/// A statement with its lines shifted. The body of a closure that a statement
/// binds keeps its lines.
pub open spec fn shifted_stmt(s: StmtV, offset: u32) -> StmtV
    decreases s,
{
    match s {
        StmtV::Noop(line) => StmtV::Noop(shifted_line(line, offset)),
        StmtV::Break(line) => StmtV::Break(shifted_line(line, offset)),
        StmtV::Continue(line) => StmtV::Continue(shifted_line(line, offset)),
        StmtV::Drop { index, line } => StmtV::Drop { index, line: shifted_line(line, offset) },
        StmtV::ClosureLet { line, closure } => StmtV::ClosureLet {
            line: shifted_line(line, offset),
            closure,
        },
        StmtV::FuncDecl { name, index, arity, args, exported, line } => StmtV::FuncDecl {
            name,
            index,
            arity,
            args,
            exported,
            line: shifted_line(line, offset),
        },
        StmtV::Let { index, expr, line } => StmtV::Let {
            index,
            expr: shifted_expr(expr, offset),
            line: shifted_line(line, offset),
        },
        StmtV::Assign { index, expr, line } => StmtV::Assign {
            index,
            expr: shifted_expr(expr, offset),
            line: shifted_line(line, offset),
        },
        StmtV::Expr { expr, line } => StmtV::Expr {
            expr: shifted_expr(expr, offset),
            line: shifted_line(line, offset),
        },
        StmtV::IfElse { condition, then_branch, else_branch, line } => StmtV::IfElse {
            condition: shifted_expr(condition, offset),
            then_branch: shifted_stmts(then_branch, offset),
            else_branch: shifted_stmts(else_branch, offset),
            line: shifted_line(line, offset),
        },
        StmtV::For { init, condition, post, body, line } => StmtV::For {
            init: Box::new(shifted_stmt(*init, offset)),
            condition: shifted_expr(condition, offset),
            post: Box::new(shifted_stmt(*post, offset)),
            body: shifted_stmts(body, offset),
            line: shifted_line(line, offset),
        },
        StmtV::While { condition, body, line } => StmtV::While {
            condition: shifted_expr(condition, offset),
            body: shifted_stmts(body, offset),
            line: shifted_line(line, offset),
        },
    }
}

fn remap_line(line: u32, offset: u32) -> (r: u32)
    ensures
        r == shifted_line(line, offset),
{
    if line > offset {
        line - offset
    } else {
        1
    }
}

fn remap_exprs(list: Vec<Expr>, offset: u32) -> (r: Vec<Expr>)
    ensures
        exprs_view(r@) == shifted_exprs(exprs_view(list@), offset),
    decreases list,
{
    let mut out: Vec<Expr> = Vec::new();
    let ghost all = list@;
    for e in it: list
        invariant
            it.seq() == all,
            all == list@,
            out@.len() == it.index(),
            forall|k: int| 0 <= k < out@.len() ==> (#[trigger] out@[k])@ == shifted_expr(all[k]@, offset),
    {
        assert(all[it.index() as int] == e);
        assert(decreases_to!(list => list@));
        out.push(remap_expr_line_numbers(e, offset));
    }
    assert(exprs_view(out@) =~= shifted_exprs(exprs_view(all), offset));
    out
}

fn remap_arms(list: Vec<(MatchPattern, Expr)>, offset: u32) -> (r: Vec<(MatchPattern, Expr)>)
    ensures
        arms_view(r@) == shifted_arms(arms_view(list@), offset),
    decreases list,
{
    let mut out: Vec<(MatchPattern, Expr)> = Vec::new();
    let ghost all = list@;
    for e in it: list
        invariant
            it.seq() == all,
            all == list@,
            out@.len() == it.index(),
            forall|k: int| 0 <= k < out@.len() ==> (#[trigger] out@[k]).1@ == shifted_expr(all[k].1@, offset) && out@[k].0 == all[k].0,
    {
        assert(all[it.index() as int] == e);
        assert(decreases_to!(list => list@));
        out.push((e.0, remap_expr_line_numbers(e.1, offset)));
    }
    assert(arms_view(out@) =~= shifted_arms(arms_view(all), offset));
    out
}

fn remap_stmts(list: Vec<Stmt>, offset: u32) -> (r: Vec<Stmt>)
    ensures
        stmts_view(r@) == shifted_stmts(stmts_view(list@), offset),
    decreases list,
{
    let mut out: Vec<Stmt> = Vec::new();
    let ghost all = list@;
    for e in it: list
        invariant
            it.seq() == all,
            all == list@,
            out@.len() == it.index(),
            forall|k: int| 0 <= k < out@.len() ==> (#[trigger] out@[k])@ == shifted_stmt(all[k]@, offset),
    {
        assert(all[it.index() as int] == e);
        assert(decreases_to!(list => list@));
        out.push(remap_stmt_line_numbers(e, offset));
    }
    assert(stmts_view(out@) =~= shifted_stmts(stmts_view(all), offset));
    out
}

fn remap_closure_line_numbers(closure: ClosureExpr, offset: u32) -> (r: ClosureExpr)
    ensures
        r@ == shifted_closure(closure@, offset),
    decreases closure,
{
    assert(*closure@.body == closure.body@);
    ClosureExpr {
        param_slots: closure.param_slots,
        capture_copies: closure.capture_copies,
        body: Box::new(remap_expr_line_numbers(*closure.body, offset)),
    }
}

pub fn remap_expr_line_numbers(expr: Expr, offset: u32) -> (r: Expr)
    ensures
        r@ == shifted_expr(expr@, offset),
    decreases expr,
{
    match expr {
        Expr::Call(index, args) => Expr::Call(index, remap_exprs(args, offset)),
        Expr::LocalCall(slot, args) => Expr::LocalCall(slot, remap_exprs(args, offset)),
        Expr::ClosureCall(closure, args) => Expr::ClosureCall(
            remap_closure_line_numbers(closure, offset),
            remap_exprs(args, offset),
        ),
        Expr::Closure(closure) => Expr::Closure(remap_closure_line_numbers(closure, offset)),
        Expr::Add(lhs, rhs) => Expr::Add(
            Box::new(remap_expr_line_numbers(*lhs, offset)),
            Box::new(remap_expr_line_numbers(*rhs, offset)),
        ),
        Expr::Sub(lhs, rhs) => Expr::Sub(
            Box::new(remap_expr_line_numbers(*lhs, offset)),
            Box::new(remap_expr_line_numbers(*rhs, offset)),
        ),
        Expr::Mul(lhs, rhs) => Expr::Mul(
            Box::new(remap_expr_line_numbers(*lhs, offset)),
            Box::new(remap_expr_line_numbers(*rhs, offset)),
        ),
        Expr::Div(lhs, rhs) => Expr::Div(
            Box::new(remap_expr_line_numbers(*lhs, offset)),
            Box::new(remap_expr_line_numbers(*rhs, offset)),
        ),
        Expr::Mod(lhs, rhs) => Expr::Mod(
            Box::new(remap_expr_line_numbers(*lhs, offset)),
            Box::new(remap_expr_line_numbers(*rhs, offset)),
        ),
        Expr::And(lhs, rhs) => Expr::And(
            Box::new(remap_expr_line_numbers(*lhs, offset)),
            Box::new(remap_expr_line_numbers(*rhs, offset)),
        ),
        Expr::Or(lhs, rhs) => Expr::Or(
            Box::new(remap_expr_line_numbers(*lhs, offset)),
            Box::new(remap_expr_line_numbers(*rhs, offset)),
        ),
        Expr::Eq(lhs, rhs) => Expr::Eq(
            Box::new(remap_expr_line_numbers(*lhs, offset)),
            Box::new(remap_expr_line_numbers(*rhs, offset)),
        ),
        Expr::Lt(lhs, rhs) => Expr::Lt(
            Box::new(remap_expr_line_numbers(*lhs, offset)),
            Box::new(remap_expr_line_numbers(*rhs, offset)),
        ),
        Expr::Gt(lhs, rhs) => Expr::Gt(
            Box::new(remap_expr_line_numbers(*lhs, offset)),
            Box::new(remap_expr_line_numbers(*rhs, offset)),
        ),
        Expr::Neg(inner) => Expr::Neg(Box::new(remap_expr_line_numbers(*inner, offset))),
        Expr::Not(inner) => Expr::Not(Box::new(remap_expr_line_numbers(*inner, offset))),
        Expr::ToOwned(inner) => Expr::ToOwned(Box::new(remap_expr_line_numbers(*inner, offset))),
        Expr::Borrow(inner) => Expr::Borrow(Box::new(remap_expr_line_numbers(*inner, offset))),
        Expr::BorrowMut(inner) => Expr::BorrowMut(
            Box::new(remap_expr_line_numbers(*inner, offset)),
        ),
        Expr::IfElse { condition, then_expr, else_expr } => Expr::IfElse {
            condition: Box::new(remap_expr_line_numbers(*condition, offset)),
            then_expr: Box::new(remap_expr_line_numbers(*then_expr, offset)),
            else_expr: Box::new(remap_expr_line_numbers(*else_expr, offset)),
        },
        Expr::Match { value_slot, result_slot, value, arms, default } => Expr::Match {
            value_slot,
            result_slot,
            value: Box::new(remap_expr_line_numbers(*value, offset)),
            arms: remap_arms(arms, offset),
            default: Box::new(remap_expr_line_numbers(*default, offset)),
        },
        Expr::Block { stmts, expr } => Expr::Block {
            stmts: remap_stmts(stmts, offset),
            expr: Box::new(remap_expr_line_numbers(*expr, offset)),
        },
        other => other,
    }
}

pub fn remap_stmt_line_numbers(stmt: Stmt, offset: u32) -> (r: Stmt)
    ensures
        r@ == shifted_stmt(stmt@, offset),
    decreases stmt,
{
    match stmt {
        Stmt::Noop { line } => Stmt::Noop { line: remap_line(line, offset) },
        Stmt::Break { line } => Stmt::Break { line: remap_line(line, offset) },
        Stmt::Continue { line } => Stmt::Continue { line: remap_line(line, offset) },
        Stmt::Drop { index, line } => Stmt::Drop { index, line: remap_line(line, offset) },
        Stmt::ClosureLet { line, closure } => Stmt::ClosureLet {
            line: remap_line(line, offset),
            closure,
        },
        Stmt::FuncDecl { name, index, arity, args, exported, line } => Stmt::FuncDecl {
            name,
            index,
            arity,
            args,
            exported,
            line: remap_line(line, offset),
        },
        Stmt::Let { index, expr, line } => Stmt::Let {
            index,
            expr: remap_expr_line_numbers(expr, offset),
            line: remap_line(line, offset),
        },
        Stmt::Assign { index, expr, line } => Stmt::Assign {
            index,
            expr: remap_expr_line_numbers(expr, offset),
            line: remap_line(line, offset),
        },
        Stmt::Expr { expr, line } => Stmt::Expr {
            expr: remap_expr_line_numbers(expr, offset),
            line: remap_line(line, offset),
        },
        Stmt::IfElse { condition, then_branch, else_branch, line } => Stmt::IfElse {
            condition: remap_expr_line_numbers(condition, offset),
            then_branch: remap_stmts(then_branch, offset),
            else_branch: remap_stmts(else_branch, offset),
            line: remap_line(line, offset),
        },
        Stmt::For { init, condition, post, body, line } => Stmt::For {
            init: Box::new(remap_stmt_line_numbers(*init, offset)),
            condition: remap_expr_line_numbers(condition, offset),
            post: Box::new(remap_stmt_line_numbers(*post, offset)),
            body: remap_stmts(body, offset),
            line: remap_line(line, offset),
        },
        Stmt::While { condition, body, line } => Stmt::While {
            condition: remap_expr_line_numbers(condition, offset),
            body: remap_stmts(body, offset),
            line: remap_line(line, offset),
        },
    }
}

/// A function body with its lines shifted.
pub open spec fn shifted_impl(f: FunctionImplV, offset: u32) -> FunctionImplV {
    FunctionImplV {
        body_stmts: shifted_stmts(f.body_stmts, offset),
        body_expr: shifted_expr(f.body_expr, offset),
        ..f
    }
}

fn remap_function_line_numbers(function: FunctionImpl, offset: u32) -> (r: FunctionImpl)
    ensures
        r@ == shifted_impl(function@, offset),
{
    FunctionImpl {
        param_slots: function.param_slots,
        capture_copies: function.capture_copies,
        body_stmts: remap_stmts(function.body_stmts, offset),
        body_expr: remap_expr_line_numbers(function.body_expr, offset),
    }
}

/// The number of lines that a prelude of `lines` lines moves the lines below it by.
pub open spec fn line_offset(lines: nat) -> u32 {
    if lines <= u32::MAX {
        lines as u32
    } else {
        u32::MAX
    }
}

fn line_offset_of(lines: usize) -> (r: u32)
    ensures
        r == line_offset(lines as nat),
{
    let lines: u64 = lines as u64;
    if lines <= 0xFFFF_FFFF {
        lines as u32
    } else {
        0xFFFF_FFFF
    }
}

/// The bodies of functions with their lines shifted.
pub open spec fn shifted_impls(m: Map<u16, FunctionImplV>, offset: u32) -> Map<u16, FunctionImplV> {
    m.map_values(|f: FunctionImplV| shifted_impl(f, offset))
}

fn remap_function_impls(impls: HashMap<u16, FunctionImpl>, offset: u32) -> (r: HashMap<
    u16,
    FunctionImpl,
>)
    ensures
        impls_view(r@) == shifted_impls(impls_view(impls@), offset),
{
    broadcast use vstd::std_specs::hash::group_hash_axioms;

    let ghost all = impls@;
    let mut rest = impls;
    let mut out: HashMap<u16, FunctionImpl> = HashMap::new();
    let mut key: u32 = 0;
    while key <= 0xFFFF
        invariant
            key <= 0x1_0000,
            forall|k: u16| #[trigger] rest@.dom().contains(k) <==> k >= key && all.dom().contains(k),
            forall|k: u16| #[trigger] rest@.dom().contains(k) ==> rest@[k] == all[k],
            forall|k: u16| #[trigger] out@.dom().contains(k) <==> k < key && all.dom().contains(k),
            forall|k: u16|
                #[trigger] out@.dom().contains(k) ==> out@[k]@ == shifted_impl(all[k]@, offset),
        decreases 0x1_0000 - key,
    {
        let index: u16 = key as u16;
        match rest.remove(&index) {
            Some(function) => {
                put(&mut out, index, remap_function_line_numbers(function, offset));
            },
            None => {},
        }
        key += 1;
    }
    assert(impls_view(out@) =~= shifted_impls(impls_view(all), offset));
    out
}

/// A tree without the lines of a prelude that its text was parsed behind.
pub fn remap_frontend_ir_line_numbers(ir: FrontendIr, prelude_lines: usize) -> (r: FrontendIr)
    ensures
        stmts_view(r.stmts@) == shifted_stmts(
            stmts_view(ir.stmts@),
            line_offset(prelude_lines as nat),
        ),
        impls_view(r.function_impls@) == shifted_impls(
            impls_view(ir.function_impls@),
            line_offset(prelude_lines as nat),
        ),
        r.locals == ir.locals,
        r.functions == ir.functions,
        r.stmt_sources == ir.stmt_sources,
        r.function_sources == ir.function_sources,
{
    let offset: u32 = line_offset_of(prelude_lines);
    FrontendIr {
        stmts: remap_stmts(ir.stmts, offset),
        locals: ir.locals,
        functions: ir.functions,
        function_impls: remap_function_impls(ir.function_impls, offset),
        stmt_sources: ir.stmt_sources,
        function_sources: ir.function_sources,
    }
}

/// Lines behind a prelude start again at one, in order.
pub proof fn law_lines_shift_in_order(a: u32, b: u32, offset: u32)
    ensures
        shifted_line(a, offset) >= 1,
        a <= b ==> shifted_line(a, offset) <= shifted_line(b, offset),
        a > offset ==> shifted_line(a, offset) == a - offset,
        a >= 1 ==> shifted_line(a, 0) == a,
{
}

} // verus!
