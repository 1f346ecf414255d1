//! Whether a function body adds its parameters.

use vstd::prelude::*;
use crate::ir::{
    arms_view, exprs_view, stmts_view, Expr, ExprV, LocalSlot, MatchPattern, PatternV, Stmt, StmtV,
};

verus! {

/// Whether any expression of a list reads a parameter.
pub open spec fn exprs_use(list: Seq<ExprV>, params: Seq<LocalSlot>) -> bool
    decreases list,
{
    exists|i: int| 0 <= i < list.len() && uses_param(#[trigger] list[i], params)
}

/// Whether any arm of a match reads a parameter.
pub open spec fn arms_use(list: Seq<(PatternV, ExprV)>, params: Seq<LocalSlot>) -> bool
    decreases list,
{
    exists|i: int| 0 <= i < list.len() && uses_param((#[trigger] list[i]).1, params)
}

/// Whether any statement of a list reads a parameter.
pub open spec fn stmts_use(list: Seq<StmtV>, params: Seq<LocalSlot>) -> bool
    decreases list,
{
    exists|i: int| 0 <= i < list.len() && stmt_uses(#[trigger] list[i], params)
}

/// Whether any expression of a list adds a parameter.
pub open spec fn exprs_add(list: Seq<ExprV>, params: Seq<LocalSlot>) -> bool
    decreases list,
{
    exists|i: int| 0 <= i < list.len() && adds_param(#[trigger] list[i], params)
}

/// Whether any arm of a match adds a parameter.
pub open spec fn arms_add(list: Seq<(PatternV, ExprV)>, params: Seq<LocalSlot>) -> bool
    decreases list,
{
    exists|i: int| 0 <= i < list.len() && adds_param((#[trigger] list[i]).1, params)
}

/// Whether any statement of a list adds a parameter.
pub open spec fn stmts_add(list: Seq<StmtV>, params: Seq<LocalSlot>) -> bool
    decreases list,
{
    exists|i: int| 0 <= i < list.len() && stmt_adds(#[trigger] list[i], params)
}

/// Whether an expression reads a parameter.
pub open spec fn uses_param(e: ExprV, params: Seq<LocalSlot>) -> bool
    decreases e,
{
    match e {
        ExprV::Var(slot) | ExprV::MoveVar(slot) => params.contains(slot),
        ExprV::Call(_, args) | ExprV::LocalCall(_, args) => exprs_use(args, params),
        ExprV::ClosureCall(closure, args) => uses_param(
            *closure.body,
            params,
        ) || exprs_use(args, params),
        ExprV::Closure(closure) => uses_param(*closure.body, params),
        ExprV::Binary(_, l, r) => uses_param(*l, params) || uses_param(*r, params),
        ExprV::Unary(_, inner) => uses_param(*inner, params),
        ExprV::IfElse(c, t, f) => uses_param(*c, params) || uses_param(*t, params) || uses_param(
            *f,
            params,
        ),
        ExprV::Match {
            value,
            arms,
            default,
            ..
        } => uses_param(*value, params) || arms_use(arms, params) || uses_param(
            *default,
            params,
        ),
        ExprV::Block(stmts, expr) => stmts_use(stmts, params) || uses_param(
            *expr,
            params,
        ),
        _ => false,
    }
}

/// Whether a statement reads a parameter.
pub open spec fn stmt_uses(s: StmtV, params: Seq<LocalSlot>) -> bool
    decreases s,
{
    match s {
        StmtV::ClosureLet { closure, .. } => uses_param(*closure.body, params),
        StmtV::Let { expr, .. } | StmtV::Assign { expr, .. } | StmtV::Expr { expr, .. } => {
            uses_param(expr, params)
        },
        StmtV::IfElse { condition, then_branch, else_branch, .. } => uses_param(condition, params)
            || stmts_use(then_branch, params) || stmts_use(else_branch, params),
        StmtV::For { init, condition, post, body, .. } => stmt_uses(*init, params) || uses_param(
            condition,
            params,
        ) || stmt_uses(*post, params) || stmts_use(body, params),
        StmtV::While {
            condition,
            body,
            ..
        } => uses_param(condition, params) || stmts_use(body, params),
        _ => false,
    }
}

/// Whether an expression holds an addition that reads a parameter.
pub open spec fn adds_param(e: ExprV, params: Seq<LocalSlot>) -> bool
    decreases e,
{
    match e {
        ExprV::Binary(op, l, r) => (op is Add && (uses_param(*l, params) || uses_param(*r, params)))
            || adds_param(*l, params) || adds_param(*r, params),
        ExprV::Call(_, args) | ExprV::LocalCall(_, args) => exprs_add(args, params),
        ExprV::ClosureCall(closure, args) => adds_param(
            *closure.body,
            params,
        ) || exprs_add(args, params),
        ExprV::Closure(closure) => adds_param(*closure.body, params),
        ExprV::Unary(_, inner) => adds_param(*inner, params),
        ExprV::IfElse(c, t, f) => adds_param(*c, params) || adds_param(*t, params) || adds_param(
            *f,
            params,
        ),
        ExprV::Match {
            value,
            arms,
            default,
            ..
        } => adds_param(*value, params) || arms_add(arms, params) || adds_param(
            *default,
            params,
        ),
        ExprV::Block(stmts, expr) => stmts_add(stmts, params) || adds_param(
            *expr,
            params,
        ),
        _ => false,
    }
}

/// Whether a statement holds an addition that reads a parameter.
pub open spec fn stmt_adds(s: StmtV, params: Seq<LocalSlot>) -> bool
    decreases s,
{
    match s {
        StmtV::ClosureLet { closure, .. } => adds_param(*closure.body, params),
        StmtV::Let { expr, .. } | StmtV::Assign { expr, .. } | StmtV::Expr { expr, .. } => {
            adds_param(expr, params)
        },
        StmtV::IfElse { condition, then_branch, else_branch, .. } => adds_param(condition, params)
            || stmts_add(then_branch, params) || stmts_add(else_branch, params),
        StmtV::For { init, condition, post, body, .. } => stmt_adds(*init, params) || adds_param(
            condition,
            params,
        ) || stmt_adds(*post, params) || stmts_add(body, params),
        StmtV::While {
            condition,
            body,
            ..
        } => adds_param(condition, params) || stmts_add(body, params),
        _ => false,
    }
}

/// Whether a function body holds an addition that reads a parameter.
pub open spec fn body_adds_param(params: Seq<LocalSlot>, stmts: Seq<StmtV>, expr: ExprV) -> bool {
    stmts_add(stmts, params) || adds_param(
        expr,
        params,
    )
}

/// Whether a slot stands in a list of slots.
pub fn slots_contain(slots: &Vec<LocalSlot>, slot: LocalSlot) -> (r: bool)
    ensures
        r == slots@.contains(slot),
{
    let mut i: usize = 0;
    while i < slots.len()
        invariant
            i <= slots@.len(),
            forall|k: int| 0 <= k < i ==> slots@[k] != slot,
        decreases slots@.len() - i,
    {
        if slots[i] == slot {
            return true;
        }
        i += 1;
    }
    false
}

/// Whether any expression of a list reads a parameter.
fn any_expr_uses(list: &Vec<Expr>, param_slots: &Vec<LocalSlot>) -> (r: bool)
    ensures
        r == exprs_use(exprs_view(list@), param_slots@),
    decreases list,
{
    let mut i: usize = 0;
    while i < list.len()
        invariant
            i <= list@.len(),
            forall|k: int|
                0 <= k < i ==> !uses_param(#[trigger] exprs_view(list@)[k], param_slots@),
        decreases list@.len() - i,
    {
        if expr_uses_param(&list[i], param_slots) {
            assert(uses_param(exprs_view(list@)[i as int], param_slots@));
            return true;
        }
        assert(!uses_param(exprs_view(list@)[i as int], param_slots@));
        i += 1;
    }
    false
}

/// Whether any arm reads a parameter.
fn any_arm_uses(list: &Vec<(MatchPattern, Expr)>, param_slots: &Vec<LocalSlot>) -> (r: bool)
    ensures
        r == arms_use(arms_view(list@), param_slots@),
    decreases list,
{
    let mut i: usize = 0;
    while i < list.len()
        invariant
            i <= list@.len(),
            forall|k: int|
                0 <= k < i ==> !uses_param((#[trigger] arms_view(list@)[k]).1, param_slots@),
        decreases list@.len() - i,
    {
        if expr_uses_param(&list[i].1, param_slots) {
            assert(uses_param(arms_view(list@)[i as int].1, param_slots@));
            return true;
        }
        assert(!uses_param(arms_view(list@)[i as int].1, param_slots@));
        i += 1;
    }
    false
}

/// Whether any statement reads a parameter.
fn any_stmt_uses(list: &Vec<Stmt>, param_slots: &Vec<LocalSlot>) -> (r: bool)
    ensures
        r == stmts_use(stmts_view(list@), param_slots@),
    decreases list,
{
    let mut i: usize = 0;
    while i < list.len()
        invariant
            i <= list@.len(),
            forall|k: int|
                0 <= k < i ==> !stmt_uses(#[trigger] stmts_view(list@)[k], param_slots@),
        decreases list@.len() - i,
    {
        if stmt_uses_param(&list[i], param_slots) {
            assert(stmt_uses(stmts_view(list@)[i as int], param_slots@));
            return true;
        }
        assert(!stmt_uses(stmts_view(list@)[i as int], param_slots@));
        i += 1;
    }
    false
}

pub fn expr_uses_param(expr: &Expr, param_slots: &Vec<LocalSlot>) -> (r: bool)
    ensures
        r == uses_param(expr@, param_slots@),
    decreases expr,
{
    match expr {
        Expr::Var(slot) | Expr::MoveVar(slot) => slots_contain(param_slots, *slot),
        Expr::Add(lhs, rhs) => expr_uses_param(lhs, param_slots) || expr_uses_param(
            rhs,
            param_slots,
        ),
        Expr::Null
        | Expr::Int(_)
        | Expr::Float(_)
        | Expr::Bool(_)
        | Expr::String(_)
        | Expr::FunctionRef(_)
        | Expr::MoveField { .. }
        | Expr::MoveIndex { .. } => false,
        Expr::Call(_, args) | Expr::LocalCall(_, args) => any_expr_uses(args, param_slots),
        Expr::ClosureCall(closure, args) => {
            assert(*closure@.body == closure.body@);
            expr_uses_param(&closure.body, param_slots) || any_expr_uses(args, param_slots)
        },
        Expr::Closure(closure) => {
            assert(*closure@.body == closure.body@);
            expr_uses_param(&closure.body, param_slots)
        },
        Expr::Sub(lhs, rhs)
        | Expr::Mul(lhs, rhs)
        | Expr::Div(lhs, rhs)
        | Expr::Mod(lhs, rhs)
        | Expr::And(lhs, rhs)
        | Expr::Or(lhs, rhs)
        | Expr::Eq(lhs, rhs)
        | Expr::Lt(lhs, rhs)
        | Expr::Gt(lhs, rhs) => expr_uses_param(lhs, param_slots) || expr_uses_param(rhs, param_slots),
        Expr::Neg(inner)
        | Expr::Not(inner)
        | Expr::ToOwned(inner)
        | Expr::Borrow(inner)
        | Expr::BorrowMut(inner) => expr_uses_param(inner, param_slots),
        Expr::IfElse { condition, then_expr, else_expr } => expr_uses_param(condition, param_slots)
            || expr_uses_param(then_expr, param_slots) || expr_uses_param(else_expr, param_slots),
        Expr::Match {
            value,
            arms,
            default,
            ..
        } => expr_uses_param(value, param_slots) || any_arm_uses(
            arms,
            param_slots,
        ) || expr_uses_param(default, param_slots),
        Expr::Block { stmts, expr } => any_stmt_uses(
            stmts,
            param_slots,
        ) || expr_uses_param(expr, param_slots),
    }
}

pub fn stmt_uses_param(stmt: &Stmt, param_slots: &Vec<LocalSlot>) -> (r: bool)
    ensures
        r == stmt_uses(stmt@, param_slots@),
    decreases stmt,
{
    match stmt {
        Stmt::Noop { .. }
        | Stmt::FuncDecl { .. }
        | Stmt::Break { .. }
        | Stmt::Continue { .. }
        | Stmt::Drop { .. } => false,
        Stmt::ClosureLet { closure, .. } => {
            assert(*closure@.body == closure.body@);
            expr_uses_param(&closure.body, param_slots)
        },
        Stmt::Let { expr, .. } | Stmt::Assign { expr, .. } | Stmt::Expr { expr, .. } => {
            expr_uses_param(expr, param_slots)
        },
        Stmt::IfElse {
            condition,
            then_branch,
            else_branch,
            ..
        } => expr_uses_param(condition, param_slots)
            || any_stmt_uses(then_branch, param_slots) || any_stmt_uses(else_branch, param_slots),
        Stmt::For {
            init,
            condition,
            post,
            body,
            ..
        } => stmt_uses_param(init, param_slots) || expr_uses_param(
            condition,
            param_slots,
        ) || stmt_uses_param(post, param_slots) || any_stmt_uses(body, param_slots),
        Stmt::While { condition, body, .. } => expr_uses_param(
            condition,
            param_slots,
        ) || any_stmt_uses(
            body,
            param_slots,
        ),
    }
}

/// Whether any expression of a list adds a parameter.
fn any_expr_adds(list: &Vec<Expr>, param_slots: &Vec<LocalSlot>) -> (r: bool)
    ensures
        r == exprs_add(exprs_view(list@), param_slots@),
    decreases list,
{
    let mut i: usize = 0;
    while i < list.len()
        invariant
            i <= list@.len(),
            forall|k: int|
                0 <= k < i ==> !adds_param(#[trigger] exprs_view(list@)[k], param_slots@),
        decreases list@.len() - i,
    {
        if expr_contains_param_add(&list[i], param_slots) {
            assert(adds_param(exprs_view(list@)[i as int], param_slots@));
            return true;
        }
        assert(!adds_param(exprs_view(list@)[i as int], param_slots@));
        i += 1;
    }
    false
}

/// Whether any arm adds a parameter.
fn any_arm_adds(list: &Vec<(MatchPattern, Expr)>, param_slots: &Vec<LocalSlot>) -> (r: bool)
    ensures
        r == arms_add(arms_view(list@), param_slots@),
    decreases list,
{
    let mut i: usize = 0;
    while i < list.len()
        invariant
            i <= list@.len(),
            forall|k: int|
                0 <= k < i ==> !adds_param((#[trigger] arms_view(list@)[k]).1, param_slots@),
        decreases list@.len() - i,
    {
        if expr_contains_param_add(&list[i].1, param_slots) {
            assert(adds_param(arms_view(list@)[i as int].1, param_slots@));
            return true;
        }
        assert(!adds_param(arms_view(list@)[i as int].1, param_slots@));
        i += 1;
    }
    false
}

/// Whether any statement adds a parameter.
fn any_stmt_adds(list: &Vec<Stmt>, param_slots: &Vec<LocalSlot>) -> (r: bool)
    ensures
        r == stmts_add(stmts_view(list@), param_slots@),
    decreases list,
{
    let mut i: usize = 0;
    while i < list.len()
        invariant
            i <= list@.len(),
            forall|k: int|
                0 <= k < i ==> !stmt_adds(#[trigger] stmts_view(list@)[k], param_slots@),
        decreases list@.len() - i,
    {
        if stmt_contains_param_add(&list[i], param_slots) {
            assert(stmt_adds(stmts_view(list@)[i as int], param_slots@));
            return true;
        }
        assert(!stmt_adds(stmts_view(list@)[i as int], param_slots@));
        i += 1;
    }
    false
}

pub fn expr_contains_param_add(expr: &Expr, param_slots: &Vec<LocalSlot>) -> (r: bool)
    ensures
        r == adds_param(expr@, param_slots@),
    decreases expr,
{
    match expr {
        Expr::Add(lhs, rhs) => expr_uses_param(
            lhs,
            param_slots,
        ) || expr_uses_param(rhs, param_slots)
            || expr_contains_param_add(lhs, param_slots) || expr_contains_param_add(
            rhs,
            param_slots,
        ),
        Expr::Var(_) | Expr::MoveVar(_) => false,
        Expr::Null
        | Expr::Int(_)
        | Expr::Float(_)
        | Expr::Bool(_)
        | Expr::String(_)
        | Expr::FunctionRef(_)
        | Expr::MoveField { .. }
        | Expr::MoveIndex { .. } => false,
        Expr::Call(_, args) | Expr::LocalCall(_, args) => any_expr_adds(args, param_slots),
        Expr::ClosureCall(closure, args) => {
            assert(*closure@.body == closure.body@);
            expr_contains_param_add(&closure.body, param_slots) || any_expr_adds(args, param_slots)
        },
        Expr::Closure(closure) => {
            assert(*closure@.body == closure.body@);
            expr_contains_param_add(&closure.body, param_slots)
        },
        Expr::Sub(lhs, rhs)
        | Expr::Mul(lhs, rhs)
        | Expr::Div(lhs, rhs)
        | Expr::Mod(lhs, rhs)
        | Expr::And(lhs, rhs)
        | Expr::Or(lhs, rhs)
        | Expr::Eq(lhs, rhs)
        | Expr::Lt(lhs, rhs)
        | Expr::Gt(lhs, rhs) => expr_contains_param_add(lhs, param_slots) || expr_contains_param_add(rhs, param_slots),
        Expr::Neg(inner)
        | Expr::Not(inner)
        | Expr::ToOwned(inner)
        | Expr::Borrow(inner)
        | Expr::BorrowMut(inner) => expr_contains_param_add(inner, param_slots),
        Expr::IfElse {
            condition,
            then_expr,
            else_expr,
        } => expr_contains_param_add(condition, param_slots)
            || expr_contains_param_add(
                then_expr,
                param_slots,
            ) || expr_contains_param_add(else_expr, param_slots),
        Expr::Match {
            value,
            arms,
            default,
            ..
        } => expr_contains_param_add(value, param_slots) || any_arm_adds(
            arms,
            param_slots,
        ) || expr_contains_param_add(default, param_slots),
        Expr::Block { stmts, expr } => any_stmt_adds(
            stmts,
            param_slots,
        ) || expr_contains_param_add(expr, param_slots),
    }
}

pub fn stmt_contains_param_add(stmt: &Stmt, param_slots: &Vec<LocalSlot>) -> (r: bool)
    ensures
        r == stmt_adds(stmt@, param_slots@),
    decreases stmt,
{
    match stmt {
        Stmt::Noop { .. }
        | Stmt::FuncDecl { .. }
        | Stmt::Break { .. }
        | Stmt::Continue { .. }
        | Stmt::Drop { .. } => false,
        Stmt::ClosureLet { closure, .. } => {
            assert(*closure@.body == closure.body@);
            expr_contains_param_add(&closure.body, param_slots)
        },
        Stmt::Let { expr, .. } | Stmt::Assign { expr, .. } | Stmt::Expr { expr, .. } => {
            expr_contains_param_add(expr, param_slots)
        },
        Stmt::IfElse {
            condition,
            then_branch,
            else_branch,
            ..
        } => expr_contains_param_add(condition, param_slots)
            || any_stmt_adds(then_branch, param_slots) || any_stmt_adds(else_branch, param_slots),
        Stmt::For {
            init,
            condition,
            post,
            body,
            ..
        } => stmt_contains_param_add(init, param_slots) || expr_contains_param_add(
            condition,
            param_slots,
        ) || stmt_contains_param_add(post, param_slots) || any_stmt_adds(body, param_slots),
        Stmt::While { condition, body, .. } => expr_contains_param_add(
            condition,
            param_slots,
        ) || any_stmt_adds(
            body,
            param_slots,
        ),
    }
}

pub fn function_body_contains_param_add(
    param_slots: &Vec<LocalSlot>,
    stmts: &Vec<Stmt>,
    expr: &Expr,
) -> (r: bool)
    ensures
        r == body_adds_param(param_slots@, stmts_view(stmts@), expr@),
{
    any_stmt_adds(stmts, param_slots) || expr_contains_param_add(expr, param_slots)
}

} // verus!
