//! How a closure or a function uses the slots that it captures.

use vstd::prelude::*;
use crate::ir::{
    arms_view, exprs_view, stmts_view, ClosureExpr, ClosureV, Expr, ExprV, FunctionImpl,
    FunctionImplV, LocalSlot, MatchPattern, PatternV, Stmt, StmtV, UnOp,
};

verus! {

/// How a captured value is taken, from the weakest way to the strongest.
#[derive(Clone, Copy, Debug, PartialEq, Eq, Structural)]
pub enum CaptureBindingMode {
    Copy,
    Borrow,
    BorrowMut,
    Move,
}

impl CaptureBindingMode {
    pub open spec fn rank(self) -> int {
        match self {
            CaptureBindingMode::Copy => 0,
            CaptureBindingMode::Borrow => 1,
            CaptureBindingMode::BorrowMut => 2,
            CaptureBindingMode::Move => 3,
        }
    }

    fn strength(self) -> (r: u8)
        ensures
            r == self.rank(),
    {
        match self {
            CaptureBindingMode::Copy => 0,
            CaptureBindingMode::Borrow => 1,
            CaptureBindingMode::BorrowMut => 2,
            CaptureBindingMode::Move => 3,
        }
    }
}

/// The stronger of two modes.
pub open spec fn stronger(a: CaptureBindingMode, b: CaptureBindingMode) -> CaptureBindingMode {
    if a.rank() >= b.rank() {
        a
    } else {
        b
    }
}

/// The strongest of two uses, where there is any.
pub open spec fn strongest(
    a: Option<CaptureBindingMode>,
    b: Option<CaptureBindingMode>,
) -> Option<CaptureBindingMode> {
    match (a, b) {
        (Some(x), Some(y)) => Some(stronger(x, y)),
        (Some(x), None) => Some(x),
        (None, _) => b,
    }
}

/// A use where a condition holds.
pub open spec fn used_if(cond: bool, mode: CaptureBindingMode) -> Option<CaptureBindingMode> {
    if cond {
        Some(mode)
    } else {
        None
    }
}

/// The strongest use of a slot by the first `n` expressions of a list.
pub open spec fn list_use(
    list: Seq<ExprV>,
    n: int,
    slot: u16,
    context: CaptureBindingMode,
) -> Option<CaptureBindingMode>
    decreases list, n,
{
    if 0 < n <= list.len() {
        strongest(
            list_use(list, n - 1, slot, context),
            expr_use(list[n - 1], slot, context),
        )
    } else {
        None
    }
}

/// The strongest use of a slot by the first `n` arms.
pub open spec fn arms_use(
    list: Seq<(PatternV, ExprV)>,
    n: int,
    slot: u16,
    context: CaptureBindingMode,
) -> Option<CaptureBindingMode>
    decreases list, n,
{
    if 0 < n <= list.len() {
        strongest(
            arms_use(list, n - 1, slot, context),
            expr_use(list[n - 1].1, slot, context),
        )
    } else {
        None
    }
}

/// The strongest use of a slot by the first `n` statements.
pub open spec fn stmts_use(
    list: Seq<StmtV>,
    n: int,
    slot: u16,
    context: CaptureBindingMode,
) -> Option<CaptureBindingMode>
    decreases list, n,
{
    if 0 < n <= list.len() {
        strongest(
            stmts_use(list, n - 1, slot, context),
            stmt_use(list[n - 1], slot, context),
        )
    } else {
        None
    }
}

/// The strongest use of a slot through the first `n` captures of a closure inside.
pub open spec fn nested_use(
    captures: Seq<(LocalSlot, LocalSlot)>,
    n: int,
    body: ExprV,
    slot: u16,
) -> Option<CaptureBindingMode>
    decreases body, n,
{
    if 0 < n <= captures.len() {
        let before = nested_use(captures, n - 1, body, slot);
        if captures[n - 1].0 == slot {
            strongest(before, expr_use(body, captures[n - 1].1, CaptureBindingMode::Move))
        } else {
            before
        }
    } else {
        None
    }
}

/// The strongest use of a slot by a closure inside.
pub open spec fn closure_use(
    c: ClosureV,
    slot: u16,
    context: CaptureBindingMode,
) -> Option<CaptureBindingMode>
    decreases c, 0int,
{
    strongest(
        nested_use(c.captures, c.captures.len() as int, *c.body, slot),
        expr_use(*c.body, slot, context),
    )
}

/// The strongest use that an expression in a given context makes of a slot.
pub open spec fn expr_use(e: ExprV, slot: u16, context: CaptureBindingMode) -> Option<
    CaptureBindingMode,
>
    decreases e, 0int,
{
    match e {
        ExprV::Var(index) => used_if(index == slot, context),
        ExprV::MoveVar(index) => used_if(index == slot, CaptureBindingMode::Move),
        ExprV::MoveField(root, _) => used_if(root == slot, CaptureBindingMode::Move),
        ExprV::MoveIndex(root, _) => used_if(root == slot, CaptureBindingMode::Move),
        ExprV::Call(_, args) => list_use(args, args.len() as int, slot, context),
        ExprV::LocalCall(_, args) => list_use(args, args.len() as int, slot, context),
        ExprV::Closure(closure) => closure_use(closure, slot, context),
        ExprV::ClosureCall(closure, args) => strongest(
            list_use(args, args.len() as int, slot, context),
            closure_use(closure, slot, context),
        ),
        ExprV::Binary(_, l, r) => strongest(
            expr_use(*l, slot, context),
            expr_use(*r, slot, context),
        ),
        ExprV::Unary(op, inner) => match op {
            UnOp::Neg | UnOp::Not => expr_use(*inner, slot, context),
            UnOp::ToOwned => expr_use(*inner, slot, CaptureBindingMode::Copy),
            UnOp::Borrow => expr_use(*inner, slot, CaptureBindingMode::Borrow),
            UnOp::BorrowMut => expr_use(*inner, slot, CaptureBindingMode::BorrowMut),
        },
        ExprV::IfElse(c, t, f) => strongest(
            strongest(expr_use(*c, slot, context), expr_use(*t, slot, context)),
            expr_use(*f, slot, context),
        ),
        ExprV::Match { value_slot, result_slot, value, arms, default } => strongest(
            strongest(
                strongest(
                    used_if(value_slot == slot || result_slot == slot, context),
                    expr_use(*value, slot, context),
                ),
                arms_use(arms, arms.len() as int, slot, context),
            ),
            expr_use(*default, slot, context),
        ),
        ExprV::Block(stmts, expr) => strongest(
            stmts_use(stmts, stmts.len() as int, slot, context),
            expr_use(*expr, slot, context),
        ),
        _ => None,
    }
}

/// The strongest use that a statement in a given context makes of a slot.
pub open spec fn stmt_use(s: StmtV, slot: u16, context: CaptureBindingMode) -> Option<
    CaptureBindingMode,
>
    decreases s, 0int,
{
    match s {
        StmtV::Drop { index, .. } => used_if(index == slot, context),
        StmtV::Let { index, expr, .. } => strongest(
            used_if(index == slot, context),
            expr_use(expr, slot, context),
        ),
        StmtV::Assign { index, expr, .. } => strongest(
            used_if(index == slot, context),
            expr_use(expr, slot, context),
        ),
        StmtV::ClosureLet { closure, .. } => closure_use(closure, slot, context),
        StmtV::Expr { expr, .. } => expr_use(expr, slot, context),
        StmtV::IfElse { condition, then_branch, else_branch, .. } => strongest(
            strongest(
                expr_use(condition, slot, context),
                stmts_use(then_branch, then_branch.len() as int, slot, context),
            ),
            stmts_use(else_branch, else_branch.len() as int, slot, context),
        ),
        StmtV::For { init, condition, post, body, .. } => strongest(
            strongest(
                strongest(stmt_use(*init, slot, context), expr_use(condition, slot, context)),
                stmt_use(*post, slot, context),
            ),
            stmts_use(body, body.len() as int, slot, context),
        ),
        StmtV::While { condition, body, .. } => strongest(
            expr_use(condition, slot, context),
            stmts_use(body, body.len() as int, slot, context),
        ),
        _ => None,
    }
}

/// How a body takes a slot that it captured: by its strongest use, and a slot that
/// it does not use is moved.
pub open spec fn mode_of_use(strongest_use: Option<CaptureBindingMode>) -> CaptureBindingMode {
    match strongest_use {
        Some(mode) => mode,
        None => CaptureBindingMode::Move,
    }
}

/// How a closure takes a captured slot.
pub open spec fn closure_capture_mode(c: ClosureV, slot: u16) -> CaptureBindingMode {
    mode_of_use(expr_use(*c.body, slot, CaptureBindingMode::Move))
}

/// How a function takes a captured slot.
pub open spec fn function_capture_mode(f: FunctionImplV, slot: u16) -> CaptureBindingMode {
    mode_of_use(
        strongest(
            stmts_use(
                f.body_stmts,
                f.body_stmts.len() as int,
                slot,
                CaptureBindingMode::Move,
            ),
            expr_use(f.body_expr, slot, CaptureBindingMode::Move),
        ),
    )
}

/// The strongest of two uses.
fn strongest_of(a: Option<CaptureBindingMode>, b: Option<CaptureBindingMode>) -> (r: Option<
    CaptureBindingMode,
>)
    ensures
        r == strongest(a, b),
{
    match (a, b) {
        (Some(x), Some(y)) => if x.strength() >= y.strength() {
            Some(x)
        } else {
            Some(y)
        },
        (Some(x), None) => Some(x),
        (None, _) => b,
    }
}

fn use_if(cond: bool, mode: CaptureBindingMode) -> (r: Option<CaptureBindingMode>)
    ensures
        r == used_if(cond, mode),
{
    if cond {
        Some(mode)
    } else {
        None
    }
}

fn mode_for(strongest_use: Option<CaptureBindingMode>) -> (r: CaptureBindingMode)
    ensures
        r == mode_of_use(strongest_use),
{
    match strongest_use {
        Some(mode) => mode,
        None => CaptureBindingMode::Move,
    }
}

fn capture_mode_for_exprs(
    list: &Vec<Expr>,
    captured_slot: LocalSlot,
    context: CaptureBindingMode,
) -> (r: Option<CaptureBindingMode>)
    ensures
        r == list_use(exprs_view(list@), list@.len() as int, captured_slot, context),
    decreases list,
{
    let mut found: Option<CaptureBindingMode> = None;
    let mut i: usize = 0;
    while i < list.len()
        invariant
            i <= list@.len(),
            found == list_use(exprs_view(list@), i as int, captured_slot, context),
        decreases list@.len() - i,
    {
        found = strongest_of(
            found,
            capture_mode_for_expr(&list[i], captured_slot, context),
        );
        i += 1;
    }
    found
}

fn capture_mode_for_arms(
    list: &Vec<(MatchPattern, Expr)>,
    captured_slot: LocalSlot,
    context: CaptureBindingMode,
) -> (r: Option<CaptureBindingMode>)
    ensures
        r == arms_use(arms_view(list@), list@.len() as int, captured_slot, context),
    decreases list,
{
    let mut found: Option<CaptureBindingMode> = None;
    let mut i: usize = 0;
    while i < list.len()
        invariant
            i <= list@.len(),
            found == arms_use(arms_view(list@), i as int, captured_slot, context),
        decreases list@.len() - i,
    {
        found = strongest_of(
            found,
            capture_mode_for_expr(&list[i].1, captured_slot, context),
        );
        i += 1;
    }
    found
}

fn capture_mode_for_stmts(
    list: &Vec<Stmt>,
    captured_slot: LocalSlot,
    context: CaptureBindingMode,
) -> (r: Option<CaptureBindingMode>)
    ensures
        r == stmts_use(stmts_view(list@), list@.len() as int, captured_slot, context),
    decreases list,
{
    let mut found: Option<CaptureBindingMode> = None;
    let mut i: usize = 0;
    while i < list.len()
        invariant
            i <= list@.len(),
            found == stmts_use(stmts_view(list@), i as int, captured_slot, context),
        decreases list@.len() - i,
    {
        found = strongest_of(
            found,
            capture_mode_for_stmt(&list[i], captured_slot, context),
        );
        i += 1;
    }
    found
}

fn capture_mode_for_closure(
    closure: &ClosureExpr,
    captured_slot: LocalSlot,
    context: CaptureBindingMode,
) -> (r: Option<CaptureBindingMode>)
    ensures
        r == closure_use(closure@, captured_slot, context),
    decreases closure,
{
    assert(*closure@.body == closure.body@);
    let mut nested: Option<CaptureBindingMode> = None;
    let mut i: usize = 0;
    while i < closure.capture_copies.len()
        invariant
            i <= closure.capture_copies@.len(),
            nested == nested_use(
                closure.capture_copies@,
                i as int,
                closure.body@,
                captured_slot,
            ),
        decreases closure.capture_copies@.len() - i,
    {
        if closure.capture_copies[i].0 == captured_slot {
            nested = strongest_of(
                nested,
                capture_mode_for_expr(
                    &closure.body,
                    closure.capture_copies[i].1,
                    CaptureBindingMode::Move,
                ),
            );
        }
        i += 1;
    }
    strongest_of(nested, capture_mode_for_expr(&closure.body, captured_slot, context))
}

fn capture_mode_for_expr(
    expr: &Expr,
    captured_slot: LocalSlot,
    context: CaptureBindingMode,
) -> (r: Option<CaptureBindingMode>)
    ensures
        r == expr_use(expr@, captured_slot, context),
    decreases expr,
{
    match expr {
        Expr::Null
        | Expr::Int(_)
        | Expr::Float(_)
        | Expr::Bool(_)
        | Expr::String(_)
        | Expr::FunctionRef(_) => None,
        Expr::Var(index) => use_if(*index == captured_slot, context),
        Expr::MoveVar(index) => use_if(*index == captured_slot, CaptureBindingMode::Move),
        Expr::MoveField { root, .. } | Expr::MoveIndex { root, .. } => use_if(
            *root == captured_slot,
            CaptureBindingMode::Move,
        ),
        Expr::Call(_, args) | Expr::LocalCall(_, args) => {
            capture_mode_for_exprs(args, captured_slot, context)
        },
        Expr::Closure(closure) => capture_mode_for_closure(closure, captured_slot, context),
        Expr::ClosureCall(closure, args) => strongest_of(
            capture_mode_for_exprs(args, captured_slot, context),
            capture_mode_for_closure(closure, captured_slot, context),
        ),
        Expr::Add(lhs, rhs)
        | Expr::Sub(lhs, rhs)
        | Expr::Mul(lhs, rhs)
        | Expr::Div(lhs, rhs)
        | Expr::Mod(lhs, rhs)
        | Expr::And(lhs, rhs)
        | Expr::Or(lhs, rhs)
        | Expr::Eq(lhs, rhs)
        | Expr::Lt(lhs, rhs)
        | Expr::Gt(lhs, rhs) => strongest_of(capture_mode_for_expr(lhs, captured_slot, context), capture_mode_for_expr(rhs, captured_slot, context)),
        Expr::Neg(inner) | Expr::Not(inner) => capture_mode_for_expr(inner, captured_slot, context),
        Expr::ToOwned(inner) => capture_mode_for_expr(
            inner,
            captured_slot,
            CaptureBindingMode::Copy,
        ),
        Expr::Borrow(inner) => capture_mode_for_expr(
            inner,
            captured_slot,
            CaptureBindingMode::Borrow,
        ),
        Expr::BorrowMut(inner) => capture_mode_for_expr(
            inner,
            captured_slot,
            CaptureBindingMode::BorrowMut,
        ),
        Expr::IfElse { condition, then_expr, else_expr } => {
            let found = strongest_of(
                capture_mode_for_expr(condition, captured_slot, context),
                capture_mode_for_expr(then_expr, captured_slot, context),
            );
            strongest_of(found, capture_mode_for_expr(else_expr, captured_slot, context))
        },
        Expr::Match { value_slot, result_slot, value, arms, default } => {
            let own = use_if(
                *value_slot == captured_slot || *result_slot == captured_slot,
                context,
            );
            let with_value = strongest_of(
                own,
                capture_mode_for_expr(value, captured_slot, context),
            );
            let with_arms = strongest_of(
                with_value,
                capture_mode_for_arms(arms, captured_slot, context),
            );
            strongest_of(with_arms, capture_mode_for_expr(default, captured_slot, context))
        },
        Expr::Block { stmts, expr } => strongest_of(
            capture_mode_for_stmts(stmts, captured_slot, context),
            capture_mode_for_expr(expr, captured_slot, context),
        ),
    }
}

fn capture_mode_for_stmt(
    stmt: &Stmt,
    captured_slot: LocalSlot,
    context: CaptureBindingMode,
) -> (r: Option<CaptureBindingMode>)
    ensures
        r == stmt_use(stmt@, captured_slot, context),
    decreases stmt,
{
    match stmt {
        Stmt::Noop { .. }
        | Stmt::FuncDecl { .. }
        | Stmt::Break { .. }
        | Stmt::Continue { .. } => None,
        Stmt::Drop { index, .. } => use_if(*index == captured_slot, context),
        Stmt::Let { index, expr, .. } | Stmt::Assign { index, expr, .. } => strongest_of(
            use_if(*index == captured_slot, context),
            capture_mode_for_expr(expr, captured_slot, context),
        ),
        Stmt::ClosureLet { closure, .. } => {
            capture_mode_for_closure(closure, captured_slot, context)
        },
        Stmt::Expr { expr, .. } => capture_mode_for_expr(expr, captured_slot, context),
        Stmt::IfElse { condition, then_branch, else_branch, .. } => {
            let found = strongest_of(
                capture_mode_for_expr(condition, captured_slot, context),
                capture_mode_for_stmts(then_branch, captured_slot, context),
            );
            strongest_of(found, capture_mode_for_stmts(else_branch, captured_slot, context))
        },
        Stmt::For { init, condition, post, body, .. } => {
            let head = strongest_of(
                capture_mode_for_stmt(init, captured_slot, context),
                capture_mode_for_expr(condition, captured_slot, context),
            );
            let clauses = strongest_of(head, capture_mode_for_stmt(post, captured_slot, context));
            strongest_of(clauses, capture_mode_for_stmts(body, captured_slot, context))
        },
        Stmt::While { condition, body, .. } => strongest_of(
            capture_mode_for_expr(condition, captured_slot, context),
            capture_mode_for_stmts(body, captured_slot, context),
        ),
    }
}

pub fn closure_capture_mode_for_slot(closure: &ClosureExpr, captured_slot: LocalSlot) -> (r:
    CaptureBindingMode)
    ensures
        r == closure_capture_mode(closure@, captured_slot),
{
    mode_for(capture_mode_for_expr(&closure.body, captured_slot, CaptureBindingMode::Move))
}

pub fn function_capture_mode_for_slot(
    function_impl: &FunctionImpl,
    captured_slot: LocalSlot,
) -> (r: CaptureBindingMode)
    ensures
        r == function_capture_mode(function_impl@, captured_slot),
{
    let in_stmts = capture_mode_for_stmts(
        &function_impl.body_stmts,
        captured_slot,
        CaptureBindingMode::Move,
    );
    let in_expr = capture_mode_for_expr(
        &function_impl.body_expr,
        captured_slot,
        CaptureBindingMode::Move,
    );
    mode_for(strongest_of(in_stmts, in_expr))
}

/// A body that moves a captured variable out anywhere captures it by move.
pub proof fn law_move_is_strongest(a: Option<CaptureBindingMode>, b: Option<CaptureBindingMode>)
    ensures
        strongest(a, b) == strongest(b, a),
        a == Some(CaptureBindingMode::Move) ==> strongest(a, b) == Some(CaptureBindingMode::Move),
{
}

/// Reading a slot through a copy alone never asks for more than a copy.
pub proof fn law_copied_slot_is_copied(slot: u16)
    ensures
        closure_capture_mode(
            ClosureV {
                params: Seq::empty(),
                captures: Seq::empty(),
                body: Box::new(ExprV::Unary(UnOp::ToOwned, Box::new(ExprV::Var(slot)))),
            },
            slot,
        ) == CaptureBindingMode::Copy,
{
    reveal_with_fuel(expr_use, 3);
}

} // verus!
