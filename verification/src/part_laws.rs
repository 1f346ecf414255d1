//! What holds of a piece of a program by what holds of its parts: the slots that it touches, how
//! it takes what it captured, whether it adds a parameter, and the lines that it stands on.

use vstd::prelude::*;
use crate::captures::{
    arms_use, expr_use, list_use, nested_use, stmt_use, stmts_use, CaptureBindingMode,
};
use crate::ir::{BinOp, ClosureV, ExprV, LocalSlot, PatternV, StmtV, UnOp};
use crate::line_map::{
    shifted_arms, shifted_closure, shifted_expr, shifted_exprs, shifted_stmt, shifted_stmts,
};
use crate::param_add::{
    adds_param, arms_add, exprs_add, exprs_use, stmt_adds, stmt_uses, stmts_add, uses_param,
};
use crate::slots::{
    any_arm_touches, any_stmt_touches, any_touches, captures_touch, closure_touches, stmt_touches,
    touches,
};

verus! {

/// A piece of a program.
pub enum Node {
    Expr(ExprV),
    Stmt(StmtV),
}

/// Expressions as pieces.
pub open spec fn of_exprs(list: Seq<ExprV>) -> Seq<Node> {
    list.map_values(|e: ExprV| Node::Expr(e))
}

/// The values of arms as pieces.
pub open spec fn of_arms(list: Seq<(PatternV, ExprV)>) -> Seq<Node> {
    list.map_values(|a: (PatternV, ExprV)| Node::Expr(a.1))
}

/// Statements as pieces.
pub open spec fn of_stmts(list: Seq<StmtV>) -> Seq<Node> {
    list.map_values(|s: StmtV| Node::Stmt(s))
}

/// The parts of a piece, in the order in which they are written.
pub open spec fn parts(n: Node) -> Seq<Node> {
    match n {
        Node::Expr(e) => match e {
            ExprV::Call(_, args) => of_exprs(args),
            ExprV::LocalCall(_, args) => of_exprs(args),
            ExprV::Closure(c) => seq![Node::Expr(*c.body)],
            ExprV::ClosureCall(c, args) => seq![Node::Expr(*c.body)] + of_exprs(args),
            ExprV::Binary(_, l, r) => seq![Node::Expr(*l), Node::Expr(*r)],
            ExprV::Unary(_, x) => seq![Node::Expr(*x)],
            ExprV::IfElse(c, t, f) => seq![Node::Expr(*c), Node::Expr(*t), Node::Expr(*f)],
            ExprV::Match { value, arms, default, .. } => seq![Node::Expr(*value)] + of_arms(arms)
                + seq![Node::Expr(*default)],
            ExprV::Block(stmts, x) => of_stmts(stmts) + seq![Node::Expr(*x)],
            _ => Seq::empty(),
        },
        Node::Stmt(s) => match s {
            StmtV::Let { expr, .. } => seq![Node::Expr(expr)],
            StmtV::Assign { expr, .. } => seq![Node::Expr(expr)],
            StmtV::Expr { expr, .. } => seq![Node::Expr(expr)],
            StmtV::ClosureLet { closure, .. } => seq![Node::Expr(*closure.body)],
            StmtV::IfElse { condition, then_branch, else_branch, .. } => seq![Node::Expr(condition)]
                + of_stmts(then_branch) + of_stmts(else_branch),
            StmtV::For { init, condition, post, body, .. } => seq![
                Node::Stmt(*init),
                Node::Expr(condition),
                Node::Stmt(*post),
            ] + of_stmts(body),
            StmtV::While { condition, body, .. } => seq![Node::Expr(condition)] + of_stmts(body),
            _ => Seq::empty(),
        },
    }
}

// ---------------------------------------------------------------------------
// The slots that a piece touches.

/// Whether a piece touches a slot.
pub open spec fn node_touches(n: Node, slot: u16) -> bool {
    match n {
        Node::Expr(e) => touches(e, slot),
        Node::Stmt(s) => stmt_touches(s, slot),
    }
}

/// Whether a closure takes or gives a slot.
pub open spec fn closure_names(c: ClosureV, slot: u16) -> bool {
    c.params.contains(slot) || exists|i: int|
        0 <= i < c.captures.len() && ((#[trigger] c.captures[i]).0 == slot || c.captures[i].1
            == slot)
}

/// Whether a piece itself, and not only a part of it, names a slot.
pub open spec fn names_slot(n: Node, slot: u16) -> bool {
    match n {
        Node::Expr(e) => match e {
            ExprV::Var(s) => s == slot,
            ExprV::MoveVar(s) => s == slot,
            ExprV::MoveField(s, _) => s == slot,
            ExprV::MoveIndex(s, _) => s == slot,
            ExprV::LocalCall(s, _) => s == slot,
            ExprV::Closure(c) => closure_names(c, slot),
            ExprV::ClosureCall(c, _) => closure_names(c, slot),
            ExprV::Match { value_slot, result_slot, .. } => value_slot == slot || result_slot
                == slot,
            _ => false,
        },
        Node::Stmt(s) => match s {
            StmtV::Let { index, .. } => index == slot,
            StmtV::Assign { index, .. } => index == slot,
            StmtV::Drop { index, .. } => index == slot,
            StmtV::ClosureLet { closure, .. } => closure_names(closure, slot),
            _ => false,
        },
    }
}

proof fn lemma_captures_touch(captures: Seq<(LocalSlot, LocalSlot)>, n: int, slot: u16)
    requires
        0 <= n <= captures.len(),
    ensures
        captures_touch(captures, n, slot) <==> exists|i: int|
            0 <= i < n && ((#[trigger] captures[i]).0 == slot || captures[i].1 == slot),
    decreases n,
{
    if n > 0 {
        lemma_captures_touch(captures, n - 1, slot);
    }
}

proof fn lemma_any_touches(list: Seq<ExprV>, n: int, slot: u16)
    requires
        0 <= n <= list.len(),
    ensures
        any_touches(list, n, slot) <==> exists|i: int|
            0 <= i < n && touches(#[trigger] list[i], slot),
    decreases n,
{
    if n > 0 {
        lemma_any_touches(list, n - 1, slot);
    }
}

proof fn lemma_any_arm_touches(list: Seq<(PatternV, ExprV)>, n: int, slot: u16)
    requires
        0 <= n <= list.len(),
    ensures
        any_arm_touches(list, n, slot) <==> exists|i: int|
            0 <= i < n && touches((#[trigger] list[i]).1, slot),
    decreases n,
{
    if n > 0 {
        lemma_any_arm_touches(list, n - 1, slot);
    }
}

proof fn lemma_any_stmt_touches(list: Seq<StmtV>, n: int, slot: u16)
    requires
        0 <= n <= list.len(),
    ensures
        any_stmt_touches(list, n, slot) <==> exists|i: int|
            0 <= i < n && stmt_touches(#[trigger] list[i], slot),
    decreases n,
{
    if n > 0 {
        lemma_any_stmt_touches(list, n - 1, slot);
    }
}

/// A part of a piece that touches a slot.
pub open spec fn part_touches(n: Node, slot: u16) -> bool {
    exists|i: int| 0 <= i < parts(n).len() && node_touches(#[trigger] parts(n)[i], slot)
}

/// A piece touches the slots that it names and those that its parts touch, and no others.
pub proof fn law_pieces_touch_what_their_parts_touch(n: Node, slot: u16)
    ensures
        node_touches(n, slot) <==> names_slot(n, slot) || part_touches(n, slot),
{
    let p = parts(n);
    match n {
        Node::Expr(e) => match e {
            ExprV::Call(_, args) => lemma_exprs_part(n, args, 0, slot),
            ExprV::LocalCall(_, args) => lemma_exprs_part(n, args, 0, slot),
            ExprV::Closure(c) => {
                lemma_captures_touch(c.captures, c.captures.len() as int, slot);
                assert(touches(e, slot) == closure_touches(c, slot));
                assert(p[0] == Node::Expr(*c.body));
            },
            ExprV::ClosureCall(c, args) => {
                lemma_captures_touch(c.captures, c.captures.len() as int, slot);
                assert(closure_touches(c, slot) == (closure_names(c, slot) || touches(
                    *c.body,
                    slot,
                )));
                assert(p[0] == Node::Expr(*c.body));
                lemma_exprs_part(n, args, 1, slot);
                assert(forall|i: int|
                    0 <= i < p.len() ==> i == 0 || p[i] == of_exprs(args)[i - 1]);
            },
            ExprV::Binary(_, l, r) => {
                assert(p[0] == Node::Expr(*l) && p[1] == Node::Expr(*r));
            },
            ExprV::Unary(_, x) => {
                assert(p[0] == Node::Expr(*x));
            },
            ExprV::IfElse(c, t, f) => {
                assert(p[0] == Node::Expr(*c) && p[1] == Node::Expr(*t) && p[2] == Node::Expr(*f));
            },
            ExprV::Match { value, arms, default, .. } => {
                lemma_any_arm_touches(arms, arms.len() as int, slot);
                let k = arms.len() as int;
                assert(p[0] == Node::Expr(*value));
                assert(p[k + 1] == Node::Expr(*default));
                assert(forall|i: int|
                    0 <= i < k ==> p[i + 1] == Node::Expr((#[trigger] arms[i]).1));
                assert(forall|i: int|
                    0 < i <= k ==> #[trigger] p[i] == Node::Expr(arms[i - 1].1));
                if any_arm_touches(arms, k, slot) {
                    let i = choose|i: int| 0 <= i < k && touches((#[trigger] arms[i]).1, slot);
                    assert(node_touches(p[i + 1], slot));
                }
            },
            ExprV::Block(stmts, x) => {
                assert(p[stmts.len() as int] == Node::Expr(*x));
                lemma_stmts_part(n, stmts, 0, slot);
            },
            _ => {},
        },
        Node::Stmt(s) => match s {
            StmtV::Let { expr, .. } => {
                assert(p[0] == Node::Expr(expr));
            },
            StmtV::Assign { expr, .. } => {
                assert(p[0] == Node::Expr(expr));
            },
            StmtV::Expr { expr, .. } => {
                assert(p[0] == Node::Expr(expr));
            },
            StmtV::ClosureLet { closure, .. } => {
                lemma_captures_touch(closure.captures, closure.captures.len() as int, slot);
                assert(stmt_touches(s, slot) == closure_touches(closure, slot));
                assert(p[0] == Node::Expr(*closure.body));
            },
            StmtV::IfElse { condition, then_branch, else_branch, .. } => {
                assert(p[0] == Node::Expr(condition));
                lemma_stmts_part(n, then_branch, 1, slot);
                lemma_stmts_part(n, else_branch, 1 + then_branch.len() as int, slot);
            },
            StmtV::For { init, condition, post, body, .. } => {
                assert(p[0] == Node::Stmt(*init));
                assert(p[1] == Node::Expr(condition));
                assert(p[2] == Node::Stmt(*post));
                lemma_stmts_part(n, body, 3, slot);
            },
            StmtV::While { condition, body, .. } => {
                assert(p[0] == Node::Expr(condition));
                lemma_stmts_part(n, body, 1, slot);
            },
            _ => {},
        },
    }
}

proof fn lemma_exprs_part(n: Node, list: Seq<ExprV>, from: int, slot: u16)
    requires
        0 <= from,
        from + list.len() <= parts(n).len(),
        forall|i: int| 0 <= i < list.len() ==> parts(n)[from + i] == Node::Expr(#[trigger] list[i]),
    ensures
        any_touches(list, list.len() as int, slot) <==> exists|i: int|
            from <= i < from + list.len() && node_touches(#[trigger] parts(n)[i], slot),
{
    lemma_any_touches(list, list.len() as int, slot);
    let p = parts(n);
    if any_touches(list, list.len() as int, slot) {
        let i = choose|i: int| 0 <= i < list.len() && touches(#[trigger] list[i], slot);
        assert(node_touches(p[from + i], slot));
    }
    if exists|i: int| from <= i < from + list.len() && node_touches(#[trigger] p[i], slot) {
        let i = choose|i: int| from <= i < from + list.len() && node_touches(#[trigger] p[i], slot);
        assert(p[from + (i - from)] == Node::Expr(list[i - from]));
        assert(touches(list[i - from], slot));
    }
}

proof fn lemma_stmts_part(n: Node, list: Seq<StmtV>, from: int, slot: u16)
    requires
        0 <= from,
        from + list.len() <= parts(n).len(),
        forall|i: int| 0 <= i < list.len() ==> parts(n)[from + i] == Node::Stmt(#[trigger] list[i]),
    ensures
        any_stmt_touches(list, list.len() as int, slot) <==> exists|i: int|
            from <= i < from + list.len() && node_touches(#[trigger] parts(n)[i], slot),
{
    lemma_any_stmt_touches(list, list.len() as int, slot);
    let p = parts(n);
    if any_stmt_touches(list, list.len() as int, slot) {
        let i = choose|i: int| 0 <= i < list.len() && stmt_touches(#[trigger] list[i], slot);
        assert(node_touches(p[from + i], slot));
    }
    if exists|i: int| from <= i < from + list.len() && node_touches(#[trigger] p[i], slot) {
        let i = choose|i: int| from <= i < from + list.len() && node_touches(#[trigger] p[i], slot);
        assert(p[from + (i - from)] == Node::Stmt(list[i - from]));
        assert(stmt_touches(list[i - from], slot));
    }
}

// ---------------------------------------------------------------------------
// Parameters.

/// Whether a piece reads a parameter.
pub open spec fn node_uses(n: Node, params: Seq<LocalSlot>) -> bool {
    match n {
        Node::Expr(e) => uses_param(e, params),
        Node::Stmt(s) => stmt_uses(s, params),
    }
}

/// Whether a piece holds an addition that reads a parameter.
pub open spec fn node_adds(n: Node, params: Seq<LocalSlot>) -> bool {
    match n {
        Node::Expr(e) => adds_param(e, params),
        Node::Stmt(s) => stmt_adds(s, params),
    }
}

/// Whether a piece reads a parameter by itself.
pub open spec fn reads_param(n: Node, params: Seq<LocalSlot>) -> bool {
    match n {
        Node::Expr(ExprV::Var(s)) => params.contains(s),
        Node::Expr(ExprV::MoveVar(s)) => params.contains(s),
        _ => false,
    }
}

/// Whether a piece is an addition.
pub open spec fn is_addition(n: Node) -> bool {
    n matches Node::Expr(ExprV::Binary(BinOp::Add, _, _))
}

/// A part of a piece that reads a parameter.
pub open spec fn part_uses(n: Node, params: Seq<LocalSlot>) -> bool {
    exists|i: int| 0 <= i < parts(n).len() && node_uses(#[trigger] parts(n)[i], params)
}

/// A part of a piece that adds a parameter.
pub open spec fn part_adds(n: Node, params: Seq<LocalSlot>) -> bool {
    exists|i: int| 0 <= i < parts(n).len() && node_adds(#[trigger] parts(n)[i], params)
}

proof fn lemma_exprs_use_part(n: Node, list: Seq<ExprV>, from: int, params: Seq<LocalSlot>)
    requires
        0 <= from,
        from + list.len() <= parts(n).len(),
        forall|i: int|
            0 <= i < list.len() ==> parts(n)[from + i] == Node::Expr(#[trigger] list[i]),
    ensures
        exprs_use(list, params) <==> exists|i: int|
            from <= i < from + list.len() && node_uses(#[trigger] parts(n)[i], params),
{
    let p = parts(n);
    if exprs_use(list, params) {
        let i = choose|i: int|
            0 <= i < list.len() && uses_param(#[trigger] list[i], params);
        assert(node_uses(p[from + i], params));
    }
    if exists|i: int| from <= i < from + list.len() && node_uses(#[trigger] p[i], params) {
        let i = choose|i: int|
            from <= i < from + list.len() && node_uses(#[trigger] p[i], params);
        let x = list[i - from];
        assert(p[from + (i - from)] == Node::Expr(x));
        assert(uses_param(x, params));
    }
}

proof fn lemma_arms_use_part(
    n: Node,
    list: Seq<(PatternV, ExprV)>,
    from: int,
    params: Seq<LocalSlot>,
)
    requires
        0 <= from,
        from + list.len() <= parts(n).len(),
        forall|i: int|
            0 <= i < list.len() ==> parts(n)[from + i] == Node::Expr((#[trigger] list[i]).1),
    ensures
        crate::param_add::arms_use(list, params) <==> exists|i: int|
            from <= i < from + list.len() && node_uses(#[trigger] parts(n)[i], params),
{
    let p = parts(n);
    if crate::param_add::arms_use(list, params) {
        let i = choose|i: int|
            0 <= i < list.len() && uses_param((#[trigger] list[i]).1, params);
        assert(node_uses(p[from + i], params));
    }
    if exists|i: int| from <= i < from + list.len() && node_uses(#[trigger] p[i], params) {
        let i = choose|i: int|
            from <= i < from + list.len() && node_uses(#[trigger] p[i], params);
        let x = list[i - from];
        assert(p[from + (i - from)] == Node::Expr(x.1));
        assert(uses_param(x.1, params));
    }
}

proof fn lemma_stmts_use_part(n: Node, list: Seq<StmtV>, from: int, params: Seq<LocalSlot>)
    requires
        0 <= from,
        from + list.len() <= parts(n).len(),
        forall|i: int|
            0 <= i < list.len() ==> parts(n)[from + i] == Node::Stmt(#[trigger] list[i]),
    ensures
        crate::param_add::stmts_use(list, params) <==> exists|i: int|
            from <= i < from + list.len() && node_uses(#[trigger] parts(n)[i], params),
{
    let p = parts(n);
    if crate::param_add::stmts_use(list, params) {
        let i = choose|i: int|
            0 <= i < list.len() && stmt_uses(#[trigger] list[i], params);
        assert(node_uses(p[from + i], params));
    }
    if exists|i: int| from <= i < from + list.len() && node_uses(#[trigger] p[i], params) {
        let i = choose|i: int|
            from <= i < from + list.len() && node_uses(#[trigger] p[i], params);
        let x = list[i - from];
        assert(p[from + (i - from)] == Node::Stmt(x));
        assert(stmt_uses(x, params));
    }
}

proof fn lemma_exprs_add_part(n: Node, list: Seq<ExprV>, from: int, params: Seq<LocalSlot>)
    requires
        0 <= from,
        from + list.len() <= parts(n).len(),
        forall|i: int|
            0 <= i < list.len() ==> parts(n)[from + i] == Node::Expr(#[trigger] list[i]),
    ensures
        exprs_add(list, params) <==> exists|i: int|
            from <= i < from + list.len() && node_adds(#[trigger] parts(n)[i], params),
{
    let p = parts(n);
    if exprs_add(list, params) {
        let i = choose|i: int|
            0 <= i < list.len() && adds_param(#[trigger] list[i], params);
        assert(node_adds(p[from + i], params));
    }
    if exists|i: int| from <= i < from + list.len() && node_adds(#[trigger] p[i], params) {
        let i = choose|i: int|
            from <= i < from + list.len() && node_adds(#[trigger] p[i], params);
        let x = list[i - from];
        assert(p[from + (i - from)] == Node::Expr(x));
        assert(adds_param(x, params));
    }
}

proof fn lemma_arms_add_part(
    n: Node,
    list: Seq<(PatternV, ExprV)>,
    from: int,
    params: Seq<LocalSlot>,
)
    requires
        0 <= from,
        from + list.len() <= parts(n).len(),
        forall|i: int|
            0 <= i < list.len() ==> parts(n)[from + i] == Node::Expr((#[trigger] list[i]).1),
    ensures
        arms_add(list, params) <==> exists|i: int|
            from <= i < from + list.len() && node_adds(#[trigger] parts(n)[i], params),
{
    let p = parts(n);
    if arms_add(list, params) {
        let i = choose|i: int|
            0 <= i < list.len() && adds_param((#[trigger] list[i]).1, params);
        assert(node_adds(p[from + i], params));
    }
    if exists|i: int| from <= i < from + list.len() && node_adds(#[trigger] p[i], params) {
        let i = choose|i: int|
            from <= i < from + list.len() && node_adds(#[trigger] p[i], params);
        let x = list[i - from];
        assert(p[from + (i - from)] == Node::Expr(x.1));
        assert(adds_param(x.1, params));
    }
}

proof fn lemma_stmts_add_part(n: Node, list: Seq<StmtV>, from: int, params: Seq<LocalSlot>)
    requires
        0 <= from,
        from + list.len() <= parts(n).len(),
        forall|i: int|
            0 <= i < list.len() ==> parts(n)[from + i] == Node::Stmt(#[trigger] list[i]),
    ensures
        stmts_add(list, params) <==> exists|i: int|
            from <= i < from + list.len() && node_adds(#[trigger] parts(n)[i], params),
{
    let p = parts(n);
    if stmts_add(list, params) {
        let i = choose|i: int|
            0 <= i < list.len() && stmt_adds(#[trigger] list[i], params);
        assert(node_adds(p[from + i], params));
    }
    if exists|i: int| from <= i < from + list.len() && node_adds(#[trigger] p[i], params) {
        let i = choose|i: int|
            from <= i < from + list.len() && node_adds(#[trigger] p[i], params);
        let x = list[i - from];
        assert(p[from + (i - from)] == Node::Stmt(x));
        assert(stmt_adds(x, params));
    }
}

/// A piece reads a parameter where it is one, or where a part of it reads one.
pub proof fn law_pieces_use_what_their_parts_use(n: Node, params: Seq<LocalSlot>)
    ensures
        node_uses(n, params) <==> reads_param(n, params) || part_uses(n, params),
{
    lemma_parts_in_place(n);
    match n {
        Node::Expr(e) => match e {
            ExprV::Call(_, args) | ExprV::LocalCall(_, args) => {
                lemma_exprs_use_part(n, args, 0, params);
                assert(uses_param(e, params) == exprs_use(args, params));
            },
            ExprV::ClosureCall(c, args) => {
                lemma_exprs_use_part(n, args, 1, params);
                assert(uses_param(e, params) == (uses_param(*c.body, params) || exprs_use(
                    args,
                    params,
                )));
            },
            ExprV::Match { value, arms, default, .. } => {
                lemma_arms_use_part(n, arms, 1, params);
                assert(uses_param(e, params) == (uses_param(*value, params)
                    || crate::param_add::arms_use(arms, params) || uses_param(
                    *default,
                    params,
                )));
            },
            ExprV::Block(stmts, x) => {
                lemma_stmts_use_part(n, stmts, 0, params);
                assert(uses_param(e, params) == (crate::param_add::stmts_use(stmts, params)
                    || uses_param(*x, params)));
            },
            _ => {},
        },
        Node::Stmt(s) => match s {
            StmtV::IfElse { condition, then_branch, else_branch, .. } => {
                lemma_stmts_use_part(n, then_branch, 1, params);
                lemma_stmts_use_part(n, else_branch, 1 + then_branch.len() as int, params);
                assert(stmt_uses(s, params) == (uses_param(
                    condition,
                    params,
                ) || crate::param_add::stmts_use(
                    then_branch,
                    params,
                ) || crate::param_add::stmts_use(else_branch, params)));
            },
            StmtV::For { init, condition, post, body, .. } => {
                lemma_stmts_use_part(n, body, 3, params);
                assert(stmt_uses(s, params) == (stmt_uses(*init, params) || uses_param(
                    condition,
                    params,
                ) || stmt_uses(*post, params) || crate::param_add::stmts_use(body, params)));
            },
            StmtV::While { condition, body, .. } => {
                lemma_stmts_use_part(n, body, 1, params);
                assert(stmt_uses(s, params) == (uses_param(
                    condition,
                    params,
                ) || crate::param_add::stmts_use(
                    body,
                    params,
                )));
            },
            _ => {},
        },
    }
}

/// A piece adds a parameter where it is an addition of which a part reads one, or where a part
/// of it adds one.
pub proof fn law_pieces_add_what_their_parts_add(n: Node, params: Seq<LocalSlot>)
    ensures
        node_adds(n, params) <==> (is_addition(n) && part_uses(n, params)) || part_adds(n, params),
{
    lemma_parts_in_place(n);
    match n {
        Node::Expr(e) => match e {
            ExprV::Call(_, args) | ExprV::LocalCall(_, args) => {
                lemma_exprs_add_part(n, args, 0, params);
                assert(adds_param(e, params) == exprs_add(args, params));
            },
            ExprV::ClosureCall(c, args) => {
                lemma_exprs_add_part(n, args, 1, params);
                assert(adds_param(e, params) == (adds_param(*c.body, params) || exprs_add(
                    args,
                    params,
                )));
            },
            ExprV::Match { value, arms, default, .. } => {
                lemma_arms_add_part(n, arms, 1, params);
                assert(adds_param(e, params) == (adds_param(*value, params) || arms_add(
                    arms,
                    params,
                ) || adds_param(*default, params)));
            },
            ExprV::Block(stmts, x) => {
                lemma_stmts_add_part(n, stmts, 0, params);
                assert(adds_param(e, params) == (stmts_add(stmts, params) || adds_param(
                    *x,
                    params,
                )));
            },
            _ => {},
        },
        Node::Stmt(s) => match s {
            StmtV::IfElse { condition, then_branch, else_branch, .. } => {
                lemma_stmts_add_part(n, then_branch, 1, params);
                lemma_stmts_add_part(n, else_branch, 1 + then_branch.len() as int, params);
                assert(stmt_adds(s, params) == (adds_param(condition, params) || stmts_add(
                    then_branch,
                    params,
                ) || stmts_add(else_branch, params)));
            },
            StmtV::For { init, condition, post, body, .. } => {
                lemma_stmts_add_part(n, body, 3, params);
                assert(stmt_adds(s, params) == (stmt_adds(*init, params) || adds_param(
                    condition,
                    params,
                ) || stmt_adds(*post, params) || stmts_add(body, params)));
            },
            StmtV::While { condition, body, .. } => {
                lemma_stmts_add_part(n, body, 1, params);
                assert(stmt_adds(s, params) == (adds_param(condition, params) || stmts_add(
                    body,
                    params,
                )));
            },
            _ => {},
        },
    }
}

proof fn lemma_parts_in_place(n: Node)
    ensures
        match n {
            Node::Expr(e) => match e {
                ExprV::Call(_, args) | ExprV::LocalCall(_, args) => (forall|i: int|
                    0 <= i < args.len() ==> #[trigger] parts(n)[i] == Node::Expr(args[i])) && (
                forall|i: int|
                    0 <= i < args.len() ==> parts(n)[i] == Node::Expr(#[trigger] args[i]))
                    && parts(n).len() == args.len(),
                ExprV::ClosureCall(c, args) => parts(n)[0] == Node::Expr(*c.body) && (forall|i: int|
                    1 <= i <= args.len() ==> #[trigger] parts(n)[i] == Node::Expr(args[i - 1])) && (
                forall|i: int|
                    0 <= i < args.len() ==> parts(n)[i + 1] == Node::Expr(#[trigger] args[i]))
                    && parts(n).len() == args.len() + 1,
                ExprV::Closure(c) => parts(n)[0] == Node::Expr(*c.body) && parts(n).len() == 1,
                ExprV::Binary(_, l, r) => parts(n)[0] == Node::Expr(*l) && parts(n)[1]
                    == Node::Expr(*r) && parts(n).len() == 2,
                ExprV::Unary(_, x) => parts(n)[0] == Node::Expr(*x) && parts(n).len() == 1,
                ExprV::IfElse(c, t, f) => parts(n)[0] == Node::Expr(*c) && parts(n)[1]
                    == Node::Expr(*t) && parts(n)[2] == Node::Expr(*f) && parts(n).len() == 3,
                ExprV::Match { value, arms, default, .. } => parts(n)[0] == Node::Expr(*value)
                    && parts(n)[arms.len() as int + 1] == Node::Expr(*default) && (forall|i: int|
                    1 <= i <= arms.len() ==> #[trigger] parts(n)[i] == Node::Expr(arms[i - 1].1))
                    && (forall|i: int|
                    0 <= i < arms.len() ==> parts(n)[i + 1] == Node::Expr((#[trigger] arms[i]).1))
                    && parts(n).len() == arms.len() + 2,
                ExprV::Block(stmts, x) => parts(n)[stmts.len() as int] == Node::Expr(*x) && (forall|
                    i: int,
                |
                    0 <= i < stmts.len() ==> #[trigger] parts(n)[i] == Node::Stmt(stmts[i])) && (
                forall|i: int|
                    0 <= i < stmts.len() ==> parts(n)[i] == Node::Stmt(#[trigger] stmts[i]))
                    && parts(n).len() == stmts.len() + 1,
                _ => parts(n).len() == 0,
            },
            Node::Stmt(s) => match s {
                StmtV::Let { expr, .. } | StmtV::Assign { expr, .. } | StmtV::Expr { expr, .. } =>
                parts(n)[0] == Node::Expr(expr) && parts(n).len() == 1,
                StmtV::ClosureLet { closure, .. } => parts(n)[0] == Node::Expr(*closure.body)
                    && parts(n).len() == 1,
                StmtV::IfElse { condition, then_branch, else_branch, .. } => parts(n)[0]
                    == Node::Expr(condition) && (forall|i: int|
                    0 <= i < then_branch.len() ==> parts(n)[i + 1] == Node::Stmt(
                        #[trigger] then_branch[i],
                    )) && (forall|i: int|
                    1 <= i <= then_branch.len() ==> #[trigger] parts(n)[i] == Node::Stmt(
                        then_branch[i - 1],
                    )) && (forall|i: int|
                    0 <= i < else_branch.len() ==> parts(n)[i + 1 + then_branch.len() as int]
                        == Node::Stmt(#[trigger] else_branch[i])) && (forall|i: int|
                    1 + then_branch.len() <= i < parts(n).len() ==> #[trigger] parts(n)[i]
                        == Node::Stmt(else_branch[i - 1 - then_branch.len() as int])) && parts(n).len()
                    == 1 + then_branch.len() + else_branch.len(),
                StmtV::For { init, condition, post, body, .. } => parts(n)[0] == Node::Stmt(*init)
                    && parts(n)[1] == Node::Expr(condition) && parts(n)[2] == Node::Stmt(*post) && (
                forall|i: int|
                    0 <= i < body.len() ==> parts(n)[i + 3] == Node::Stmt(#[trigger] body[i])) && (
                forall|i: int|
                    3 <= i < parts(n).len() ==> #[trigger] parts(n)[i] == Node::Stmt(body[i - 3]))
                    && parts(n).len() == 3 + body.len(),
                StmtV::While { condition, body, .. } => parts(n)[0] == Node::Expr(condition) && (
                forall|i: int|
                    0 <= i < body.len() ==> parts(n)[i + 1] == Node::Stmt(#[trigger] body[i])) && (
                forall|i: int|
                    1 <= i < parts(n).len() ==> #[trigger] parts(n)[i] == Node::Stmt(body[i - 1]))
                    && parts(n).len() == 1 + body.len(),
                _ => parts(n).len() == 0,
            },
        },
{
}

// ---------------------------------------------------------------------------
// Lines.

/// A piece with its lines shifted.
pub open spec fn node_shifted(n: Node, offset: u32) -> Node {
    match n {
        Node::Expr(e) => Node::Expr(shifted_expr(e, offset)),
        Node::Stmt(s) => Node::Stmt(shifted_stmt(s, offset)),
    }
}

/// The line of a statement.
pub open spec fn line_of(s: StmtV) -> u32 {
    match s {
        StmtV::Noop(line) => line,
        StmtV::Break(line) => line,
        StmtV::Continue(line) => line,
        StmtV::Let { line, .. } => line,
        StmtV::Assign { line, .. } => line,
        StmtV::ClosureLet { line, .. } => line,
        StmtV::FuncDecl { line, .. } => line,
        StmtV::Expr { line, .. } => line,
        StmtV::IfElse { line, .. } => line,
        StmtV::For { line, .. } => line,
        StmtV::While { line, .. } => line,
        StmtV::Drop { line, .. } => line,
    }
}

/// Whether two pieces are alike but for their parts and lines.
pub open spec fn alike(a: Node, b: Node) -> bool {
    match (a, b) {
        (Node::Expr(a), Node::Expr(b)) => match (a, b) {
            (ExprV::Call(i, x), ExprV::Call(j, y)) => i == j && x.len() == y.len(),
            (ExprV::LocalCall(i, x), ExprV::LocalCall(j, y)) => i == j && x.len() == y.len(),
            (ExprV::Closure(x), ExprV::Closure(y)) => x.params == y.params && x.captures
                == y.captures,
            (ExprV::ClosureCall(x, p), ExprV::ClosureCall(y, q)) => x.params == y.params
                && x.captures == y.captures && p.len() == q.len(),
            (ExprV::Binary(i, _, _), ExprV::Binary(j, _, _)) => i == j,
            (ExprV::Unary(i, _), ExprV::Unary(j, _)) => i == j,
            (ExprV::IfElse(_, _, _), ExprV::IfElse(_, _, _)) => true,
            (
                ExprV::Match { value_slot: i, result_slot: j, arms: x, .. },
                ExprV::Match { value_slot: k, result_slot: l, arms: y, .. },
            ) => i == k && j == l && x.len() == y.len() && forall|m: int|
                0 <= m < x.len() ==> (#[trigger] x[m]).0 == y[m].0,
            (ExprV::Block(x, _), ExprV::Block(y, _)) => x.len() == y.len(),
            _ => a == b,
        },
        (Node::Stmt(a), Node::Stmt(b)) => match (a, b) {
            (StmtV::Noop(_), StmtV::Noop(_)) => true,
            (StmtV::Break(_), StmtV::Break(_)) => true,
            (StmtV::Continue(_), StmtV::Continue(_)) => true,
            (StmtV::Drop { index: i, .. }, StmtV::Drop { index: j, .. }) => i == j,
            (StmtV::Let { index: i, .. }, StmtV::Let { index: j, .. }) => i == j,
            (StmtV::Assign { index: i, .. }, StmtV::Assign { index: j, .. }) => i == j,
            (StmtV::ClosureLet { closure: x, .. }, StmtV::ClosureLet { closure: y, .. }) => x == y,
            (
                StmtV::FuncDecl { name: a, index: b, arity: c, args: d, exported: e, .. },
                StmtV::FuncDecl { name: f, index: g, arity: h, args: i, exported: j, .. },
            ) => a == f && b == g && c == h && d == i && e == j,
            (StmtV::Expr { .. }, StmtV::Expr { .. }) => true,
            (StmtV::IfElse { then_branch: x, .. }, StmtV::IfElse { then_branch: y, .. }) => x.len()
                == y.len(),
            (StmtV::For { .. }, StmtV::For { .. }) => true,
            (StmtV::While { .. }, StmtV::While { .. }) => true,
            _ => false,
        },
        _ => false,
    }
}

/// Shifting lines changes lines alone: a piece stays what it is, its parts are shifted in their
/// places, and every statement counts its line from the first one behind the shift.
pub proof fn law_shifting_changes_lines_alone(n: Node, offset: u32)
    ensures
        alike(n, node_shifted(n, offset)),
        n matches Node::Stmt(s) ==> (line_of(s) > offset ==> line_of(shifted_stmt(s, offset))
            + offset == line_of(s)) && (line_of(s) <= offset ==> line_of(shifted_stmt(s, offset))
            == 1),
        !(n matches Node::Stmt(StmtV::ClosureLet { .. })) ==> parts(node_shifted(n, offset)).len()
            == parts(n).len() && forall|i: int|
            0 <= i < parts(n).len() ==> parts(node_shifted(n, offset))[i] == node_shifted(
                #[trigger] parts(n)[i],
                offset,
            ),
{
    let m = node_shifted(n, offset);
    lemma_parts_in_place(n);
    lemma_parts_in_place(m);
    match n {
        Node::Expr(e) => match e {
            ExprV::Call(_, args) | ExprV::LocalCall(_, args) => {
                assert(shifted_exprs(args, offset).len() == args.len());
                assert forall|i: int| 0 <= i < parts(n).len() implies parts(m)[i] == node_shifted(
                    #[trigger] parts(n)[i],
                    offset,
                ) by {
                    assert(shifted_exprs(args, offset)[i] == shifted_expr(args[i], offset));
                }
            },
            ExprV::Closure(c) => {
                assert(shifted_closure(c, offset).body == Box::new(shifted_expr(*c.body, offset)));
            },
            ExprV::ClosureCall(c, args) => {
                assert(shifted_closure(c, offset).body == Box::new(shifted_expr(*c.body, offset)));
                assert(shifted_exprs(args, offset).len() == args.len());
                assert forall|i: int| 0 <= i < parts(n).len() implies parts(m)[i] == node_shifted(
                    #[trigger] parts(n)[i],
                    offset,
                ) by {
                    if i > 0 {
                        assert(shifted_exprs(args, offset)[i - 1] == shifted_expr(
                            args[i - 1],
                            offset,
                        ));
                    }
                }
            },
            ExprV::Match { arms, .. } => {
                let shifted = shifted_arms(arms, offset);
                assert(shifted.len() == arms.len());
                assert(forall|i: int|
                    0 <= i < arms.len() ==> (#[trigger] arms[i]).0 == shifted[i].0);
                assert forall|i: int| 0 <= i < parts(n).len() implies parts(m)[i] == node_shifted(
                    #[trigger] parts(n)[i],
                    offset,
                ) by {
                    if 1 <= i <= arms.len() {
                        assert(shifted[i - 1].1 == shifted_expr(arms[i - 1].1, offset));
                    }
                }
            },
            ExprV::Block(stmts, _) => {
                lemma_stmts_shifted(stmts, offset);
                assert forall|i: int| 0 <= i < parts(n).len() implies parts(m)[i] == node_shifted(
                    #[trigger] parts(n)[i],
                    offset,
                ) by {
                    if i < stmts.len() {
                        assert(shifted_stmts(stmts, offset)[i] == shifted_stmt(stmts[i], offset));
                    }
                }
            },
            _ => {},
        },
        Node::Stmt(s) => match s {
            StmtV::IfElse { then_branch, else_branch, .. } => {
                lemma_stmts_shifted(then_branch, offset);
                lemma_stmts_shifted(else_branch, offset);
            },
            StmtV::For { body, .. } => lemma_stmts_shifted(body, offset),
            StmtV::While { body, .. } => lemma_stmts_shifted(body, offset),
            _ => {},
        },
    }
}

proof fn lemma_stmts_shifted(list: Seq<StmtV>, offset: u32)
    ensures
        shifted_stmts(list, offset).len() == list.len(),
        forall|i: int|
            0 <= i < list.len() ==> #[trigger] shifted_stmts(list, offset)[i] == shifted_stmt(
                list[i],
                offset,
            ),
{
}

// ---------------------------------------------------------------------------
// Captures.

/// How a piece uses a slot.
pub open spec fn node_use(n: Node, slot: u16, context: CaptureBindingMode) -> Option<
    CaptureBindingMode,
> {
    match n {
        Node::Expr(e) => expr_use(e, slot, context),
        Node::Stmt(s) => stmt_use(s, slot, context),
    }
}

/// Whether a piece is a closure or binds one.
pub open spec fn holds_closure(n: Node) -> bool {
    match n {
        Node::Expr(ExprV::Closure(_)) => true,
        Node::Expr(ExprV::ClosureCall(_, _)) => true,
        Node::Stmt(StmtV::ClosureLet { .. }) => true,
        _ => false,
    }
}

/// How the parts of a piece are taken: a copy copies, a borrow borrows, and others take theirs
/// as the piece is taken.
pub open spec fn context_within(n: Node, context: CaptureBindingMode) -> CaptureBindingMode {
    match n {
        Node::Expr(ExprV::Unary(UnOp::ToOwned, _)) => CaptureBindingMode::Copy,
        Node::Expr(ExprV::Unary(UnOp::Borrow, _)) => CaptureBindingMode::Borrow,
        Node::Expr(ExprV::Unary(UnOp::BorrowMut, _)) => CaptureBindingMode::BorrowMut,
        _ => context,
    }
}

/// How a piece itself, and not only a part of it, uses a slot.
pub open spec fn own_use(n: Node, slot: u16, context: CaptureBindingMode) -> Option<
    CaptureBindingMode,
> {
    match n {
        Node::Expr(ExprV::LocalCall(_, _)) => None,
        Node::Expr(ExprV::MoveVar(_) | ExprV::MoveField(_, _) | ExprV::MoveIndex(_, _)) =>
        if names_slot(n, slot) {
            Some(CaptureBindingMode::Move)
        } else {
            None
        },
        _ => if names_slot(n, slot) {
            Some(context)
        } else {
            None
        },
    }
}

/// Whether a use is at least as strong as another.
pub open spec fn as_strong(
    a: Option<CaptureBindingMode>,
    b: Option<CaptureBindingMode>,
) -> bool {
    b matches Some(y) ==> (a matches Some(x) && (x == CaptureBindingMode::Move || y
        == CaptureBindingMode::Copy || x == y || (x == CaptureBindingMode::BorrowMut && y
        == CaptureBindingMode::Borrow)))
}

/// Whether the use of a slot by a piece is the strongest of its own and those of its parts.
pub open spec fn is_strongest_use(n: Node, slot: u16, context: CaptureBindingMode) -> bool {
    &&& as_strong(node_use(n, slot, context), own_use(n, slot, context))
    &&& forall|i: int|
        0 <= i < parts(n).len() ==> as_strong(
            node_use(n, slot, context),
            node_use(#[trigger] parts(n)[i], slot, context_within(n, context)),
        )
    &&& node_use(n, slot, context) is Some ==> node_use(n, slot, context) == own_use(
        n,
        slot,
        context,
    ) || exists|i: int|
        0 <= i < parts(n).len() && node_use(n, slot, context) == node_use(
            #[trigger] parts(n)[i],
            slot,
            context_within(n, context),
        )
}

#[verifier::rlimit(40)]
proof fn lemma_use_simple(n: Node, slot: u16, context: CaptureBindingMode)
    requires
        match n {
            Node::Expr(e) => e is Unary || e is Binary || e is IfElse || parts(n).len() == 0 && !(
            e is Call || e is LocalCall),
            Node::Stmt(s) => s is Let || s is Assign || s is Expr || parts(n).len() == 0 && !(
            s is IfElse || s is While || s is For),
        },
    ensures
        is_strongest_use(n, slot, context),
{
    lemma_parts_in_place(n);
    let p = parts(n);
    match n {
        Node::Expr(e) => {
            if e is Unary {
                assert(p[0] == Node::Expr(*e->Unary_1));
            }
        },
        Node::Stmt(s) => {},
    }
}

proof fn lemma_use_calls(n: Node, slot: u16, context: CaptureBindingMode)
    requires
        n matches Node::Expr(e) && (e is Call || e is LocalCall),
    ensures
        is_strongest_use(n, slot, context),
{
    lemma_parts_in_place(n);
    let args = match n->Expr_0 {
        ExprV::Call(_, args) => args,
        ExprV::LocalCall(_, args) => args,
        _ => Seq::empty(),
    };
    lemma_list_use(args, args.len() as int, slot, context);
    let u = list_use(args, args.len() as int, slot, context);
    if u is Some {
        let j = choose|j: int|
            0 <= j < args.len() && u == expr_use(#[trigger] args[j], slot, context);
        assert(node_use(parts(n)[j], slot, context) == u);
    }
}

#[verifier::rlimit(40)]
proof fn lemma_use_match(n: Node, slot: u16, context: CaptureBindingMode)
    requires
        n matches Node::Expr(e) && e is Match,
    ensures
        is_strongest_use(n, slot, context),
{
    lemma_parts_in_place(n);
    match n->Expr_0 {
        ExprV::Match { value, arms, default, .. } => {
            let p = parts(n);
            let k = arms.len() as int;
            lemma_arms_use(arms, k, slot, context);
            let u = arms_use(arms, k, slot, context);
            assert forall|i: int| 0 <= i < p.len() implies as_strong(
                node_use(n, slot, context),
                node_use(#[trigger] p[i], slot, context),
            ) by {
                if 1 <= i <= k {
                    assert(p[i] == Node::Expr(arms[i - 1].1));
                    assert(as_strong(u, expr_use(arms[i - 1].1, slot, context)));
                }
            }
            if u is Some {
                let j = choose|j: int|
                    0 <= j < k && u == expr_use((#[trigger] arms[j]).1, slot, context);
                assert(node_use(p[j + 1], slot, context) == u);
            }
            assert(node_use(p[0], slot, context) == expr_use(*value, slot, context));
            assert(node_use(p[k + 1], slot, context) == expr_use(*default, slot, context));
        },
        _ => {},
    }
}

#[verifier::rlimit(40)]
proof fn lemma_use_block(n: Node, slot: u16, context: CaptureBindingMode)
    requires
        n matches Node::Expr(e) && e is Block,
    ensures
        is_strongest_use(n, slot, context),
{
    lemma_parts_in_place(n);
    match n->Expr_0 {
        ExprV::Block(stmts, x) => {
            let p = parts(n);
            let k = stmts.len() as int;
            lemma_stmts_use(stmts, k, slot, context);
            let u = stmts_use(stmts, k, slot, context);
            assert forall|i: int| 0 <= i < p.len() implies as_strong(
                node_use(n, slot, context),
                node_use(#[trigger] p[i], slot, context),
            ) by {
                if i < k {
                    assert(as_strong(u, stmt_use(stmts[i], slot, context)));
                }
            }
            if u is Some {
                let j = choose|j: int|
                    0 <= j < k && u == stmt_use(#[trigger] stmts[j], slot, context);
                assert(node_use(p[j], slot, context) == u);
            }
            assert(node_use(p[k], slot, context) == expr_use(*x, slot, context));
        },
        _ => {},
    }
}

#[verifier::rlimit(40)]
proof fn lemma_use_if(n: Node, slot: u16, context: CaptureBindingMode)
    requires
        n matches Node::Stmt(s) && s is IfElse,
    ensures
        is_strongest_use(n, slot, context),
{
    lemma_parts_in_place(n);
    match n->Stmt_0 {
        StmtV::IfElse { condition, then_branch, else_branch, .. } => {
            let p = parts(n);
            let k = then_branch.len() as int;
            let m = else_branch.len() as int;
            lemma_stmts_use(then_branch, k, slot, context);
            lemma_stmts_use(else_branch, m, slot, context);
            let u = stmts_use(then_branch, k, slot, context);
            let w = stmts_use(else_branch, m, slot, context);
            assert forall|i: int| 0 <= i < p.len() implies as_strong(
                node_use(n, slot, context),
                node_use(#[trigger] p[i], slot, context),
            ) by {
                if 1 <= i <= k {
                    assert(as_strong(u, stmt_use(then_branch[i - 1], slot, context)));
                } else if i > k {
                    assert(as_strong(w, stmt_use(else_branch[i - 1 - k], slot, context)));
                }
            }
            if u is Some {
                let j = choose|j: int|
                    0 <= j < k && u == stmt_use(#[trigger] then_branch[j], slot, context);
                assert(node_use(p[j + 1], slot, context) == u);
            }
            if w is Some {
                let j = choose|j: int|
                    0 <= j < m && w == stmt_use(#[trigger] else_branch[j], slot, context);
                assert(node_use(p[j + 1 + k], slot, context) == w);
            }
            assert(node_use(p[0], slot, context) == expr_use(condition, slot, context));
        },
        _ => {},
    }
}

proof fn lemma_as_strong(
    a: Option<CaptureBindingMode>,
    b: Option<CaptureBindingMode>,
    c: Option<CaptureBindingMode>,
)
    requires
        as_strong(a, b),
        as_strong(b, c),
    ensures
        as_strong(a, c),
{
}

proof fn lemma_use_while(n: Node, slot: u16, context: CaptureBindingMode)
    requires
        n matches Node::Stmt(s) && s is While,
    ensures
        is_strongest_use(n, slot, context),
{
    lemma_parts_in_place(n);
    match n->Stmt_0 {
        StmtV::While { condition, body, .. } => {
            let p = parts(n);
            let k = body.len() as int;
            lemma_stmts_use(body, k, slot, context);
            let u = stmts_use(body, k, slot, context);
            assert(node_use(p[0], slot, context) == expr_use(condition, slot, context));
            assert(as_strong(node_use(n, slot, context), u));
            assert forall|i: int| 0 <= i < p.len() implies as_strong(
                node_use(n, slot, context),
                node_use(#[trigger] p[i], slot, context),
            ) by {
                if i >= 1 {
                    let part = stmt_use(body[i - 1], slot, context);
                    assert(node_use(p[i], slot, context) == part);
                    assert(as_strong(u, part));
                    lemma_as_strong(node_use(n, slot, context), u, part);
                }
            }
            if u is Some {
                let j = choose|j: int|
                    0 <= j < k && u == stmt_use(#[trigger] body[j], slot, context);
                assert(node_use(p[j + 1], slot, context) == u);
            }
        },
        _ => {},
    }
}

#[verifier::rlimit(40)]
proof fn lemma_use_for(n: Node, slot: u16, context: CaptureBindingMode)
    requires
        n matches Node::Stmt(s) && s is For,
    ensures
        is_strongest_use(n, slot, context),
{
    lemma_parts_in_place(n);
    match n->Stmt_0 {
        StmtV::For { init, condition, post, body, .. } => {
            let p = parts(n);
            let k = body.len() as int;
            lemma_stmts_use(body, k, slot, context);
            let u = stmts_use(body, k, slot, context);
            assert(node_use(p[0], slot, context) == stmt_use(*init, slot, context));
            assert(node_use(p[1], slot, context) == expr_use(condition, slot, context));
            assert(node_use(p[2], slot, context) == stmt_use(*post, slot, context));
            assert(as_strong(node_use(n, slot, context), u));
            assert forall|i: int| 0 <= i < p.len() implies as_strong(
                node_use(n, slot, context),
                node_use(#[trigger] p[i], slot, context),
            ) by {
                if i >= 3 {
                    let part = stmt_use(body[i - 3], slot, context);
                    assert(node_use(p[i], slot, context) == part);
                    assert(as_strong(u, part));
                    lemma_as_strong(node_use(n, slot, context), u, part);
                }
            }
            if u is Some {
                let j = choose|j: int|
                    0 <= j < k && u == stmt_use(#[trigger] body[j], slot, context);
                assert(node_use(p[j + 3], slot, context) == u);
            }
        },
        _ => {},
    }
}

/// The use of a slot by a piece is the strongest of its own and those of its parts.
pub proof fn law_pieces_use_slots_as_their_strongest_part(
    n: Node,
    slot: u16,
    context: CaptureBindingMode,
)
    requires
        !holds_closure(n),
    ensures
        is_strongest_use(n, slot, context),
{
    lemma_parts_in_place(n);
    match n {
        Node::Expr(e) => match e {
            ExprV::Call(_, _) | ExprV::LocalCall(_, _) => lemma_use_calls(n, slot, context),
            ExprV::Match { .. } => lemma_use_match(n, slot, context),
            ExprV::Block(_, _) => lemma_use_block(n, slot, context),
            _ => lemma_use_simple(n, slot, context),
        },
        Node::Stmt(s) => match s {
            StmtV::IfElse { .. } => lemma_use_if(n, slot, context),
            StmtV::For { .. } => lemma_use_for(n, slot, context),
            StmtV::While { .. } => lemma_use_while(n, slot, context),
            _ => lemma_use_simple(n, slot, context),
        },
    }
}

proof fn lemma_list_use(list: Seq<ExprV>, n: int, slot: u16, context: CaptureBindingMode)
    requires
        0 <= n <= list.len(),
    ensures
        forall|i: int|
            0 <= i < n ==> as_strong(
                list_use(list, n, slot, context),
                expr_use(#[trigger] list[i], slot, context),
            ),
        list_use(list, n, slot, context) is Some ==> exists|i: int|
            0 <= i < n && list_use(list, n, slot, context) == expr_use(
                #[trigger] list[i],
                slot,
                context,
            ),
    decreases n,
{
    if n > 0 {
        lemma_list_use(list, n - 1, slot, context);
    }
}

proof fn lemma_arms_use(
    list: Seq<(PatternV, ExprV)>,
    n: int,
    slot: u16,
    context: CaptureBindingMode,
)
    requires
        0 <= n <= list.len(),
    ensures
        forall|i: int|
            0 <= i < n ==> as_strong(
                arms_use(list, n, slot, context),
                expr_use((#[trigger] list[i]).1, slot, context),
            ),
        arms_use(list, n, slot, context) is Some ==> exists|i: int|
            0 <= i < n && arms_use(list, n, slot, context) == expr_use(
                (#[trigger] list[i]).1,
                slot,
                context,
            ),
    decreases n,
{
    if n > 0 {
        lemma_arms_use(list, n - 1, slot, context);
    }
}

proof fn lemma_stmts_use(list: Seq<StmtV>, n: int, slot: u16, context: CaptureBindingMode)
    requires
        0 <= n <= list.len(),
    ensures
        forall|i: int|
            0 <= i < n ==> as_strong(
                stmts_use(list, n, slot, context),
                stmt_use(#[trigger] list[i], slot, context),
            ),
        stmts_use(list, n, slot, context) is Some ==> exists|i: int|
            0 <= i < n && stmts_use(list, n, slot, context) == stmt_use(
                #[trigger] list[i],
                slot,
                context,
            ),
    decreases n,
{
    if n > 0 {
        lemma_stmts_use(list, n - 1, slot, context);
    }
}

/// A closure inside uses a slot at least as strongly as its body uses what it captured of it.
pub proof fn law_closures_use_what_they_captured(
    c: ClosureV,
    i: int,
    context: CaptureBindingMode,
)
    requires
        0 <= i < c.captures.len(),
    ensures
        as_strong(
            expr_use(ExprV::Closure(c), c.captures[i].0, context),
            expr_use(*c.body, c.captures[i].1, CaptureBindingMode::Move),
        ),
        as_strong(
            expr_use(ExprV::Closure(c), c.captures[i].0, context),
            expr_use(*c.body, c.captures[i].0, context),
        ),
{
    lemma_nested_use(c.captures, c.captures.len() as int, *c.body, i);
    assert(expr_use(ExprV::Closure(c), c.captures[i].0, context) == crate::captures::closure_use(
        c,
        c.captures[i].0,
        context,
    ));
}

proof fn lemma_nested_use(captures: Seq<(LocalSlot, LocalSlot)>, n: int, body: ExprV, i: int)
    requires
        0 <= i < n <= captures.len(),
    ensures
        as_strong(
            nested_use(captures, n, body, captures[i].0),
            expr_use(body, captures[i].1, CaptureBindingMode::Move),
        ),
    decreases n,
{
    if i < n - 1 {
        lemma_nested_use(captures, n - 1, body, i);
    }
}

/// A captured value that a body reads by itself is moved into it, one that it copies is copied,
/// and one that it borrows is borrowed.
pub proof fn law_captures_are_taken_as_they_are_used(
    params: Seq<LocalSlot>,
    captures: Seq<(LocalSlot, LocalSlot)>,
    slot: u16,
)
    ensures
        ({
            let read = |e: ExprV|
                crate::captures::closure_capture_mode(
                    ClosureV { params, captures, body: Box::new(e) },
                    slot,
                );
            let x = Box::new(ExprV::Var(slot));
            &&& read(ExprV::Var(slot)) == CaptureBindingMode::Move
            &&& read(ExprV::MoveVar(slot)) == CaptureBindingMode::Move
            &&& read(ExprV::Unary(UnOp::ToOwned, x)) == CaptureBindingMode::Copy
            &&& read(ExprV::Unary(UnOp::Borrow, x)) == CaptureBindingMode::Borrow
            &&& read(ExprV::Unary(UnOp::BorrowMut, x)) == CaptureBindingMode::BorrowMut
        }),
{
    let x = ExprV::Var(slot);
    assert(expr_use(x, slot, CaptureBindingMode::Copy) == Some(CaptureBindingMode::Copy));
    assert(expr_use(x, slot, CaptureBindingMode::Borrow) == Some(CaptureBindingMode::Borrow));
    assert(expr_use(x, slot, CaptureBindingMode::BorrowMut) == Some(CaptureBindingMode::BorrowMut));
}

} // verus!
