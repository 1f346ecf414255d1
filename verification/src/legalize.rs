//! Replacing calls whose result is known by that result.

use std::collections::HashMap;
use vstd::prelude::*;
use crate::builtins::{builtin_at, BuiltinFunction};
use crate::generation::MAX_DEPTH;
use crate::infer::{
    bind_expr_result_to_slot, bind_result, binary_type, call_type, common_type, infer,
    infer_binary_type, infer_unary_type, match_type, next_arm_type, stabilize_loop_state,
    unary_type, TypeContext, TypeEnvV, TypeNotes,
};
use crate::ir::{
    arms_view, exprs_view, stmts_view, ClosureExpr, ClosureV, Expr, ExprV, FunctionImpl,
    MatchPattern, PatternV, Stmt, StmtV, UnOp,
};
use crate::text::chars_of;
use crate::types::{
    loop_join, type_name_of, BoundType, HostCallableSignature, LocalTypeState, TypesV,
};

verus! {

// ---------------------------------------------------------------------------
// Calls whose result is known.

/// What inference knows without any program.
pub open spec fn empty_env() -> TypeEnvV {
    TypeEnvV {
        impls: Map::empty(),
        names: Map::empty(),
        host_types: Map::empty(),
        host_signatures: Map::empty(),
    }
}

/// The type of an expression without following calls into functions.
#[verifier::opaque]
pub open spec fn plain_type(e: ExprV, state: TypesV) -> BoundType {
    infer(empty_env(), TypeNotes::empty(), e, state, MAX_DEPTH as nat).0
}

/// One more, unless that is beyond the largest number.
pub open spec fn one_more(n: usize) -> usize {
    if n < usize::MAX {
        (n + 1) as usize
    } else {
        n
    }
}

/// The length of a literal.
pub open spec fn static_len(e: ExprV) -> Option<usize>
    decreases e,
{
    match e {
        ExprV::Str(text) => Some(text.len() as usize),
        ExprV::Call(index, args) => match builtin_at(index) {
            Some(b) => if b == BuiltinFunction::ArrayNew && args.len() == 0 {
                Some(0)
            } else if b == BuiltinFunction::MapNew && args.len() == 0 {
                Some(0)
            } else if b == BuiltinFunction::ArrayPush && args.len() == 2 {
                match static_len(args[0]) {
                    Some(base) => Some(one_more(base)),
                    None => None,
                }
            } else if b == BuiltinFunction::SetAt && args.len() == 3 {
                static_len(args[0])
            } else {
                None
            },
            None => None,
        },
        ExprV::Unary(op, inner) => match op {
            UnOp::ToOwned | UnOp::Borrow | UnOp::BorrowMut => static_len(*inner),
            _ => None,
        },
        _ => None,
    }
}

/// A call of a built-in function, replaced by its result where that is known.
pub open spec fn folded(e: ExprV, b: BuiltinFunction, state: TypesV) -> ExprV {
    match e {
        ExprV::Call(_, args) => if b == BuiltinFunction::TypeOf && args.len() == 1 {
            match type_name_of(plain_type(args[0], state)) {
                Some(name) => ExprV::Str(name),
                None => e,
            }
        } else if b == BuiltinFunction::Len && args.len() == 1 {
            match static_len(args[0]) {
                Some(len) => ExprV::Int(len as i64),
                None => e,
            }
        } else if b == BuiltinFunction::Concat && args.len() == 2 {
            match (args[0], args[1]) {
                (ExprV::Str(l), ExprV::Str(r)) => ExprV::Str(l + r),
                _ => e,
            }
        } else {
            e
        },
        _ => e,
    }
}

/// The type of an expression without following calls into functions.
pub fn infer_expr_type(expr: &Expr, state: &LocalTypeState) -> (r: BoundType)
    ensures
        r == plain_type(expr@, state@),
{
    let impls: HashMap<u16, FunctionImpl> = HashMap::new();
    let names: HashMap<u16, String> = HashMap::new();
    let types: HashMap<u16, BoundType> = HashMap::new();
    let signatures: HashMap<u16, HostCallableSignature> = HashMap::new();
    let mut context = TypeContext::new(&impls, &names, &types, &signatures);
    proof {
        reveal(plain_type);
        assert(context.env().impls =~= empty_env().impls);
        assert(context.env().names =~= empty_env().names);
        assert(context.env().host_types =~= empty_env().host_types);
        assert(context.env().host_signatures =~= empty_env().host_signatures);
    }
    context.infer_expr_type(expr, state, MAX_DEPTH)
}

pub fn infer_static_len(expr: &Expr) -> (r: Option<usize>)
    ensures
        r == static_len(expr@),
    decreases expr,
{
    match expr {
        Expr::String(text) => Some(chars_of(text.as_str()).len()),
        Expr::Call(index, args) => {
            assert(exprs_view(args@).len() == args@.len());
            match BuiltinFunction::from_call_index(*index) {
                Some(b) => {
                    if b == BuiltinFunction::ArrayNew && args.len() == 0 {
                        Some(0)
                    } else if b == BuiltinFunction::MapNew && args.len() == 0 {
                        Some(0)
                    } else if b == BuiltinFunction::ArrayPush && args.len() == 2 {
                        assert(exprs_view(args@)[0] == args@[0]@);
                        match infer_static_len(&args[0]) {
                            Some(base) => if base < usize::MAX {
                                Some(base + 1)
                            } else {
                                Some(base)
                            },
                            None => None,
                        }
                    } else if b == BuiltinFunction::SetAt && args.len() == 3 {
                        assert(exprs_view(args@)[0] == args@[0]@);
                        infer_static_len(&args[0])
                    } else {
                        None
                    }
                },
                None => None,
            }
        },
        Expr::ToOwned(inner) | Expr::Borrow(inner) | Expr::BorrowMut(inner) => {
            infer_static_len(inner)
        },
        _ => None,
    }
}

/// The text that two string literals are together.
fn concat_literals(lhs: &Expr, rhs: &Expr) -> (r: Option<String>)
    ensures
        match (lhs@, rhs@) {
            (ExprV::Str(l), ExprV::Str(r2)) => r is Some && r->0@ == l + r2,
            _ => r is None,
        },
{
    match (lhs, rhs) {
        (Expr::String(l), Expr::String(r)) => {
            let mut out = l.clone();
            out.push_str(r.as_str());
            Some(out)
        },
        _ => None,
    }
}

pub fn fold_builtin_call(
    index: u16,
    args: Vec<Expr>,
    builtin: BuiltinFunction,
    state: &LocalTypeState,
) -> (r: Expr)
    ensures
        r@ == folded(ExprV::Call(index, exprs_view(args@)), builtin, state@),
{
    if builtin == BuiltinFunction::TypeOf && args.len() == 1 {
        assert(exprs_view(args@)[0] == args@[0]@);
        match infer_expr_type(&args[0], state).runtime_name() {
            Some(name) => {
                return Expr::String(name.to_string());
            },
            None => {},
        }
    } else if builtin == BuiltinFunction::Len && args.len() == 1 {
        assert(exprs_view(args@)[0] == args@[0]@);
        match infer_static_len(&args[0]) {
            Some(len) => {
                return Expr::Int(len as i64);
            },
            None => {},
        }
    } else if builtin == BuiltinFunction::Concat && args.len() == 2 {
        assert(exprs_view(args@)[0] == args@[0]@);
        assert(exprs_view(args@)[1] == args@[1]@);
        match concat_literals(&args[0], &args[1]) {
            Some(text) => {
                return Expr::String(text);
            },
            None => {},
        }
    }
    Expr::Call(index, args)
}

// ---------------------------------------------------------------------------
// The model.

/// Replaces known results in a list of expressions, from position `i` on.
pub open spec fn legal_list(
    env: TypeEnvV,
    notes: TypeNotes,
    list: Seq<ExprV>,
    i: int,
    state: TypesV,
    depth: nat,
) -> (Seq<ExprV>, TypeNotes)
    decreases depth, 1nat, list.len() - i,
{
    if i < 0 || i >= list.len() {
        (Seq::empty(), notes)
    } else {
        let (e, _, n1) = legal_expr(env, notes, list[i], state, depth);
        let (rest, n2) = legal_list(env, n1, list, i + 1, state, depth);
        (seq![e] + rest, n2)
    }
}

/// Replaces known results in the arms of a match, from position `i` on.
pub open spec fn legal_arms(
    env: TypeEnvV,
    notes: TypeNotes,
    arms: Seq<(PatternV, ExprV)>,
    i: int,
    state: TypesV,
    so_far: BoundType,
    depth: nat,
) -> (Seq<(PatternV, ExprV)>, BoundType, TypeNotes)
    decreases depth, 1nat, arms.len() - i,
{
    if i < 0 || i >= arms.len() {
        (Seq::empty(), so_far, notes)
    } else {
        let (e, ty, n1) = legal_expr(env, notes, arms[i].1, state, depth);
        let (rest, at, n2) = legal_arms(
            env,
            n1,
            arms,
            i + 1,
            state,
            next_arm_type(so_far, ty),
            depth,
        );
        (seq![(arms[i].0, e)] + rest, at, n2)
    }
}

/// Replaces known results in the parts of a call, and the call itself where its
/// result is known.
pub open spec fn legal_call(
    env: TypeEnvV,
    notes: TypeNotes,
    e: ExprV,
    state: TypesV,
    depth: nat,
) -> (ExprV, TypeNotes)
    decreases depth, 2nat, 0nat,
{
    match e {
        ExprV::Call(index, args) => {
            let (list, n1) = legal_list(env, notes, args, 0, state, depth);
            match builtin_at(index) {
                Some(b) => (folded(ExprV::Call(index, list), b, state), n1),
                None => (ExprV::Call(index, list), n1),
            }
        },
        ExprV::LocalCall(slot, args) => {
            let (list, n1) = legal_list(env, notes, args, 0, state, depth);
            (ExprV::LocalCall(slot, list), n1)
        },
        ExprV::Closure(c) => {
            let (body, _, n1) = legal_expr(env, notes, *c.body, state, depth);
            (ExprV::Closure(ClosureV { body: Box::new(body), ..c }), n1)
        },
        ExprV::ClosureCall(c, args) => {
            let (body, _, n1) = legal_expr(env, notes, *c.body, state, depth);
            let (list, n2) = legal_list(env, n1, args, 0, state, depth);
            (ExprV::ClosureCall(ClosureV { body: Box::new(body), ..c }, list), n2)
        },
        _ => (e, notes),
    }
}

/// Replaces known results in an expression, and finds its type.
pub open spec fn legal_expr(
    env: TypeEnvV,
    notes: TypeNotes,
    e: ExprV,
    state: TypesV,
    depth: nat,
) -> (ExprV, BoundType, TypeNotes)
    decreases depth, 0nat, 0nat,
{
    if depth == 0 {
        (e, BoundType::Unknown, notes)
    } else {
        let d = (depth - 1) as nat;
        match e {
            ExprV::Null => (e, BoundType::Null, notes),
            ExprV::Int(_) => (e, BoundType::Int, notes),
            ExprV::Float(_) => (e, BoundType::Float, notes),
            ExprV::Bool(_) => (e, BoundType::Bool, notes),
            ExprV::Str(_) => (e, BoundType::String, notes),
            ExprV::Unary(op, inner) => {
                let (x, ty, n1) = legal_expr(env, notes, *inner, state, d);
                (ExprV::Unary(op, Box::new(x)), unary_type(op, ty), n1)
            },
            ExprV::Binary(op, l, r) => {
                let (x, lt, n1) = legal_expr(env, notes, *l, state, d);
                let (y, rt, n2) = legal_expr(env, n1, *r, state, d);
                (ExprV::Binary(op, Box::new(x), Box::new(y)), binary_type(op, lt, rt), n2)
            },
            ExprV::Var(slot) => (e, state.get(slot), notes),
            ExprV::MoveVar(slot) => (e, state.get(slot), notes),
            ExprV::MoveField(root, _) => (e, state.get(root), notes),
            ExprV::MoveIndex(root, _) => (e, state.get(root), notes),
            ExprV::IfElse(c, t, f) => {
                let (cx, _, n1) = legal_expr(env, notes, *c, state, d);
                let (tx, tt, n2) = legal_expr(env, n1, *t, state, d);
                let (fx, ft, n3) = legal_expr(env, n2, *f, state, d);
                (
                    ExprV::IfElse(Box::new(cx), Box::new(tx), Box::new(fx)),
                    common_type(tt, ft),
                    n3,
                )
            },
            ExprV::Match { value_slot, result_slot, value, arms, default } => {
                let (vx, vt, n1) = legal_expr(env, notes, *value, state, d);
                let nested = bind_result(state, value_slot, vx, state, vt);
                let (ax, at, n2) = legal_arms(env, n1, arms, 0, nested, BoundType::Unknown, d);
                let (dx, dt, n3) = legal_expr(env, n2, *default, nested, d);
                (
                    ExprV::Match {
                        value_slot,
                        result_slot,
                        value: Box::new(vx),
                        arms: ax,
                        default: Box::new(dx),
                    },
                    match_type(arms.len() == 0, at, dt),
                    n3,
                )
            },
            ExprV::Block(stmts, expr) => {
                let (sx, nested, n1) = legal_stmts(env, notes, stmts, 0, state, d);
                let (x, ty, n2) = legal_expr(env, n1, *expr, nested, d);
                (ExprV::Block(sx, Box::new(x)), ty, n2)
            },
            _ => {
                let (x, n1) = legal_call(env, notes, e, state, d);
                let (ty, n2) = call_type(env, n1, x, state, d);
                (x, ty, n2)
            },
        }
    }
}

/// Replaces known results in a list of statements, from position `i` on.
pub open spec fn legal_stmts(
    env: TypeEnvV,
    notes: TypeNotes,
    stmts: Seq<StmtV>,
    i: int,
    state: TypesV,
    depth: nat,
) -> (Seq<StmtV>, TypesV, TypeNotes)
    decreases depth, 1nat, stmts.len() - i,
{
    if i < 0 || i >= stmts.len() {
        (Seq::empty(), state, notes)
    } else {
        let (s, t1, n1) = legal_stmt(env, notes, stmts[i], state, depth);
        let (rest, t2, n2) = legal_stmts(env, n1, stmts, i + 1, t1, depth);
        (seq![s] + rest, t2, n2)
    }
}

/// The parts of a loop.
pub struct LoopV {
    pub condition: ExprV,
    pub body: Seq<StmtV>,
    pub post: Option<StmtV>,
}

/// Replaces known results in one round of a loop.
pub open spec fn legal_round(
    env: TypeEnvV,
    notes: TypeNotes,
    l: LoopV,
    state: TypesV,
    depth: nat,
) -> (LoopV, TypesV, TypeNotes)
    decreases depth, 2nat, 0nat,
{
    let (condition, _, n1) = legal_expr(env, notes, l.condition, state, depth);
    let (body, s2, n2) = legal_stmts(env, n1, l.body, 0, state, depth);
    match l.post {
        Some(p) => {
            let (post, s3, n3) = legal_stmt(env, n2, p, s2, depth);
            (LoopV { condition, body, post: Some(post) }, s3, n3)
        },
        None => (LoopV { condition, body, post: None }, s2, n2),
    }
}

/// Replaces known results in a loop: what is known before the first round, and then
/// what is known before the second.
pub open spec fn legal_loop(
    env: TypeEnvV,
    notes: TypeNotes,
    l: LoopV,
    state: TypesV,
    depth: nat,
) -> (LoopV, TypesV, TypeNotes)
    decreases depth, 3nat, 0nat,
{
    let (l1, first, n1) = legal_round(env, notes, l, state, depth);
    let (l2, second, n2) = legal_round(env, n1, l1, first, depth);
    (l2, loop_join(state, first, second), n2)
}

/// Replaces known results in a statement.
pub open spec fn legal_stmt(
    env: TypeEnvV,
    notes: TypeNotes,
    stmt: StmtV,
    state: TypesV,
    depth: nat,
) -> (StmtV, TypesV, TypeNotes)
    decreases depth, 0nat, 0nat,
{
    if depth == 0 {
        (stmt, state, notes)
    } else {
        let d = (depth - 1) as nat;
        match stmt {
            StmtV::Drop { index, .. } => (stmt, state.set(index, BoundType::Null), notes),
            StmtV::ClosureLet { line, closure } => {
                let (body, _, n1) = legal_expr(env, notes, *closure.body, state, d);
                (
                    StmtV::ClosureLet {
                        line,
                        closure: ClosureV { body: Box::new(body), ..closure },
                    },
                    state,
                    n1,
                )
            },
            StmtV::Let { index, expr, line } => {
                let (x, ty, n1) = legal_expr(env, notes, expr, state, d);
                (
                    StmtV::Let { index, expr: x, line },
                    bind_result(state, index, x, state, ty),
                    n1,
                )
            },
            StmtV::Assign { index, expr, line } => {
                let (x, ty, n1) = legal_expr(env, notes, expr, state, d);
                (
                    StmtV::Assign { index, expr: x, line },
                    bind_result(state, index, x, state, ty),
                    n1,
                )
            },
            StmtV::Expr { expr, line } => {
                let (x, _, n1) = legal_expr(env, notes, expr, state, d);
                (StmtV::Expr { expr: x, line }, state, n1)
            },
            StmtV::IfElse { condition, then_branch, else_branch, line } => {
                let (c, _, n1) = legal_expr(env, notes, condition, state, d);
                let (tb, ts, n2) = legal_stmts(env, n1, then_branch, 0, state, d);
                let (eb, es, n3) = legal_stmts(env, n2, else_branch, 0, state, d);
                (
                    StmtV::IfElse { condition: c, then_branch: tb, else_branch: eb, line },
                    TypesV::join(ts, es),
                    n3,
                )
            },
            StmtV::For { init, condition, post, body, line } => {
                let (i, s1, n1) = legal_stmt(env, notes, *init, state, d);
                let (l, s2, n2) = legal_loop(
                    env,
                    n1,
                    LoopV { condition, body, post: Some(*post) },
                    s1,
                    d,
                );
                (
                    StmtV::For {
                        init: Box::new(i),
                        condition: l.condition,
                        post: Box::new(l.post->0),
                        body: l.body,
                        line,
                    },
                    s2,
                    n2,
                )
            },
            StmtV::While { condition, body, line } => {
                let (l, s2, n2) = legal_loop(
                    env,
                    notes,
                    LoopV { condition, body, post: None },
                    state,
                    d,
                );
                (StmtV::While { condition: l.condition, body: l.body, line }, s2, n2)
            },
            _ => (stmt, state, notes),
        }
    }
}

// ---------------------------------------------------------------------------
// The rewriting.

pub fn legalize_exprs(
    list: Vec<Expr>,
    state: &LocalTypeState,
    context: &mut TypeContext<'_>,
    depth: u64,
) -> (r: Vec<Expr>)
    ensures
        final(context).env() == old(context).env(),
        (exprs_view(r@), final(context)@) == legal_list(
            old(context).env(),
            old(context)@,
            exprs_view(list@),
            0,
            state@,
            depth as nat,
        ),
    decreases depth, 1nat,
{
    let mut out: Vec<Expr> = Vec::new();
    let ghost all = list@;
    let ghost models = exprs_view(all);
    let ghost env = context.env();
    let ghost total = legal_list(env, context@, models, 0, state@, depth as nat);
    for e in it: list
        invariant
            it.seq() == all,
            models == exprs_view(all),
            context.env() == env,
            total.0 =~= exprs_view(out@) + legal_list(
                env,
                context@,
                models,
                it.index() as int,
                state@,
                depth as nat,
            ).0,
            total.1 == legal_list(
                env,
                context@,
                models,
                it.index() as int,
                state@,
                depth as nat,
            ).1,
    {
        assert(models[it.index() as int] == e@);
        let ghost before = out@;
        let (x, _) = legalize_expr(e, state, context, depth);
        out.push(x);
        assert(exprs_view(out@) =~= exprs_view(before).push(x@));
    }
    out
}

fn legalize_arms(
    list: Vec<(MatchPattern, Expr)>,
    state: &LocalTypeState,
    context: &mut TypeContext<'_>,
    depth: u64,
) -> (r: (Vec<(MatchPattern, Expr)>, BoundType))
    ensures
        final(context).env() == old(context).env(),
        (arms_view(r.0@), r.1, final(context)@) == legal_arms(
            old(context).env(),
            old(context)@,
            arms_view(list@),
            0,
            state@,
            BoundType::Unknown,
            depth as nat,
        ),
    decreases depth, 1nat,
{
    let mut out: Vec<(MatchPattern, Expr)> = Vec::new();
    let mut arm_type = BoundType::Unknown;
    let ghost all = list@;
    let ghost models = arms_view(all);
    let ghost env = context.env();
    let ghost total = legal_arms(env, context@, models, 0, state@, arm_type, depth as nat);
    for arm in it: list
        invariant
            it.seq() == all,
            models == arms_view(all),
            context.env() == env,
            total.0 =~= arms_view(out@) + legal_arms(
                env,
                context@,
                models,
                it.index() as int,
                state@,
                arm_type,
                depth as nat,
            ).0,
            total.1 == legal_arms(
                env,
                context@,
                models,
                it.index() as int,
                state@,
                arm_type,
                depth as nat,
            ).1,
            total.2 == legal_arms(
                env,
                context@,
                models,
                it.index() as int,
                state@,
                arm_type,
                depth as nat,
            ).2,
    {
        assert(models[it.index() as int] == (arm.0@, arm.1@));
        let ghost before = out@;
        let (pattern, e) = arm;
        let (x, ty) = legalize_expr(e, state, context, depth);
        out.push((pattern, x));
        assert(arms_view(out@) =~= arms_view(before).push((pattern@, x@)));
        arm_type = if arm_type == BoundType::Unknown {
            ty
        } else if arm_type == ty {
            arm_type
        } else {
            BoundType::Unknown
        };
    }
    (out, arm_type)
}

fn legalize_closure(
    closure: ClosureExpr,
    state: &LocalTypeState,
    context: &mut TypeContext<'_>,
    depth: u64,
) -> (r: ClosureExpr)
    ensures
        final(context).env() == old(context).env(),
        (r@, final(context)@) == ({
            let (body, _, n1) = legal_expr(
                old(context).env(),
                old(context)@,
                *closure@.body,
                state@,
                depth as nat,
            );
            (ClosureV { body: Box::new(body), ..closure@ }, n1)
        }),
    decreases depth, 1nat,
{
    assert(*closure@.body == closure.body@);
    let (body, _) = legalize_expr(*closure.body, state, context, depth);
    ClosureExpr {
        param_slots: closure.param_slots,
        capture_copies: closure.capture_copies,
        body: Box::new(body),
    }
}

fn legalize_expr_children(
    expr: Expr,
    state: &LocalTypeState,
    context: &mut TypeContext<'_>,
    depth: u64,
) -> (r: Expr)
    ensures
        final(context).env() == old(context).env(),
        (r@, final(context)@) == legal_call(
            old(context).env(),
            old(context)@,
            expr@,
            state@,
            depth as nat,
        ),
    decreases depth, 2nat,
{
    match expr {
        Expr::Call(index, args) => {
            let list = legalize_exprs(args, state, context, depth);
            match BuiltinFunction::from_call_index(index) {
                Some(builtin) => fold_builtin_call(index, list, builtin, state),
                None => Expr::Call(index, list),
            }
        },
        Expr::LocalCall(slot, args) => Expr::LocalCall(
            slot,
            legalize_exprs(args, state, context, depth),
        ),
        Expr::Closure(closure) => Expr::Closure(legalize_closure(closure, state, context, depth)),
        Expr::ClosureCall(closure, args) => {
            let legal_closure = legalize_closure(closure, state, context, depth);
            let list = legalize_exprs(args, state, context, depth);
            Expr::ClosureCall(legal_closure, list)
        },
        other => other,
    }
}

/// Replaces known results in an expression, and finds its type.
#[verifier::spinoff_prover]
#[verifier::rlimit(80)]
pub fn legalize_expr(
    expr: Expr,
    state: &LocalTypeState,
    context: &mut TypeContext<'_>,
    depth: u64,
) -> (r: (Expr, BoundType))
    ensures
        final(context).env() == old(context).env(),
        (r.0@, r.1, final(context)@) == legal_expr(
            old(context).env(),
            old(context)@,
            expr@,
            state@,
            depth as nat,
        ),
    decreases depth, 0nat,
{
    if depth == 0 {
        return (expr, BoundType::Unknown);
    }
    let d: u64 = depth - 1;
    match expr {
        Expr::Null => (Expr::Null, BoundType::Null),
        Expr::Int(v) => (Expr::Int(v), BoundType::Int),
        Expr::Float(v) => (Expr::Float(v), BoundType::Float),
        Expr::Bool(v) => (Expr::Bool(v), BoundType::Bool),
        Expr::String(v) => (Expr::String(v), BoundType::String),
        Expr::Var(slot) => (Expr::Var(slot), state.get(slot)),
        Expr::MoveVar(slot) => (Expr::MoveVar(slot), state.get(slot)),
        Expr::MoveField { root, key } => (Expr::MoveField { root, key }, state.get(root)),
        Expr::MoveIndex { root, index } => (Expr::MoveIndex { root, index }, state.get(root)),
        Expr::Add(lhs, rhs) => {
            let (x, lhs_ty) = legalize_expr(*lhs, state, context, d);
            let (y, rhs_ty) = legalize_expr(*rhs, state, context, d);
            let legal = Expr::Add(Box::new(x), Box::new(y));
            let ty = infer_binary_type(&legal, lhs_ty, rhs_ty);
            (legal, ty)
        },
        Expr::Sub(lhs, rhs) => {
            let (x, lhs_ty) = legalize_expr(*lhs, state, context, d);
            let (y, rhs_ty) = legalize_expr(*rhs, state, context, d);
            let legal = Expr::Sub(Box::new(x), Box::new(y));
            let ty = infer_binary_type(&legal, lhs_ty, rhs_ty);
            (legal, ty)
        },
        Expr::Mul(lhs, rhs) => {
            let (x, lhs_ty) = legalize_expr(*lhs, state, context, d);
            let (y, rhs_ty) = legalize_expr(*rhs, state, context, d);
            let legal = Expr::Mul(Box::new(x), Box::new(y));
            let ty = infer_binary_type(&legal, lhs_ty, rhs_ty);
            (legal, ty)
        },
        Expr::Div(lhs, rhs) => {
            let (x, lhs_ty) = legalize_expr(*lhs, state, context, d);
            let (y, rhs_ty) = legalize_expr(*rhs, state, context, d);
            let legal = Expr::Div(Box::new(x), Box::new(y));
            let ty = infer_binary_type(&legal, lhs_ty, rhs_ty);
            (legal, ty)
        },
        Expr::Mod(lhs, rhs) => {
            let (x, lhs_ty) = legalize_expr(*lhs, state, context, d);
            let (y, rhs_ty) = legalize_expr(*rhs, state, context, d);
            let legal = Expr::Mod(Box::new(x), Box::new(y));
            let ty = infer_binary_type(&legal, lhs_ty, rhs_ty);
            (legal, ty)
        },
        Expr::And(lhs, rhs) => {
            let (x, lhs_ty) = legalize_expr(*lhs, state, context, d);
            let (y, rhs_ty) = legalize_expr(*rhs, state, context, d);
            let legal = Expr::And(Box::new(x), Box::new(y));
            let ty = infer_binary_type(&legal, lhs_ty, rhs_ty);
            (legal, ty)
        },
        Expr::Or(lhs, rhs) => {
            let (x, lhs_ty) = legalize_expr(*lhs, state, context, d);
            let (y, rhs_ty) = legalize_expr(*rhs, state, context, d);
            let legal = Expr::Or(Box::new(x), Box::new(y));
            let ty = infer_binary_type(&legal, lhs_ty, rhs_ty);
            (legal, ty)
        },
        Expr::Eq(lhs, rhs) => {
            let (x, lhs_ty) = legalize_expr(*lhs, state, context, d);
            let (y, rhs_ty) = legalize_expr(*rhs, state, context, d);
            let legal = Expr::Eq(Box::new(x), Box::new(y));
            let ty = infer_binary_type(&legal, lhs_ty, rhs_ty);
            (legal, ty)
        },
        Expr::Lt(lhs, rhs) => {
            let (x, lhs_ty) = legalize_expr(*lhs, state, context, d);
            let (y, rhs_ty) = legalize_expr(*rhs, state, context, d);
            let legal = Expr::Lt(Box::new(x), Box::new(y));
            let ty = infer_binary_type(&legal, lhs_ty, rhs_ty);
            (legal, ty)
        },
        Expr::Gt(lhs, rhs) => {
            let (x, lhs_ty) = legalize_expr(*lhs, state, context, d);
            let (y, rhs_ty) = legalize_expr(*rhs, state, context, d);
            let legal = Expr::Gt(Box::new(x), Box::new(y));
            let ty = infer_binary_type(&legal, lhs_ty, rhs_ty);
            (legal, ty)
        },
        Expr::Neg(inner) => {
            let (x, inner_ty) = legalize_expr(*inner, state, context, d);
            let legal = Expr::Neg(Box::new(x));
            let ty = infer_unary_type(&legal, inner_ty);
            (legal, ty)
        },
        Expr::Not(inner) => {
            let (x, inner_ty) = legalize_expr(*inner, state, context, d);
            let legal = Expr::Not(Box::new(x));
            let ty = infer_unary_type(&legal, inner_ty);
            (legal, ty)
        },
        Expr::ToOwned(inner) => {
            let (x, ty) = legalize_expr(*inner, state, context, d);
            (Expr::ToOwned(Box::new(x)), ty)
        },
        Expr::Borrow(inner) => {
            let (x, ty) = legalize_expr(*inner, state, context, d);
            (Expr::Borrow(Box::new(x)), ty)
        },
        Expr::BorrowMut(inner) => {
            let (x, ty) = legalize_expr(*inner, state, context, d);
            (Expr::BorrowMut(Box::new(x)), ty)
        },
        Expr::IfElse { condition, then_expr, else_expr } => {
            let (c, _) = legalize_expr(*condition, state, context, d);
            let (t, then_ty) = legalize_expr(*then_expr, state, context, d);
            let (f, else_ty) = legalize_expr(*else_expr, state, context, d);
            let ty = if then_ty == else_ty {
                then_ty
            } else {
                BoundType::Unknown
            };
            (
                Expr::IfElse {
                    condition: Box::new(c),
                    then_expr: Box::new(t),
                    else_expr: Box::new(f),
                },
                ty,
            )
        },
        Expr::Match { value_slot, result_slot, value, arms, default } => {
            let mut nested = state.clone();
            let (v, value_ty) = legalize_expr(*value, state, context, d);
            bind_expr_result_to_slot(&mut nested, value_slot, &v, state, value_ty);
            let no_arms = arms.len() == 0;
            let (legal_arms_list, arm_type) = legalize_arms(arms, &nested, context, d);
            let (def, default_ty) = legalize_expr(*default, &nested, context, d);
            let ty = if no_arms {
                default_ty
            } else if arm_type != BoundType::Unknown && arm_type == default_ty {
                arm_type
            } else {
                BoundType::Unknown
            };
            (
                Expr::Match {
                    value_slot,
                    result_slot,
                    value: Box::new(v),
                    arms: legal_arms_list,
                    default: Box::new(def),
                },
                ty,
            )
        },
        Expr::Block { stmts, expr } => {
            let mut nested = state.clone();
            let legal = legalize_stmts(stmts, &mut nested, context, d);
            let (x, ty) = legalize_expr(*expr, &nested, context, d);
            (Expr::Block { stmts: legal, expr: Box::new(x) }, ty)
        },
        other => {
            let legal = legalize_expr_children(other, state, context, d);
            let ty = context.infer_call_like_expr_type(&legal, state, d);
            (legal, ty)
        },
    }
}

/// Replaces known results in a list of statements.
pub fn legalize_stmts(
    list: Vec<Stmt>,
    state: &mut LocalTypeState,
    context: &mut TypeContext<'_>,
    depth: u64,
) -> (r: Vec<Stmt>)
    ensures
        final(context).env() == old(context).env(),
        (stmts_view(r@), final(state)@, final(context)@) == legal_stmts(
            old(context).env(),
            old(context)@,
            stmts_view(list@),
            0,
            old(state)@,
            depth as nat,
        ),
    decreases depth, 1nat,
{
    let mut out: Vec<Stmt> = Vec::new();
    let ghost all = list@;
    let ghost models = stmts_view(all);
    let ghost env = context.env();
    let ghost total = legal_stmts(env, context@, models, 0, state@, depth as nat);
    for s in it: list
        invariant
            it.seq() == all,
            models == stmts_view(all),
            context.env() == env,
            total.0 =~= stmts_view(out@) + legal_stmts(
                env,
                context@,
                models,
                it.index() as int,
                state@,
                depth as nat,
            ).0,
            total.1 == legal_stmts(
                env,
                context@,
                models,
                it.index() as int,
                state@,
                depth as nat,
            ).1,
            total.2 == legal_stmts(
                env,
                context@,
                models,
                it.index() as int,
                state@,
                depth as nat,
            ).2,
    {
        assert(models[it.index() as int] == s@);
        let ghost before = out@;
        let x = legalize_stmt(s, state, context, depth);
        out.push(x);
        assert(stmts_view(out@) =~= stmts_view(before).push(x@));
    }
    out
}

/// The parts of a loop.
struct LoopParts {
    condition: Expr,
    body: Vec<Stmt>,
    post: Option<Stmt>,
}

impl LoopParts {
    spec fn view(&self) -> LoopV {
        LoopV {
            condition: self.condition@,
            body: stmts_view(self.body@),
            post: match self.post {
                Some(p) => Some(p@),
                None => None,
            },
        }
    }
}

fn legalize_round(
    parts: LoopParts,
    state: &mut LocalTypeState,
    context: &mut TypeContext<'_>,
    depth: u64,
) -> (r: LoopParts)
    ensures
        final(context).env() == old(context).env(),
        r.post is Some <==> parts.post is Some,
        (r@, final(state)@, final(context)@) == legal_round(
            old(context).env(),
            old(context)@,
            parts@,
            old(state)@,
            depth as nat,
        ),
    decreases depth, 2nat,
{
    let (condition, _) = legalize_expr(parts.condition, state, context, depth);
    let body = legalize_stmts(parts.body, state, context, depth);
    let post = match parts.post {
        Some(p) => Some(legalize_stmt(p, state, context, depth)),
        None => None,
    };
    LoopParts { condition, body, post }
}

fn legalize_loop(
    parts: LoopParts,
    state: &mut LocalTypeState,
    context: &mut TypeContext<'_>,
    depth: u64,
) -> (r: LoopParts)
    ensures
        final(context).env() == old(context).env(),
        r.post is Some <==> parts.post is Some,
        (r@, final(state)@, final(context)@) == legal_loop(
            old(context).env(),
            old(context)@,
            parts@,
            old(state)@,
            depth as nat,
        ),
    decreases depth, 3nat,
{
    let mut first = state.clone();
    let once = legalize_round(parts, &mut first, context, depth);
    let mut second = first.clone();
    let twice = legalize_round(once, &mut second, context, depth);
    stabilize_loop_state(state, &first, &second);
    twice
}

/// Replaces known results in a statement.
#[verifier::spinoff_prover]
#[verifier::rlimit(60)]
pub fn legalize_stmt(
    stmt: Stmt,
    state: &mut LocalTypeState,
    context: &mut TypeContext<'_>,
    depth: u64,
) -> (r: Stmt)
    ensures
        final(context).env() == old(context).env(),
        (r@, final(state)@, final(context)@) == legal_stmt(
            old(context).env(),
            old(context)@,
            stmt@,
            old(state)@,
            depth as nat,
        ),
    decreases depth, 0nat,
{
    if depth == 0 {
        return stmt;
    }
    let d: u64 = depth - 1;
    match stmt {
        Stmt::Drop { index, line } => {
            state.set(index, BoundType::Null);
            Stmt::Drop { index, line }
        },
        Stmt::ClosureLet { line, closure } => Stmt::ClosureLet {
            line,
            closure: legalize_closure(closure, state, context, d),
        },
        Stmt::Let { index, expr, line } => {
            let expr_state = state.clone();
            let (x, ty) = legalize_expr(expr, &expr_state, context, d);
            bind_expr_result_to_slot(state, index, &x, &expr_state, ty);
            Stmt::Let { index, expr: x, line }
        },
        Stmt::Assign { index, expr, line } => {
            let expr_state = state.clone();
            let (x, ty) = legalize_expr(expr, &expr_state, context, d);
            bind_expr_result_to_slot(state, index, &x, &expr_state, ty);
            Stmt::Assign { index, expr: x, line }
        },
        Stmt::Expr { expr, line } => {
            let (x, _) = legalize_expr(expr, state, context, d);
            Stmt::Expr { expr: x, line }
        },
        Stmt::IfElse { condition, then_branch, else_branch, line } => {
            let (c, _) = legalize_expr(condition, state, context, d);
            let mut then_state = state.clone();
            let mut else_state = state.clone();
            let then_legal = legalize_stmts(then_branch, &mut then_state, context, d);
            let else_legal = legalize_stmts(else_branch, &mut else_state, context, d);
            state.merge_from_branches(&then_state, &else_state);
            Stmt::IfElse { condition: c, then_branch: then_legal, else_branch: else_legal, line }
        },
        Stmt::For { init, condition, post, body, line } => {
            let init_legal = legalize_stmt(*init, state, context, d);
            let parts = legalize_loop(
                LoopParts { condition, body, post: Some(*post) },
                state,
                context,
                d,
            );
            let post_legal: Stmt = parts.post.unwrap();
            Stmt::For {
                init: Box::new(init_legal),
                condition: parts.condition,
                post: Box::new(post_legal),
                body: parts.body,
                line,
            }
        },
        Stmt::While { condition, body, line } => {
            let parts = legalize_loop(LoopParts { condition, body, post: None }, state, context, d);
            Stmt::While { condition: parts.condition, body: parts.body, line }
        },
        other => other,
    }
}

} // verus!
