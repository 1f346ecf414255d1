//! Type inference over a whole program.

use std::collections::HashMap;
use vstd::prelude::*;
use crate::check::{
    check_expr, check_stmt, check_stmts, validate_expr, validate_stmt, validate_stmts, CheckPlace,
    CheckR, CheckS, Place,
};
use crate::errors::{opt_text, CompileError, CompileErrorV};
use crate::generation::MAX_DEPTH;
use crate::host::{
    build_function_names, build_host_import_return_types, build_host_import_signatures,
    program_env, put, HostFunctions,
};
use crate::infer::{
    bind_expr_result_to_slot, bind_result, impls_view, infer, lookup, names_view, opt_stmt,
    signatures_map_view,
    stabilize_loop_state, strict_add, TypeContext, TypeEnvV, TypeNotes,
};
use crate::ir::{
    stmts_view, ClosureExpr, Expr, ExprV, FrontendIr, FunctionDecl, FunctionImpl, FunctionImplV,
    LocalSlot, Stmt, StmtV, ValueType,
};
use crate::legalize::{legal_expr, legal_stmts, legalize_expr, legalize_stmts};
use crate::types::{
    loop_join, value_type_of, BoundType, LocalTypeState, TypeInferenceResult, TypesV,
};

verus! {

// ---------------------------------------------------------------------------
// The state at the start of a function body.

/// The type of the parameter at a position, from the calls seen.
pub open spec fn param_type(observed: Option<Seq<BoundType>>, position: int) -> BoundType {
    match observed {
        Some(types) => if 0 <= position < types.len() {
            types[position]
        } else {
            BoundType::Unknown
        },
        None => BoundType::Unknown,
    }
}

/// A state with the types of parameters noted, from position `i` on.
pub open spec fn seeded(
    state: TypesV,
    params: Seq<LocalSlot>,
    observed: Option<Seq<BoundType>>,
    i: int,
) -> TypesV
    decreases params.len() - i,
{
    if i < 0 || i >= params.len() {
        state
    } else {
        seeded(state.set(params[i], param_type(observed, i)), params, observed, i + 1)
    }
}

/// A state with captured slots noted one after the other, from position `i` on.
pub open spec fn with_captures(
    state: TypesV,
    captures: Seq<(LocalSlot, LocalSlot)>,
    i: int,
) -> TypesV
    decreases captures.len() - i,
{
    if i < 0 || i >= captures.len() {
        state
    } else {
        with_captures(state.copy_from(state, captures[i].0, captures[i].1), captures, i + 1)
    }
}

/// What is known at the start of a function body.
pub open spec fn entry_state(f: FunctionImplV, observed: Option<Seq<BoundType>>) -> TypesV {
    with_captures(seeded(TypesV::empty(), f.params, observed, 0), f.captures, 0)
}

/// The argument types seen at calls of a function.
pub open spec fn seen_types(notes: TypeNotes, index: u16) -> Option<Seq<BoundType>> {
    if notes.observed.dom().contains(index) {
        Some(notes.observed[index])
    } else {
        None
    }
}

/// The contents of an optional list of types.
pub open spec fn opt_types(types: Option<&Vec<BoundType>>) -> Option<Seq<BoundType>> {
    match types {
        Some(v) => Some(v@),
        None => None,
    }
}

/// The type of the parameter at a position, from the calls seen.
fn observed_param_type(observed: Option<&Vec<BoundType>>, position: usize) -> (r: BoundType)
    ensures
        r == param_type(opt_types(observed), position as int),
{
    match observed {
        Some(types) => if position < types.len() {
            types[position]
        } else {
            BoundType::Unknown
        },
        None => BoundType::Unknown,
    }
}

pub fn seed_function_param_state(
    state: &mut LocalTypeState,
    param_slots: &Vec<LocalSlot>,
    observed: Option<&Vec<BoundType>>,
)
    ensures
        final(state)@ == seeded(old(state)@, param_slots@, opt_types(observed), 0),
{
    let ghost total = seeded(state@, param_slots@, opt_types(observed), 0);
    let mut i: usize = 0;
    while i < param_slots.len()
        invariant
            i <= param_slots@.len(),
            total == seeded(state@, param_slots@, opt_types(observed), i as int),
        decreases param_slots@.len() - i,
    {
        state.set(param_slots[i], observed_param_type(observed, i));
        i += 1;
    }
}

fn copy_own_captures(state: &mut LocalTypeState, captures: &Vec<(LocalSlot, LocalSlot)>)
    ensures
        final(state)@ == with_captures(old(state)@, captures@, 0),
{
    let ghost total = with_captures(state@, captures@, 0);
    let mut i: usize = 0;
    while i < captures.len()
        invariant
            i <= captures@.len(),
            total == with_captures(state@, captures@, i as int),
        decreases captures@.len() - i,
    {
        state.copy_binding(captures[i].0, captures[i].1);
        i += 1;
    }
}

/// The state at the start of a function body.
fn function_entry_state(function_impl: &FunctionImpl, observed: Option<&Vec<BoundType>>) -> (r:
    LocalTypeState)
    ensures
        r@ == entry_state(function_impl@, opt_types(observed)),
{
    let mut state = LocalTypeState::new();
    seed_function_param_state(&mut state, &function_impl.param_slots, observed);
    copy_own_captures(&mut state, &function_impl.capture_copies);
    state
}

// ---------------------------------------------------------------------------
// The types of locals.

/// The type of a local from what it held before and what it is given.
pub open spec fn combined_type(current: ValueType, next: ValueType) -> ValueType {
    if current == ValueType::Unknown {
        next
    } else if current == next {
        current
    } else {
        ValueType::Unknown
    }
}

/// The types of the locals once one of them was given a value.
pub open spec fn recorded(types: Seq<ValueType>, slot: LocalSlot, ty: BoundType) -> Seq<ValueType> {
    if slot < types.len() {
        types.update(slot as int, combined_type(types[slot as int], value_type_of(ty)))
    } else {
        types
    }
}

/// What collecting the types of locals has found so far.
pub struct CollectV {
    pub state: TypesV,
    pub types: Seq<ValueType>,
    pub notes: TypeNotes,
}

/// Notes captured slots for the body of a function, from position `i` on.
pub open spec fn collect_captures(
    c: CollectV,
    captures: Seq<(LocalSlot, LocalSlot)>,
    i: int,
) -> CollectV
    decreases captures.len() - i,
{
    if i < 0 || i >= captures.len() {
        c
    } else {
        let (source, slot) = captures[i];
        collect_captures(
            CollectV {
                types: recorded(c.types, slot, c.state.get(source)),
                state: c.state.copy_from(c.state, source, slot),
                ..c
            },
            captures,
            i + 1,
        )
    }
}

/// Notes the types of the slots that a closure captures, from position `i` on.
pub open spec fn collect_closure_captures(
    types: Seq<ValueType>,
    state: TypesV,
    captures: Seq<(LocalSlot, LocalSlot)>,
    i: int,
) -> Seq<ValueType>
    decreases captures.len() - i,
{
    if i < 0 || i >= captures.len() {
        types
    } else {
        collect_closure_captures(
            recorded(types, captures[i].1, state.get(captures[i].0)),
            state,
            captures,
            i + 1,
        )
    }
}

/// Notes the types of the parameters of a function, from position `i` on.
pub open spec fn collect_params(
    c: CollectV,
    params: Seq<LocalSlot>,
    observed: Option<Seq<BoundType>>,
    i: int,
) -> CollectV
    decreases params.len() - i,
{
    if i < 0 || i >= params.len() {
        c
    } else {
        let ty = param_type(observed, i);
        collect_params(
            CollectV {
                types: recorded(c.types, params[i], ty),
                state: c.state.set(params[i], ty),
                ..c
            },
            params,
            observed,
            i + 1,
        )
    }
}

/// Collects over a list of statements, from position `i` on.
pub open spec fn collect_stmts(
    env: TypeEnvV,
    c: CollectV,
    stmts: Seq<StmtV>,
    i: int,
    depth: nat,
) -> CollectV
    decreases depth, 1nat, stmts.len() - i,
{
    if i < 0 || i >= stmts.len() {
        c
    } else {
        collect_stmts(env, collect_stmt(env, c, stmts[i], depth), stmts, i + 1, depth)
    }
}

/// Collects over one round of a loop.
pub open spec fn collect_round(
    env: TypeEnvV,
    c: CollectV,
    condition: ExprV,
    body: Seq<StmtV>,
    post: Option<StmtV>,
    depth: nat,
) -> CollectV
    decreases depth, 2nat, 0nat,
{
    let c1 = CollectV { notes: infer(env, c.notes, condition, c.state, depth).1, ..c };
    let c2 = collect_stmts(env, c1, body, 0, depth);
    match post {
        Some(p) => collect_stmt(env, c2, p, depth),
        None => c2,
    }
}

/// Collects over a loop by two rounds.
pub open spec fn collect_loop(
    env: TypeEnvV,
    c: CollectV,
    condition: ExprV,
    body: Seq<StmtV>,
    post: Option<StmtV>,
    depth: nat,
) -> CollectV
    decreases depth, 3nat, 0nat,
{
    let first = collect_round(env, c, condition, body, post, depth);
    let second = collect_round(env, first, condition, body, post, depth);
    CollectV { state: loop_join(c.state, first.state, second.state), ..second }
}

/// Collects over an assignment.
pub open spec fn collect_assign(
    env: TypeEnvV,
    c: CollectV,
    index: LocalSlot,
    expr: ExprV,
    depth: nat,
) -> CollectV {
    let (ty, n1) = infer(env, c.notes, expr, c.state, depth);
    CollectV {
        state: bind_result(c.state, index, expr, c.state, ty),
        types: recorded(c.types, index, ty),
        notes: n1,
    }
}

/// Collects over a statement.
pub open spec fn collect_stmt(env: TypeEnvV, c: CollectV, stmt: StmtV, depth: nat) -> CollectV
    decreases depth, 0nat, 0nat,
{
    if depth == 0 {
        c
    } else {
        let d = (depth - 1) as nat;
        match stmt {
            StmtV::Drop { index, .. } => CollectV {
                types: recorded(c.types, index, BoundType::Null),
                state: c.state.set(index, BoundType::Null),
                ..c
            },
            StmtV::ClosureLet { closure, .. } => CollectV {
                types: collect_closure_captures(c.types, c.state, closure.captures, 0),
                notes: infer(env, c.notes, *closure.body, c.state, d).1,
                ..c
            },
            StmtV::FuncDecl { index, .. } => if env.impls.dom().contains(index) {
                collect_captures(c, env.impls[index].captures, 0)
            } else {
                c
            },
            StmtV::Let { index, expr, .. } => collect_assign(env, c, index, expr, d),
            StmtV::Assign { index, expr, .. } => collect_assign(env, c, index, expr, d),
            StmtV::Expr { expr, .. } => CollectV {
                notes: infer(env, c.notes, expr, c.state, d).1,
                ..c
            },
            StmtV::IfElse { condition, then_branch, else_branch, .. } => {
                let c1 = CollectV { notes: infer(env, c.notes, condition, c.state, d).1, ..c };
                let t = collect_stmts(env, c1, then_branch, 0, d);
                let e = collect_stmts(env, CollectV { state: c.state, ..t }, else_branch, 0, d);
                CollectV { state: TypesV::join(t.state, e.state), ..e }
            },
            StmtV::For { init, condition, post, body, .. } => collect_loop(
                env,
                collect_stmt(env, c, *init, d),
                condition,
                body,
                Some(*post),
                d,
            ),
            StmtV::While { condition, body, .. } => collect_loop(env, c, condition, body, None, d),
            _ => c,
        }
    }
}

/// A type that a local was given twice stays; two different types leave it unknown.
pub proof fn law_recorded_types(types: Seq<ValueType>, slot: LocalSlot, a: BoundType, b: BoundType)
    requires
        slot < types.len(),
        types[slot as int] == ValueType::Unknown,
        value_type_of(a) != ValueType::Unknown,
        value_type_of(b) != ValueType::Unknown,
    ensures
        recorded(recorded(types, slot, a), slot, b)[slot as int] == if value_type_of(a)
            == value_type_of(b) {
            value_type_of(a)
        } else {
            ValueType::Unknown
        },
{
}

fn record_local_type(local_types: &mut Vec<ValueType>, slot: LocalSlot, ty: BoundType)
    ensures
        final(local_types)@ == recorded(old(local_types)@, slot, ty),
{
    let at: usize = slot as usize;
    if at >= local_types.len() {
        return;
    }
    let next = ValueType::from(ty);
    let current = local_types[at];
    let combined = if current == ValueType::Unknown {
        next
    } else if current == next {
        current
    } else {
        ValueType::Unknown
    };
    local_types.set(at, combined);
}

/// What collecting has found so far.
pub open spec fn collected(state: TypesV, types: Seq<ValueType>, notes: TypeNotes) -> CollectV {
    CollectV { state, types, notes }
}

fn collect_stmts_types(
    stmts: &Vec<Stmt>,
    state: &mut LocalTypeState,
    local_types: &mut Vec<ValueType>,
    context: &mut TypeContext<'_>,
    depth: u64,
)
    ensures
        final(context).env() == old(context).env(),
        collected(final(state)@, final(local_types)@, final(context)@) == collect_stmts(
            old(context).env(),
            collected(old(state)@, old(local_types)@, old(context)@),
            stmts_view(stmts@),
            0,
            depth as nat,
        ),
    decreases depth, 1nat,
{
    let ghost env = context.env();
    let ghost list = stmts_view(stmts@);
    let ghost total = collect_stmts(
        context.env(),
        collected(state@, local_types@, context@),
        list,
        0,
        depth as nat,
    );
    let mut i: usize = 0;
    while i < stmts.len()
        invariant
            i <= stmts@.len(),
            list == stmts_view(stmts@),
            context.env() == env,
            total == collect_stmts(
                env,
                collected(state@, local_types@, context@),
                list,
                i as int,
                depth as nat,
            ),
        decreases stmts@.len() - i,
    {
        collect_stmt_types(&stmts[i], state, local_types, context, depth);
        i += 1;
    }
}

fn collect_round_types(
    condition: &Expr,
    body: &Vec<Stmt>,
    post: Option<&Stmt>,
    state: &mut LocalTypeState,
    local_types: &mut Vec<ValueType>,
    context: &mut TypeContext<'_>,
    depth: u64,
)
    ensures
        final(context).env() == old(context).env(),
        collected(final(state)@, final(local_types)@, final(context)@) == collect_round(
            old(context).env(),
            collected(old(state)@, old(local_types)@, old(context)@),
            condition@,
            stmts_view(body@),
            opt_stmt(post),
            depth as nat,
        ),
    decreases depth, 2nat,
{
    let _ = context.infer_expr_type(condition, state, depth);
    collect_stmts_types(body, state, local_types, context, depth);
    match post {
        Some(p) => collect_stmt_types(p, state, local_types, context, depth),
        None => {},
    }
}

fn collect_loop_types(
    condition: &Expr,
    body: &Vec<Stmt>,
    post: Option<&Stmt>,
    state: &mut LocalTypeState,
    local_types: &mut Vec<ValueType>,
    context: &mut TypeContext<'_>,
    depth: u64,
)
    ensures
        final(context).env() == old(context).env(),
        collected(final(state)@, final(local_types)@, final(context)@) == collect_loop(
            old(context).env(),
            collected(old(state)@, old(local_types)@, old(context)@),
            condition@,
            stmts_view(body@),
            opt_stmt(post),
            depth as nat,
        ),
    decreases depth, 3nat,
{
    let mut first = state.clone();
    collect_round_types(condition, body, post, &mut first, local_types, context, depth);
    let mut second = first.clone();
    collect_round_types(condition, body, post, &mut second, local_types, context, depth);
    stabilize_loop_state(state, &first, &second);
}

fn collect_closure_capture_types(
    closure: &ClosureExpr,
    state: &LocalTypeState,
    local_types: &mut Vec<ValueType>,
)
    ensures
        final(local_types)@ == collect_closure_captures(
            old(local_types)@,
            state@,
            closure@.captures,
            0,
        ),
{
    let ghost total = collect_closure_captures(local_types@, state@, closure@.captures, 0);
    let mut i: usize = 0;
    while i < closure.capture_copies.len()
        invariant
            i <= closure.capture_copies@.len(),
            closure@.captures == closure.capture_copies@,
            total == collect_closure_captures(
                local_types@,
                state@,
                closure@.captures,
                i as int,
            ),
        decreases closure.capture_copies@.len() - i,
    {
        let ty = state.get(closure.capture_copies[i].0);
        record_local_type(local_types, closure.capture_copies[i].1, ty);
        i += 1;
    }
}

/// Notes captured slots for the body of a function.
fn collect_capture_types(
    captures: &Vec<(LocalSlot, LocalSlot)>,
    state: &mut LocalTypeState,
    local_types: &mut Vec<ValueType>,
    Ghost(notes): Ghost<TypeNotes>,
)
    ensures
        collected(final(state)@, final(local_types)@, notes) == collect_captures(
            collected(old(state)@, old(local_types)@, notes),
            captures@,
            0,
        ),
{
    let ghost total = collect_captures(collected(state@, local_types@, notes), captures@, 0);
    let mut i: usize = 0;
    while i < captures.len()
        invariant
            i <= captures@.len(),
            total == collect_captures(
                collected(state@, local_types@, notes),
                captures@,
                i as int,
            ),
        decreases captures@.len() - i,
    {
        let ty = state.get(captures[i].0);
        record_local_type(local_types, captures[i].1, ty);
        state.copy_binding(captures[i].0, captures[i].1);
        i += 1;
    }
}

/// Collects over a statement.
#[verifier::spinoff_prover]
#[verifier::rlimit(40)]
pub fn collect_stmt_types(
    stmt: &Stmt,
    state: &mut LocalTypeState,
    local_types: &mut Vec<ValueType>,
    context: &mut TypeContext<'_>,
    depth: u64,
)
    ensures
        final(context).env() == old(context).env(),
        collected(final(state)@, final(local_types)@, final(context)@) == collect_stmt(
            old(context).env(),
            collected(old(state)@, old(local_types)@, old(context)@),
            stmt@,
            depth as nat,
        ),
    decreases depth, 0nat,
{
    if depth == 0 {
        return;
    }
    let d: u64 = depth - 1;
    match stmt {
        Stmt::Noop { .. } | Stmt::Break { .. } | Stmt::Continue { .. } => {},
        Stmt::Drop { index, .. } => {
            record_local_type(local_types, *index, BoundType::Null);
            state.set(*index, BoundType::Null);
        },
        Stmt::ClosureLet { closure, .. } => {
            assert(*closure@.body == closure.body@);
            collect_closure_capture_types(closure, state, local_types);
            let _ = context.infer_expr_type(&closure.body, state, d);
        },
        Stmt::FuncDecl { index, .. } => match context.function_impl(*index) {
            Some(function_impl) => {
                collect_capture_types(
                    &function_impl.capture_copies,
                    state,
                    local_types,
                    Ghost(context@),
                );
            },
            None => {},
        },
        Stmt::Let { index, expr, .. } | Stmt::Assign { index, expr, .. } => {
            let expr_state = state.clone();
            let ty = context.infer_expr_type(expr, &expr_state, d);
            record_local_type(local_types, *index, ty);
            bind_expr_result_to_slot(state, *index, expr, &expr_state, ty);
        },
        Stmt::Expr { expr, .. } => {
            let _ = context.infer_expr_type(expr, state, d);
        },
        Stmt::IfElse { condition, then_branch, else_branch, .. } => {
            let _ = context.infer_expr_type(condition, state, d);
            let mut then_state = state.clone();
            let mut else_state = state.clone();
            collect_stmts_types(then_branch, &mut then_state, local_types, context, d);
            collect_stmts_types(else_branch, &mut else_state, local_types, context, d);
            state.merge_from_branches(&then_state, &else_state);
        },
        Stmt::For { init, condition, post, body, .. } => {
            collect_stmt_types(init, state, local_types, context, d);
            collect_loop_types(condition, body, Some(&**post), state, local_types, context, d);
        },
        Stmt::While { condition, body, .. } => {
            collect_loop_types(condition, body, None, state, local_types, context, d);
        },
    }
}

/// The types of the locals once the body of a function was gone through.
pub open spec fn function_types(
    env: TypeEnvV,
    f: FunctionImplV,
    types: Seq<ValueType>,
    observed: Option<Seq<BoundType>>,
) -> Seq<ValueType> {
    let start = collected(TypesV::empty(), types, TypeNotes::empty());
    let with_params = collect_params(start, f.params, observed, 0);
    let entry = collect_captures(with_params, f.captures, 0);
    collect_stmts(env, entry, f.body_stmts, 0, MAX_DEPTH as nat).types
}

fn collect_function_types(
    function_impl: &FunctionImpl,
    local_types: &mut Vec<ValueType>,
    observed: Option<&Vec<BoundType>>,
    context: &mut TypeContext<'_>,
)
    requires
        old(context)@ == TypeNotes::empty(),
    ensures
        final(context).env() == old(context).env(),
        final(local_types)@ == function_types(
            old(context).env(),
            function_impl@,
            old(local_types)@,
            opt_types(observed),
        ),
{
    let mut state = LocalTypeState::new();
    let ghost notes = context@;
    let ghost total = collect_params(
        collected(state@, local_types@, notes),
        function_impl.param_slots@,
        opt_types(observed),
        0,
    );
    let mut i: usize = 0;
    while i < function_impl.param_slots.len()
        invariant
            i <= function_impl.param_slots@.len(),
            total == collect_params(
                collected(state@, local_types@, notes),
                function_impl.param_slots@,
                opt_types(observed),
                i as int,
            ),
        decreases function_impl.param_slots@.len() - i,
    {
        let ty = observed_param_type(observed, i);
        record_local_type(local_types, function_impl.param_slots[i], ty);
        state.set(function_impl.param_slots[i], ty);
        i += 1;
    }
    collect_capture_types(
        &function_impl.capture_copies,
        &mut state,
        local_types,
        Ghost(notes),
    );
    collect_stmts_types(&function_impl.body_stmts, &mut state, local_types, context, MAX_DEPTH);
}

// ---------------------------------------------------------------------------
// Whole programs.

/// The types of the locals after the functions declared from position `i` on.
pub open spec fn all_function_types(
    env: TypeEnvV,
    decls: Seq<FunctionDecl>,
    types: Seq<ValueType>,
    notes: TypeNotes,
    i: int,
) -> Seq<ValueType>
    decreases decls.len() - i,
{
    if i < 0 || i >= decls.len() {
        types
    } else if env.impls.dom().contains(decls[i].index) {
        let after = function_types(
            env,
            env.impls[decls[i].index],
            types,
            seen_types(notes, decls[i].index),
        );
        all_function_types(env, decls, after, notes, i + 1)
    } else {
        all_function_types(env, decls, types, notes, i + 1)
    }
}

/// The types that inference finds for the locals of a program.
pub open spec fn inferred_types(
    env: TypeEnvV,
    stmts: Seq<StmtV>,
    decls: Seq<FunctionDecl>,
    locals: nat,
) -> Seq<ValueType> {
    let unknown = Seq::new(locals, |i: int| ValueType::Unknown);
    let start = collected(TypesV::empty(), unknown, TypeNotes::empty());
    let top = collect_stmts(env, start, stmts, 0, MAX_DEPTH as nat);
    all_function_types(env, decls, top.types, top.notes, 0)
}

pub fn infer_types(ir: &FrontendIr, host: &HostFunctions) -> (r: TypeInferenceResult)
    ensures
        r.local_types@ == inferred_types(
            program_env(ir.functions@, ir.function_impls@, *host),
            stmts_view(ir.stmts@),
            ir.functions@,
            ir.locals as nat,
        ),
{
    let names = build_function_names(&ir.functions);
    let types = build_host_import_return_types(&ir.functions, &ir.function_impls);
    let signatures = build_host_import_signatures(&ir.functions, &ir.function_impls, host);
    let mut local_types: Vec<ValueType> = Vec::new();
    let mut n: usize = 0;
    while n < ir.locals
        invariant
            n <= ir.locals,
            local_types@ =~= Seq::new(n as nat, |i: int| ValueType::Unknown),
        decreases ir.locals - n,
    {
        local_types.push(ValueType::Unknown);
        n += 1;
    }
    let mut state = LocalTypeState::new();
    let mut context = TypeContext::new(&ir.function_impls, &names, &types, &signatures);
    let ghost env = context.env();
    collect_stmts_types(&ir.stmts, &mut state, &mut local_types, &mut context, MAX_DEPTH);
    let ghost notes = context@;
    let ghost total = all_function_types(env, ir.functions@, local_types@, notes, 0);
    let mut i: usize = 0;
    while i < ir.functions.len()
        invariant
            i <= ir.functions@.len(),
            env == program_env(ir.functions@, ir.function_impls@, *host),
            env.impls == impls_view(ir.function_impls@),
            env.names == names_view(names@),
            env.host_types == types@,
            env.host_signatures == signatures_map_view(signatures@),
            context@ == notes,
            total == all_function_types(env, ir.functions@, local_types@, notes, i as int),
        decreases ir.functions@.len() - i,
    {
        let index = ir.functions[i].index;
        match lookup(&ir.function_impls, index) {
            Some(function_impl) => {
                let mut inner = TypeContext::new(&ir.function_impls, &names, &types, &signatures);
                let observed = context.observed_function_param_slice(index);
                collect_function_types(function_impl, &mut local_types, observed, &mut inner);
            },
            None => {},
        }
        i += 1;
    }
    TypeInferenceResult { local_types }
}

/// Checks the body of a function.
pub open spec fn check_function(
    env: TypeEnvV,
    notes: TypeNotes,
    index: u16,
    f: FunctionImplV,
    source: Option<Seq<char>>,
) -> CheckR<()> {
    let place = CheckPlace {
        line: None,
        source,
        strict: notes.observed.dom().contains(index) && strict_add(env, index),
    };
    if notes.conflicts.dom().contains(index) {
        Err(
            (
                CompileErrorV::FunctionParameterTypeConflict(place.error(notes.conflicts[index])),
                notes,
            ),
        )
    } else {
        let entry = entry_state(f, seen_types(notes, index));
        match check_stmts(env, notes, f.body_stmts, 0, entry, place, MAX_DEPTH as nat) {
            Ok((state, n1)) => match check_expr(
                env,
                n1,
                f.body_expr,
                state,
                place,
                MAX_DEPTH as nat,
            ) {
                Ok((_, n2)) => Ok(((), n2)),
                Err(e) => Err(e),
            },
            Err((e, _, n1)) => Err((e, n1)),
        }
    }
}

pub fn validate_function_impl(
    function_index: u16,
    function_impl: &FunctionImpl,
    source_name: Option<&str>,
    context: &mut TypeContext<'_>,
) -> (r: Result<(), CompileError>)
    ensures
        final(context).env() == old(context).env(),
        match check_function(
            old(context).env(),
            old(context)@,
            function_index,
            function_impl@,
            opt_str(source_name),
        ) {
            Ok((_, n)) => r is Ok && final(context)@ == n,
            Err((e, n)) => r is Err && r->Err_0@ == e && final(context)@ == n,
        },
{
    let strict = context.observed_function_param_slice(function_index).is_some()
        && context.function_requires_strict_add_types(function_index);
    let place = Place { line: None, source_name, strict };
    match context.function_param_conflict(function_index) {
        Some(detail) => {
            return Err(
                CompileError::FunctionParameterTypeConflict {
                    line: None,
                    source_name: match source_name {
                        Some(name) => Some(name.to_string()),
                        None => None,
                    },
                    detail: detail.clone(),
                },
            );
        },
        None => {},
    }
    let mut state = function_entry_state(
        function_impl,
        context.observed_function_param_slice(function_index),
    );
    match validate_stmts(&function_impl.body_stmts, &mut state, place, context, MAX_DEPTH) {
        Ok(()) => {},
        Err(e) => {
            return Err(e);
        },
    }
    match validate_expr(&function_impl.body_expr, &state, place, context, MAX_DEPTH) {
        Ok(_) => Ok(()),
        Err(e) => Err(e),
    }
}

/// The contents of an optional string slice.
pub open spec fn opt_str(s: Option<&str>) -> Option<Seq<char>> {
    match s {
        Some(t) => Some(t@),
        None => None,
    }
}

/// The source of the statement at a position.
pub open spec fn stmt_source(sources: Seq<Option<String>>, i: int) -> Option<Seq<char>> {
    if 0 <= i < sources.len() {
        opt_text(sources[i])
    } else {
        None
    }
}

/// Checks the statements of a program, from position `i` on.
pub open spec fn check_top(
    env: TypeEnvV,
    notes: TypeNotes,
    stmts: Seq<StmtV>,
    sources: Seq<Option<String>>,
    i: int,
    state: TypesV,
) -> CheckS
    decreases stmts.len() - i,
{
    if i < 0 || i >= stmts.len() {
        Ok((state, notes))
    } else {
        let place = CheckPlace { line: None, source: stmt_source(sources, i), strict: false };
        match check_stmt(env, notes, stmts[i], state, place, MAX_DEPTH as nat) {
            Ok((s1, n1)) => check_top(env, n1, stmts, sources, i + 1, s1),
            Err(e) => Err(e),
        }
    }
}

/// Checks the functions of a program, from position `i` on.
pub open spec fn check_functions(
    env: TypeEnvV,
    notes: TypeNotes,
    decls: Seq<FunctionDecl>,
    sources: Map<u16, String>,
    i: int,
) -> CheckR<()>
    decreases decls.len() - i,
{
    if i < 0 || i >= decls.len() {
        Ok(((), notes))
    } else if env.impls.dom().contains(decls[i].index) {
        let source = if sources.dom().contains(decls[i].index) {
            Some(sources[decls[i].index]@)
        } else {
            None
        };
        match check_function(env, notes, decls[i].index, env.impls[decls[i].index], source) {
            Ok((_, n1)) => check_functions(env, n1, decls, sources, i + 1),
            Err(e) => Err(e),
        }
    } else {
        check_functions(env, notes, decls, sources, i + 1)
    }
}

/// Checks a program: its statements in order, then its functions.
pub open spec fn check_program(ir: FrontendIr, host: HostFunctions) -> CheckR<()> {
    let env = program_env(ir.functions@, ir.function_impls@, host);
    match check_top(
        env,
        TypeNotes::empty(),
        stmts_view(ir.stmts@),
        ir.stmt_sources@,
        0,
        TypesV::empty(),
    ) {
        Ok((_, n1)) => check_functions(env, n1, ir.functions@, ir.function_sources@, 0),
        Err((e, _, n1)) => Err((e, n1)),
    }
}

pub fn validate_if_else_type_consistency(ir: &FrontendIr, host: &HostFunctions) -> (r: Result<
    (),
    CompileError,
>)
    ensures
        match check_program(*ir, *host) {
            Ok(_) => r is Ok,
            Err((e, _)) => r is Err && r->Err_0@ == e,
        },
{
    let names = build_function_names(&ir.functions);
    let types = build_host_import_return_types(&ir.functions, &ir.function_impls);
    let signatures = build_host_import_signatures(&ir.functions, &ir.function_impls, host);
    let mut state = LocalTypeState::new();
    let mut context = TypeContext::new(&ir.function_impls, &names, &types, &signatures);
    let ghost env = context.env();
    let ghost list = stmts_view(ir.stmts@);
    let ghost total = check_program(*ir, *host);
    let ghost top = check_top(env, context@, list, ir.stmt_sources@, 0, state@);
    let mut i: usize = 0;
    while i < ir.stmts.len()
        invariant
            i <= ir.stmts@.len(),
            list == stmts_view(ir.stmts@),
            context.env() == env,
            env == program_env(ir.functions@, ir.function_impls@, *host),
            total == check_program(*ir, *host),
            top == check_top(
                env,
                TypeNotes::empty(),
                list,
                ir.stmt_sources@,
                0,
                TypesV::empty(),
            ),
            top == check_top(env, context@, list, ir.stmt_sources@, i as int, state@),
        decreases ir.stmts@.len() - i,
    {
        let source_name: Option<&str> = if i < ir.stmt_sources.len() {
            match &ir.stmt_sources[i] {
                Some(name) => Some(name.as_str()),
                None => None,
            }
        } else {
            None
        };
        let place = Place { line: None, source_name, strict: false };
        match validate_stmt(&ir.stmts[i], &mut state, place, &mut context, MAX_DEPTH) {
            Ok(()) => {},
            Err(e) => {
                return Err(e);
            },
        }
        i += 1;
    }
    let mut k: usize = 0;
    while k < ir.functions.len()
        invariant
            k <= ir.functions@.len(),
            context.env() == env,
            env == program_env(ir.functions@, ir.function_impls@, *host),
            env.impls == impls_view(ir.function_impls@),
            total == check_program(*ir, *host),
            total == check_functions(
                env,
                context@,
                ir.functions@,
                ir.function_sources@,
                k as int,
            ),
        decreases ir.functions@.len() - k,
    {
        let index = ir.functions[k].index;
        match lookup(&ir.function_impls, index) {
            Some(function_impl) => {
                let source_name: Option<&str> = match lookup(&ir.function_sources, index) {
                    Some(name) => Some(name.as_str()),
                    None => None,
                };
                match validate_function_impl(index, function_impl, source_name, &mut context) {
                    Ok(()) => {},
                    Err(e) => {
                        return Err(e);
                    },
                }
            },
            None => {},
        }
        k += 1;
    }
    Ok(())
}

/// The body of a function with known results put in.
pub open spec fn legal_impl(
    env: TypeEnvV,
    f: FunctionImplV,
    observed: Option<Seq<BoundType>>,
) -> FunctionImplV {
    let entry = entry_state(f, observed);
    let (stmts, state, n1) = legal_stmts(
        env,
        TypeNotes::empty(),
        f.body_stmts,
        0,
        entry,
        MAX_DEPTH as nat,
    );
    let (expr, _, _) = legal_expr(env, n1, f.body_expr, state, MAX_DEPTH as nat);
    FunctionImplV { body_stmts: stmts, body_expr: expr, ..f }
}

fn legalize_function_impl(
    function_impl: FunctionImpl,
    observed: Option<&Vec<BoundType>>,
    context: &mut TypeContext<'_>,
) -> (r: FunctionImpl)
    requires
        old(context)@ == TypeNotes::empty(),
    ensures
        r@ == legal_impl(old(context).env(), function_impl@, opt_types(observed)),
{
    let mut state = function_entry_state(&function_impl, observed);
    let body_stmts = legalize_stmts(function_impl.body_stmts, &mut state, context, MAX_DEPTH);
    let (body_expr, _) = legalize_expr(function_impl.body_expr, &state, context, MAX_DEPTH);
    FunctionImpl {
        param_slots: function_impl.param_slots,
        capture_copies: function_impl.capture_copies,
        body_stmts,
        body_expr,
    }
}

/// The statements of a program with known results put in, and what was seen on the way.
pub open spec fn legal_top(env: TypeEnvV, stmts: Seq<StmtV>) -> (Seq<StmtV>, TypesV, TypeNotes) {
    legal_stmts(env, TypeNotes::empty(), stmts, 0, TypesV::empty(), MAX_DEPTH as nat)
}

/// The functions of a program with known results put in.
pub open spec fn legal_impls(
    env: TypeEnvV,
    impls: Map<u16, FunctionImplV>,
    notes: TypeNotes,
) -> Map<u16, FunctionImplV> {
    Map::new(
        |k: u16| impls.dom().contains(k),
        |k: u16| legal_impl(env, impls[k], seen_types(notes, k)),
    )
}

/// Replaces known results in a whole program.
#[verifier::rlimit(30)]
pub fn legalize_builtins_and_bind_types(ir: FrontendIr, host: &HostFunctions) -> (r: FrontendIr)
    ensures
        stmts_view(r.stmts@) == legal_top(
            program_env(ir.functions@, ir.function_impls@, *host),
            stmts_view(ir.stmts@),
        ).0,
        impls_view(r.function_impls@) == legal_impls(
            program_env(ir.functions@, ir.function_impls@, *host),
            impls_view(ir.function_impls@),
            legal_top(
                program_env(ir.functions@, ir.function_impls@, *host),
                stmts_view(ir.stmts@),
            ).2,
        ),
        r.locals == ir.locals,
        r.functions == ir.functions,
        r.stmt_sources == ir.stmt_sources,
        r.function_sources == ir.function_sources,
{
    let names = build_function_names(&ir.functions);
    let types = build_host_import_return_types(&ir.functions, &ir.function_impls);
    let signatures = build_host_import_signatures(&ir.functions, &ir.function_impls, host);
    let mut state = LocalTypeState::new();
    let mut context = TypeContext::new(&ir.function_impls, &names, &types, &signatures);
    let ghost env = context.env();
    let stmts = legalize_stmts(ir.stmts, &mut state, &mut context, MAX_DEPTH);
    let ghost notes = context@;
    let ghost models = impls_view(ir.function_impls@);
    let mut function_impls: HashMap<u16, FunctionImpl> = HashMap::new();
    let mut k: u32 = 0;
    assert(impls_view(function_impls@) =~= Map::new(
        |i: u16| i < 0 && models.dom().contains(i),
        |i: u16| legal_impl(env, models[i], seen_types(notes, i)),
    ));
    while k < 0x10000
        invariant
            k <= 0x10000,
            env.impls == models,
            models == impls_view(ir.function_impls@),
            env.names == names_view(names@),
            env.host_types == types@,
            env.host_signatures == signatures_map_view(signatures@),
            context@ == notes,
            impls_view(function_impls@) == Map::new(
                |i: u16| i < k && models.dom().contains(i),
                |i: u16| legal_impl(env, models[i], seen_types(notes, i)),
            ),
        decreases 0x10000 - k,
    {
        let index: u16 = k as u16;
        match lookup(&ir.function_impls, index) {
            Some(function_impl) => {
                let mut inner = TypeContext::new(&ir.function_impls, &names, &types, &signatures);
                assert(inner.env() == env);
                let observed = context.observed_function_param_slice(index);
                let legal = legalize_function_impl(function_impl.clone(), observed, &mut inner);
                let ghost before = function_impls@;
                put(&mut function_impls, index, legal);
                assert(impls_view(function_impls@) =~= impls_view(before).insert(index, legal@));
            },
            None => {},
        }
        k += 1;
        assert(impls_view(function_impls@) =~= Map::new(
            |i: u16| i < k && models.dom().contains(i),
            |i: u16| legal_impl(env, models[i], seen_types(notes, i)),
        ));
    }
    assert(impls_view(function_impls@) =~= legal_impls(env, models, notes));
    FrontendIr {
        stmts,
        locals: ir.locals,
        functions: ir.functions,
        function_impls,
        stmt_sources: ir.stmt_sources,
        function_sources: ir.function_sources,
    }
}

} // verus!
