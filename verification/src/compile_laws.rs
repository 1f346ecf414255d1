//! What code generation is for: the code of an expression leaves its value, and the code of a
//! statement does what the statement does.

use vstd::prelude::*;
use crate::assembler::{
    group_grows, grows, law_resolving_keeps_code, placed, AsmV, Instr, InstrV, ValueV,
};
use crate::builtins::{builtin_index, BuiltinFunction};
use crate::captures::CaptureBindingMode;
use crate::compiler::{compiled, ProgramV};
use crate::consts::{const_int, int_text, power_of_two, surely_string};
use crate::errors::CompileErrorV;
use crate::generation::{
    bind_capture, bind_captures_from, capture_mode, captures_of, clear_from, gen_add, gen_and,
    gen_args, gen_arms, gen_assign, gen_binary, gen_closure_call, gen_concat_operand, gen_expr,
    gen_for, gen_function_call, gen_if, gen_if_expr, gen_if_type, gen_inline_call,
    gen_list, gen_match, gen_mul, gen_number_to_string, gen_operator, gen_or, gen_pair, gen_pattern,
    gen_shift, gen_stmt, gen_stmts, gen_take, gen_type_pattern, gen_type_test, gen_unary, gen_while,
    operator_instr, shift_of, CaptureOwner, GenEnvV, GenR, GenV, MAX_DEPTH,
};
use crate::ir::{BinOp, ClosureV, ExprV, MatchTypePattern, PatternV, StmtV, UnOp};
use crate::machine::{
    arm_value, call_target, call_value, constant, doubled, emptied, fits, is_honest, joined_text,
    leads_to, lemma_emitted, lemma_label_stands, lemma_led_on, lemma_stays, ran, ran_all, ran_loop,
    value_of, values_of, with_arguments, with_captures, Given, Host, Machine, Outcome, Ran,
};
use crate::slots::{closure_frame, descending, function_frame};
use crate::types::{BoundType, CallableV};
use crate::values::{computed, integer_text, kind_name, Val};

verus! {

broadcast use {group_grows, lemma_led_on};

// ---------------------------------------------------------------------------
// Programs without callables as values.

/// Whether an expression holds no callable as a value.
pub open spec fn plain(e: ExprV) -> bool
    decreases e,
{
    match e {
        ExprV::Unary(_, x) => plain(*x),
        ExprV::Binary(_, l, r) => plain(*l) && plain(*r),
        ExprV::IfElse(c, t, f) => plain(*c) && plain(*t) && plain(*f),
        ExprV::Match { value, arms, default, .. } => plain(*value) && plain(*default) && (forall|
            i: int,
        |
            0 <= i < arms.len() ==> plain((#[trigger] arms[i]).1)),
        ExprV::Block(stmts, x) => plain(*x) && (forall|i: int|
            0 <= i < stmts.len() ==> plain_stmt(#[trigger] stmts[i])),
        ExprV::Call(_, args) => forall|i: int| 0 <= i < args.len() ==> plain(#[trigger] args[i]),
        ExprV::ClosureCall(c, args) => plain(*c.body) && (forall|i: int|
            0 <= i < args.len() ==> plain(#[trigger] args[i])),
        ExprV::FunctionRef(_) | ExprV::Closure(_) | ExprV::LocalCall(_, _) => false,
        _ => true,
    }
}

/// Whether a statement holds no callable as a value.
pub open spec fn plain_stmt(s: StmtV) -> bool
    decreases s,
{
    match s {
        StmtV::Let { expr, .. } => plain(expr),
        StmtV::Assign { expr, .. } => plain(expr),
        StmtV::Expr { expr, .. } => plain(expr),
        StmtV::IfElse { condition, then_branch, else_branch, .. } => plain(condition) && (forall|
            i: int,
        |
            0 <= i < then_branch.len() ==> plain_stmt(#[trigger] then_branch[i])) && (forall|
            i: int,
        |
            0 <= i < else_branch.len() ==> plain_stmt(#[trigger] else_branch[i])),
        StmtV::While { condition, body, .. } => plain(condition) && (forall|i: int|
            0 <= i < body.len() ==> plain_stmt(#[trigger] body[i])),
        StmtV::For { init, condition, post, body, .. } => plain_stmt(*init) && plain(condition)
            && plain_stmt(*post) && (forall|i: int|
            0 <= i < body.len() ==> plain_stmt(#[trigger] body[i])),
        _ => true,
    }
}

pub open spec fn plain_stmts(stmts: Seq<StmtV>) -> bool {
    forall|i: int| 0 <= i < stmts.len() ==> plain_stmt(#[trigger] stmts[i])
}

/// Whether the functions of a program hold no callable as a value.
pub open spec fn plain_env(env: GenEnvV) -> bool {
    forall|index: u16| #[trigger]
        env.types.impls.dom().contains(index) ==> plain_stmts(env.types.impls[index].body_stmts)
            && plain(env.types.impls[index].body_expr)
}

/// What a proof about code stands on: a program that is run, and the host that it calls.
pub struct World {
    pub env: GenEnvV,
    pub host: Host,
    pub program: AsmV,
    pub fuel: nat,
}

impl World {
    pub open spec fn wf(self) -> bool {
        plain_env(self.env) && is_honest(self.host) && self.program.code.len() <= usize::MAX
    }
}

/// A machine at the end of what was generated so far.
pub open spec fn behind(g: GenV, stack: Seq<Val>, locals: Seq<Val>) -> Machine {
    Machine { at: g.out.code.len() as int, stack, locals }
}

/// Whether one state of the generator comes from another by adding code.
pub open spec fn adds(g: GenV, h: GenV) -> bool {
    &&& grows(g.out, h.out)
    &&& h.loops == g.loops
    &&& h.callables == Map::<u16, CallableV>::empty()
}

/// Whether the code between two states turns a stack and locals into others.
pub open spec fn turns(
    w: World,
    g: GenV,
    stack: Seq<Val>,
    locals: Seq<Val>,
    h: GenV,
    stack2: Seq<Val>,
    locals2: Seq<Val>,
) -> bool {
    leads_to(w.program, w.host, behind(g, stack, locals), behind(h, stack2, locals2))
}

/// Whether what was generated comes to what an expression comes to: its value on the stack.
pub open spec fn gives(
    w: World,
    g: GenV,
    r: GenR,
    stack: Seq<Val>,
    locals: Seq<Val>,
    expected: Given,
) -> bool {
    r matches Ok(h) ==> adds(g, h) && (grows(h.out, w.program) ==> (expected matches Some((v, l))
        ==> l.len() == 256 && turns(w, g, stack, locals, h, stack.push(v), l)))
}

/// Whether locals are those of a machine, and the generator knows no callable.
pub open spec fn ready(w: World, g: GenV, locals: Seq<Val>) -> bool {
    w.wf() && locals.len() == 256 && g.callables == Map::<u16, CallableV>::empty()
}

// ---------------------------------------------------------------------------
// Single steps.

proof fn lemma_push(w: World, g: GenV, v: ValueV, stack: Seq<Val>, locals: Seq<Val>)
    ensures
        grows(g.push(v).out, w.program) ==> turns(
            w,
            g,
            stack,
            locals,
            g.push(v),
            stack.push(constant(v)),
            locals,
        ),
{
    if grows(g.push(v).out, w.program) {
        lemma_emitted(w.program, w.host, g.out, Instr::Const(v), behind(g, stack, locals));
    }
}

/// A local is loaded, and put back.
proof fn lemma_copy(w: World, g: GenV, slot: u16, stack: Seq<Val>, locals: Seq<Val>)
    requires
        ready(w, g, locals),
    ensures
        g.copy_ldloc(slot) matches Ok(h) ==> slot < 256 && adds(g, h) && h.next_label
            == g.next_label && (grows(h.out, w.program) ==> turns(
            w,
            g,
            stack,
            locals,
            h,
            stack.push(locals[slot as int]),
            locals,
        )),
{
    if slot <= 255 {
        let s = slot as u8;
        let v = locals[slot as int];
        let g1 = g.emit(Instr::Ldloc(s));
        let g2 = g1.emit(Instr::Dup);
        let g3 = g2.emit(Instr::Stloc(s));
        assert(g.copy_ldloc(slot) == GenR::Ok(g3));
        let taken = locals.update(slot as int, Val::Null);
        if grows(g3.out, w.program) {
            lemma_emitted(w.program, w.host, g.out, Instr::Ldloc(s), behind(g, stack, locals));
            lemma_emitted(
                w.program,
                w.host,
                g1.out,
                Instr::Dup,
                behind(g1, stack.push(v), taken),
            );
            lemma_emitted(
                w.program,
                w.host,
                g2.out,
                Instr::Stloc(s),
                behind(g2, stack.push(v).push(v), taken),
            );
            assert(stack.push(v).push(v).drop_last() =~= stack.push(v));
            assert(taken.update(slot as int, v) =~= locals);
            assert(turns(w, g, stack, locals, g1, stack.push(v), taken));
            assert(turns(w, g1, stack.push(v), taken, g2, stack.push(v).push(v), taken));
            assert(turns(w, g2, stack.push(v).push(v), taken, g3, stack.push(v), locals));
        }
    }
}

proof fn lemma_store(w: World, g: GenV, slot: u16, stack: Seq<Val>, v: Val, locals: Seq<Val>)
    requires
        ready(w, g, locals),
    ensures
        g.stloc(slot) matches Ok(h) ==> slot < 256 && adds(g, h) && h.next_label == g.next_label
            && (grows(h.out, w.program) ==> turns(
            w,
            g,
            stack.push(v),
            locals,
            h,
            stack,
            locals.update(slot as int, v),
        )),
{
    if slot <= 255 {
        let s = slot as u8;
        let g1 = g.emit(Instr::Stloc(s));
        if grows(g1.out, w.program) {
            lemma_emitted(
                w.program,
                w.host,
                g.out,
                Instr::Stloc(s),
                behind(g, stack.push(v), locals),
            );
            assert(stack.push(v).drop_last() =~= stack);
        }
    }
}

/// A call of the host takes its arguments from the stack.
proof fn lemma_host_call(
    w: World,
    g: GenV,
    index: u16,
    argc: u8,
    stack: Seq<Val>,
    args: Seq<Val>,
    locals: Seq<Val>,
)
    requires
        args.len() == argc,
    ensures
        ({
            let h = g.emit(Instr::Call(index, argc));
            grows(h.out, w.program) ==> ((w.host)(index, args) matches Some(v) ==> turns(
                w,
                g,
                stack + args,
                locals,
                h,
                stack.push(v),
                locals,
            ))
        }),
{
    let h = g.emit(Instr::Call(index, argc));
    if grows(h.out, w.program) {
        let all = stack + args;
        lemma_emitted(
            w.program,
            w.host,
            g.out,
            Instr::Call(index, argc),
            behind(g, all, locals),
        );
        assert(all.skip(all.len() - argc) =~= args);
        assert(all.take(all.len() - argc) =~= stack);
    }
}

/// Each operator's instruction computes what the operator does.
pub proof fn law_instructions_compute_their_operators(
    w: World,
    g: GenV,
    op: BinOp,
    a: Val,
    b: Val,
    stack: Seq<Val>,
    locals: Seq<Val>,
)
    requires
        !(op is And),
        !(op is Or),
    ensures
        ({
            let h = g.emit(operator_instr(op));
            grows(h.out, w.program) ==> (computed(op, a, b) matches Some(v) ==> turns(
                w,
                g,
                stack.push(a).push(b),
                locals,
                h,
                stack.push(v),
                locals,
            ))
        }),
{
    let h = g.emit(operator_instr(op));
    let all = stack.push(a).push(b);
    if grows(h.out, w.program) {
        lemma_emitted(w.program, w.host, g.out, operator_instr(op), behind(g, all, locals));
        assert(all.take(all.len() - 2) =~= stack);
    }
}

proof fn lemma_jump_if_false(
    w: World,
    g: GenV,
    l: Seq<char>,
    stack: Seq<Val>,
    x: bool,
    locals: Seq<Val>,
)
    ensures
        ({
            let h = g.emit(Instr::BrFalse(l));
            grows(h.out, w.program) && w.program.labels.dom().contains(l) ==> leads_to(
                w.program,
                w.host,
                behind(g, stack.push(Val::Bool(x)), locals),
                if x {
                    behind(h, stack, locals)
                } else {
                    Machine { at: w.program.labels[l] as int, stack, locals }
                },
            )
        }),
{
    let h = g.emit(Instr::BrFalse(l));
    if grows(h.out, w.program) && w.program.labels.dom().contains(l) {
        lemma_emitted(
            w.program,
            w.host,
            g.out,
            Instr::BrFalse(l),
            behind(g, stack.push(Val::Bool(x)), locals),
        );
        assert(stack.push(Val::Bool(x)).drop_last() =~= stack);
    }
}

proof fn lemma_jump(w: World, g: GenV, l: Seq<char>, stack: Seq<Val>, locals: Seq<Val>)
    ensures
        ({
            let h = g.emit(Instr::Br(l));
            grows(h.out, w.program) && w.program.labels.dom().contains(l) ==> leads_to(
                w.program,
                w.host,
                behind(g, stack, locals),
                Machine { at: w.program.labels[l] as int, stack, locals },
            )
        }),
{
    let h = g.emit(Instr::Br(l));
    if grows(h.out, w.program) && w.program.labels.dom().contains(l) {
        lemma_emitted(w.program, w.host, g.out, Instr::Br(l), behind(g, stack, locals));
    }
}

/// A label stands where it was placed.
proof fn lemma_placed(w: World, g: GenV, l: Seq<char>)
    requires
        w.wf(),
    ensures
        g.place(l) matches Ok(h) ==> {
            &&& grows(g.out, h.out)
            &&& h.loops == g.loops && h.callables == g.callables && h.out.code == g.out.code
            &&& grows(h.out, w.program) ==> w.program.labels.dom().contains(l)
                && w.program.labels[l] == g.out.code.len()
        },
{
    if g.place(l) is Ok {
        let h = g.place(l)->Ok_0;
        assert(g.out.label(l) is Ok);
        if grows(h.out, w.program) {
            lemma_label_stands(w.program, g.out, l);
        }
    }
}

// ---------------------------------------------------------------------------
// Constants and conversions.

proof fn lemma_powers_agree(n: nat)
    ensures
        doubled(n) == power_of_two(n),
        power_of_two(n) > n,
    decreases n,
{
    if n > 0 {
        lemma_powers_agree((n - 1) as nat);
    }
}

/// An expression that is a constant has its value, and changes nothing.
pub proof fn law_constants_have_their_value(
    w: World,
    e: ExprV,
    locals: Seq<Val>,
    depth: nat,
)
    ensures
        const_int(e) matches Some(n) ==> (value_of(w.env, w.host, e, locals, depth, w.fuel) matches Some(
            (v, l),
        ) ==> v == Val::Int(n as int) && l == locals),
    decreases depth,
{
    if depth > 0 && const_int(e) is Some {
        let d = (depth - 1) as nat;
        match e {
            ExprV::Unary(_, x) => law_constants_have_their_value(w, *x, locals, d),
            ExprV::Binary(op, l, r) => {
                law_constants_have_their_value(w, *l, locals, d);
                law_constants_have_their_value(w, *r, locals, d);
                lemma_no_text(*l);
                lemma_no_text(*r);
                let a = const_int(*l)->0 as int;
                let b = const_int(*r)->0 as int;
                if op is Div && b != 0 {
                    assert(a * -1 == -a && b * -1 == -b);
                }
            },
            _ => {},
        }
    }
}

proof fn lemma_no_text(e: ExprV)
    ensures
        const_int(e) is Some ==> !surely_string(e),
    decreases e,
{
    match e {
        ExprV::Unary(_, x) => lemma_no_text(*x),
        ExprV::Binary(_, l, r) => {
            lemma_no_text(*l);
            lemma_no_text(*r);
        },
        _ => {},
    }
}

proof fn lemma_integer_texts_agree(n: int)
    ensures
        int_text(n) == integer_text(n),
{
    reveal_strlit("-");
    assert("-"@ =~= seq!['-']);
}

/// Goes on where the value on top of the stack has a type, and to the label where not.
proof fn lemma_if_type(
    w: World,
    g: GenV,
    name: Seq<char>,
    otherwise: Seq<char>,
    stack: Seq<Val>,
    v: Val,
    locals: Seq<Val>,
)
    requires
        ready(w, g, locals),
    ensures
        ({
            let h = gen_if_type(g, name, otherwise);
            &&& adds(g, h) && h.next_label == g.next_label
            &&& grows(h.out, w.program) && w.program.labels.dom().contains(otherwise) ==> leads_to(
                w.program,
                w.host,
                behind(g, stack.push(v), locals),
                if kind_name(v) == name {
                    behind(h, stack.push(v), locals)
                } else {
                    Machine {
                        at: w.program.labels[otherwise] as int,
                        stack: stack.push(v),
                        locals,
                    }
                },
            )
        }),
{
    let s1 = stack.push(v);
    let kind = Val::Str(kind_name(v));
    let g1 = g.emit(Instr::Dup);
    let g2 = g1.call_builtin(BuiltinFunction::TypeOf, 1);
    let g3 = g2.push(ValueV::Str(name));
    let g4 = g3.emit(Instr::Ceq);
    let h = g4.emit(Instr::BrFalse(otherwise));
    if grows(h.out, w.program) && w.program.labels.dom().contains(otherwise) {
        lemma_emitted(w.program, w.host, g.out, Instr::Dup, behind(g, s1, locals));
        assert(turns(w, g, s1, locals, g1, s1.push(v), locals));
        lemma_host_call(
            w,
            g1,
            builtin_index(BuiltinFunction::TypeOf),
            1,
            s1,
            seq![v],
            locals,
        );
        assert(s1 + seq![v] =~= s1.push(v));
        assert((w.host)(builtin_index(BuiltinFunction::TypeOf), seq![v]) == Some(kind));
        assert(turns(w, g1, s1.push(v), locals, g2, s1.push(kind), locals));
        lemma_push(w, g2, ValueV::Str(name), s1.push(kind), locals);
        assert(operator_instr(BinOp::Eq) == Instr::<ValueV, Seq<char>>::Ceq);
        law_instructions_compute_their_operators(
            w,
            g3,
            BinOp::Eq,
            kind,
            Val::Str(name),
            s1,
            locals,
        );
        let same = kind_name(v) == name;
        assert(turns(w, g3, s1.push(kind).push(Val::Str(name)), locals, g4, s1.push(
            Val::Bool(same),
        ), locals));
        lemma_jump_if_false(w, g4, otherwise, s1, same, locals);
    }
}

/// A number is turned into its text, and a text stays.
#[verifier::rlimit(30)]
proof fn lemma_number_to_string(w: World, g: GenV, stack: Seq<Val>, v: Val, locals: Seq<Val>)
    requires
        ready(w, g, locals),
    ensures
        gen_number_to_string(g) matches Ok(h) ==> adds(g, h) && (grows(h.out, w.program) ==> (
        joined_text(v) matches Some(t) ==> turns(
            w,
            g,
            stack.push(v),
            locals,
            h,
            stack.push(Val::Str(t)),
            locals,
        ))),
{
    let not_int = g.label("concat_not_int"@);
    let not_float = g.taken().label("concat_not_float"@);
    let done = g.taken().taken().label("concat_value_done"@);
    let g0 = g.taken().taken().taken();
    crate::type_laws::lemma_names_differ();
    lemma_if_type(w, g0, "int"@, not_int, stack, v, locals);
    let a = gen_if_type(g0, "int"@, not_int);
    let b = a.call_builtin(BuiltinFunction::ToString, 1);
    let c = b.emit(Instr::Br(done));
    lemma_placed(w, c, not_int);
    match c.place(not_int) {
        Ok(g1) => {
            lemma_if_type(w, g1, "float"@, not_float, stack, v, locals);
            let a2 = gen_if_type(g1, "float"@, not_float);
            let b2 = a2.call_builtin(BuiltinFunction::ToString, 1);
            let c2 = b2.emit(Instr::Br(done));
            lemma_placed(w, c2, not_float);
            match c2.place(not_float) {
                Ok(g2) => {
                    lemma_placed(w, g2, done);
                    match g2.place(done) {
                        Ok(h) => {
                            assert(grows(c.out, g1.out));
                            assert(grows(c2.out, g2.out));
                            if grows(h.out, w.program) && joined_text(v) is Some {
                                match v {
                                    Val::Int(n) => {
                                        let t = Val::Str(integer_text(n));
                                        lemma_host_call(
                                            w,
                                            a,
                                            builtin_index(BuiltinFunction::ToString),
                                            1,
                                            stack,
                                            seq![v],
                                            locals,
                                        );
                                        assert(stack + seq![v] =~= stack.push(v));
                                        assert((w.host)(
                                            builtin_index(BuiltinFunction::ToString),
                                            seq![v],
                                        ) == Some(t));
                                        assert(turns(
                                            w,
                                            a,
                                            stack.push(v),
                                            locals,
                                            b,
                                            stack.push(t),
                                            locals,
                                        ));
                                        lemma_jump(w, b, done, stack.push(t), locals);
                                    },
                                    _ => {},
                                }
                            }
                        },
                        Err(_) => {},
                    }
                },
                Err(_) => {},
            }
        },
        Err(_) => {},
    }
}

/// The type of a local is compared with a name.
proof fn lemma_type_test(
    w: World,
    g: GenV,
    slot: u16,
    name: Seq<char>,
    stack: Seq<Val>,
    locals: Seq<Val>,
)
    requires
        ready(w, g, locals),
    ensures
        gen_type_test(g, slot, name) matches Ok(h) ==> slot < 256 && adds(g, h) && h.next_label
            == g.next_label && (grows(h.out, w.program) ==> turns(
            w,
            g,
            stack,
            locals,
            h,
            stack.push(Val::Bool(kind_name(locals[slot as int]) == name)),
            locals,
        )),
{
    lemma_copy(w, g, slot, stack, locals);
    match g.copy_ldloc(slot) {
        Ok(g1) => {
            let v = locals[slot as int];
            let kind = Val::Str(kind_name(v));
            let g2 = g1.call_builtin(BuiltinFunction::TypeOf, 1);
            let g3 = g2.push(ValueV::Str(name));
            let h = g3.emit(Instr::Ceq);
            if grows(h.out, w.program) {
                lemma_host_call(
                    w,
                    g1,
                    builtin_index(BuiltinFunction::TypeOf),
                    1,
                    stack,
                    seq![v],
                    locals,
                );
                assert(stack + seq![v] =~= stack.push(v));
                assert((w.host)(builtin_index(BuiltinFunction::TypeOf), seq![v]) == Some(kind));
                assert(turns(w, g1, stack.push(v), locals, g2, stack.push(kind), locals));
                lemma_push(w, g2, ValueV::Str(name), stack.push(kind), locals);
                assert(operator_instr(BinOp::Eq) == Instr::<ValueV, Seq<char>>::Ceq);
                law_instructions_compute_their_operators(
                    w,
                    g3,
                    BinOp::Eq,
                    kind,
                    Val::Str(name),
                    stack,
                    locals,
                );
            }
        },
        Err(_) => {},
    }
}

/// The code of a pattern leaves whether a local has it.
#[verifier::rlimit(30)]
proof fn lemma_pattern(w: World, g: GenV, slot: u16, p: PatternV, stack: Seq<Val>, locals: Seq<Val>)
    requires
        ready(w, g, locals),
    ensures
        gen_pattern(g, slot, p) matches Ok(h) ==> slot < 256 && adds(g, h) && (grows(
            h.out,
            w.program,
        ) ==> (fits(p, locals[slot as int]) matches Some(x) ==> turns(
            w,
            g,
            stack,
            locals,
            h,
            stack.push(Val::Bool(x)),
            locals,
        ))),
{
    let v = locals[slot as int];
    crate::type_laws::lemma_names_differ();
    match p {
        PatternV::Type(t) => {
            lemma_type_test(w, g, slot, "int"@, stack, locals);
            lemma_type_test(w, g, slot, "float"@, stack, locals);
            lemma_type_test(w, g, slot, "bool"@, stack, locals);
            lemma_type_test(w, g, slot, "string"@, stack, locals);
            lemma_type_test(w, g, slot, "array"@, stack, locals);
            lemma_type_test(w, g, slot, "map"@, stack, locals);
            if t is Number {
                lemma_number_pattern(w, g, slot, stack, locals);
            }
        },
        _ => {
            lemma_copy(w, g, slot, stack, locals);
            match g.copy_ldloc(slot) {
                Ok(g1) => {
                    let c = match p {
                        PatternV::Int(n) => ValueV::Int(n),
                        PatternV::Str(s) => ValueV::Str(s),
                        _ => ValueV::Null,
                    };
                    lemma_push(w, g1, c, stack.push(v), locals);
                    assert(operator_instr(BinOp::Eq) == Instr::<ValueV, Seq<char>>::Ceq);
                    law_instructions_compute_their_operators(
                        w,
                        g1.push(c),
                        BinOp::Eq,
                        v,
                        constant(c),
                        stack,
                        locals,
                    );
                },
                Err(_) => {},
            }
        },
    }
}

proof fn lemma_number_pattern(w: World, g: GenV, slot: u16, stack: Seq<Val>, locals: Seq<Val>)
    requires
        ready(w, g, locals),
    ensures
        gen_type_pattern(g, slot, MatchTypePattern::Number) matches Ok(h) ==> slot < 256 && adds(
            g,
            h,
        ) && (grows(h.out, w.program) ==> turns(
            w,
            g,
            stack,
            locals,
            h,
            stack.push(Val::Bool(locals[slot as int] is Int || locals[slot as int] is Float)),
            locals,
        )),
{
    let v = locals[slot as int];
    crate::type_laws::lemma_names_differ();
    let fallback = g.label("match_type_number_fallback"@);
    let end = g.taken().label("match_type_number_end"@);
    let g0 = g.taken().taken();
    lemma_type_test(w, g0, slot, "int"@, stack, locals);
    match gen_type_test(g0, slot, "int"@) {
        Ok(g1) => {
            let a = g1.emit(Instr::BrFalse(fallback));
            let b = a.push(ValueV::Bool(true));
            let c = b.emit(Instr::Br(end));
            lemma_placed(w, c, fallback);
            match c.place(fallback) {
                Ok(g2) => {
                    lemma_type_test(w, g2, slot, "float"@, stack, locals);
                    match gen_type_test(g2, slot, "float"@) {
                        Ok(g3) => {
                            lemma_placed(w, g3, end);
                            match g3.place(end) {
                                Ok(h) => {
                                    if grows(h.out, w.program) {
                                        lemma_jump_if_false(
                                            w,
                                            g1,
                                            fallback,
                                            stack,
                                            v is Int,
                                            locals,
                                        );
                                        lemma_push(w, a, ValueV::Bool(true), stack, locals);
                                        lemma_jump(
                                            w,
                                            b,
                                            end,
                                            stack.push(Val::Bool(true)),
                                            locals,
                                        );
                                    }
                                },
                                Err(_) => {},
                            }
                        },
                        Err(_) => {},
                    }
                },
                Err(_) => {},
            }
        },
        Err(_) => {},
    }
}

/// Locals are emptied one after the other.
proof fn lemma_clear(w: World, g: GenV, slots: Seq<u16>, i: int, stack: Seq<Val>, locals: Seq<Val>)
    requires
        ready(w, g, locals),
        0 <= i <= slots.len(),
    ensures
        clear_from(g, slots, i) matches Ok(h) ==> adds(g, h) && (grows(h.out, w.program) ==> emptied(
            locals,
            slots,
            i,
        ).len() == 256 && turns(w, g, stack, locals, h, stack, emptied(locals, slots, i))),
    decreases slots.len() - i,
{
    if i < slots.len() {
        let a = g.push(ValueV::Null);
        lemma_push(w, g, ValueV::Null, stack, locals);
        lemma_store(w, a, slots[i], stack, Val::Null, locals);
        match a.stloc(slots[i]) {
            Ok(g1) => {
                let g2 = g1.set_type(slots[i], crate::types::BoundType::Null);
                let l1 = locals.update(slots[i] as int, Val::Null);
                lemma_clear(w, g2, slots, i + 1, stack, l1);
                assert(grows(g.out, a.out));
            },
            Err(_) => {},
        }
    } else {
        lemma_stays(w.program, w.host, behind(g, stack, locals));
    }
}

// ---------------------------------------------------------------------------
// Expressions.

/// The locals behind an expression, or those before it where nothing is said of it.
pub open spec fn left_by(given: Given, locals: Seq<Val>) -> Seq<Val> {
    match given {
        Some((_, l)) => if l.len() == 256 {
            l
        } else {
            locals
        },
        None => locals,
    }
}

pub open spec fn val(w: World, e: ExprV, locals: Seq<Val>, depth: nat) -> Given {
    value_of(w.env, w.host, e, locals, depth, w.fuel)
}

/// Two expressions in turn leave both values.
proof fn lemma_pair(
    w: World,
    g: GenV,
    l: ExprV,
    r: ExprV,
    depth: nat,
    stack: Seq<Val>,
    locals: Seq<Val>,
)
    requires
        ready(w, g, locals),
        plain(l),
        plain(r),
    ensures
        gen_pair(w.env, g, l, r, depth) matches Ok(h) ==> adds(g, h) && (grows(h.out, w.program) ==> (
        val(w, l, locals, depth) matches Some((a, l1)) ==> (val(w, r, l1, depth) matches Some(
            (b, l2),
        ) ==> l2.len() == 256 && turns(w, g, stack, locals, h, stack.push(a).push(b), l2)))),
    decreases depth, 1nat, 0nat,
{
    let first = val(w, l, locals, depth);
    lemma_expr(w, g, l, depth, stack, locals);
    match gen_expr(w.env, g, l, depth) {
        Ok(g1) => {
            let l1 = left_by(first, locals);
            let s1 = match first {
                Some((a, _)) => stack.push(a),
                None => stack,
            };
            lemma_expr(w, g1, r, depth, s1, l1);
        },
        Err(_) => {},
    }
}

/// Expressions in turn leave all their values.
proof fn lemma_list(
    w: World,
    g: GenV,
    list: Seq<ExprV>,
    i: int,
    depth: nat,
    stack: Seq<Val>,
    locals: Seq<Val>,
)
    requires
        ready(w, g, locals),
        0 <= i <= list.len(),
        forall|k: int| 0 <= k < list.len() ==> plain(#[trigger] list[k]),
    ensures
        gen_list(w.env, g, list, i, depth) matches Ok(h) ==> adds(g, h) && (grows(
            h.out,
            w.program,
        ) ==> (values_of(w.env, w.host, list, i, locals, depth, w.fuel) matches Some((vs, l))
            ==> vs.len() == list.len() - i && l.len() == 256 && turns(
            w,
            g,
            stack,
            locals,
            h,
            stack + vs,
            l,
        ))),
    decreases depth, 1nat, list.len() - i,
{
    if i < list.len() {
        lemma_expr(w, g, list[i], depth, stack, locals);
        match gen_expr(w.env, g, list[i], depth) {
            Ok(g1) => {
                let first = val(w, list[i], locals, depth);
                let l1 = left_by(first, locals);
                let s1 = match first {
                    Some((a, _)) => stack.push(a),
                    None => stack,
                };
                lemma_list(w, g1, list, i + 1, depth, s1, l1);
                match first {
                    Some((a, la)) => match values_of(
                        w.env,
                        w.host,
                        list,
                        i + 1,
                        la,
                        depth,
                        w.fuel,
                    ) {
                        Some((vs, _)) => assert(stack.push(a) + vs =~= stack + (seq![a] + vs)),
                        None => {},
                    },
                    None => {},
                }
            },
            Err(_) => {},
        }
    } else {
        assert(stack + Seq::<Val>::empty() =~= stack);
        lemma_stays(w.program, w.host, behind(g, stack, locals));
    }
}

/// An operand of a joined text is left as a text.
proof fn lemma_concat(
    w: World,
    g: GenV,
    e: ExprV,
    depth: nat,
    stack: Seq<Val>,
    locals: Seq<Val>,
)
    requires
        ready(w, g, locals),
        plain(e),
    ensures
        gen_concat_operand(w.env, g, e, depth) matches Ok(h) ==> adds(g, h) && (grows(
            h.out,
            w.program,
        ) ==> (val(w, e, locals, depth) matches Some((v, l)) ==> (joined_text(v) matches Some(t)
            ==> l.len() == 256 && turns(w, g, stack, locals, h, stack.push(Val::Str(t)), l)))),
    decreases depth, 1nat, 0nat,
{
    match const_int(e) {
        Some(n) => {
            let text = ValueV::Str(int_text(n as int));
            lemma_push(w, g, text, stack, locals);
            law_constants_have_their_value(w, e, locals, depth);
            lemma_integer_texts_agree(n as int);
        },
        None => {
            lemma_expr(w, g, e, depth, stack, locals);
            match gen_expr(w.env, g, e, depth) {
                Ok(g1) => {
                    match val(w, e, locals, depth) {
                        Some((v, l)) => {
                            if l.len() == 256 {
                                lemma_number_to_string(w, g1, stack, v, l);
                            } else {
                                lemma_number_to_string(w, g1, stack, v, locals);
                            }
                        },
                        None => lemma_number_to_string(w, g1, stack, Val::Null, locals),
                    }
                },
                Err(_) => {},
            }
        },
    }
}

/// The code of an operation of two operands leaves what the operator makes of them.
proof fn lemma_operator(
    w: World,
    g: GenV,
    op: BinOp,
    l: ExprV,
    r: ExprV,
    depth: nat,
    stack: Seq<Val>,
    locals: Seq<Val>,
)
    requires
        ready(w, g, locals),
        plain(l),
        plain(r),
        !(op is And),
        !(op is Or),
    ensures
        gen_operator(w.env, g, op, l, r, depth) matches Ok(h) ==> adds(g, h) && (grows(
            h.out,
            w.program,
        ) ==> (val(w, l, locals, depth) matches Some((a, l1)) ==> (val(w, r, l1, depth) matches Some(
            (b, l2),
        ) ==> (computed(op, a, b) matches Some(v) ==> l2.len() == 256 && turns(
            w,
            g,
            stack,
            locals,
            h,
            stack.push(v),
            l2,
        ))))),
    decreases depth, 2nat, 0nat,
{
    lemma_pair(w, g, l, r, depth, stack, locals);
    match gen_pair(w.env, g, l, r, depth) {
        Ok(g1) => {
            let lt = crate::generation::value_type_at(w.env, g, l);
            let rt = crate::generation::value_type_at(w.env, g, r);
            let g2 = g1.record(lt, rt);
            match val(w, l, locals, depth) {
                Some((a, l1)) => match val(w, r, l1, depth) {
                    Some((b, l2)) => law_instructions_compute_their_operators(
                        w,
                        g2,
                        op,
                        a,
                        b,
                        stack,
                        l2,
                    ),
                    None => {},
                },
                None => {},
            }
        },
        Err(_) => {},
    }
}

/// The code of an addition leaves the sum, or the texts joined.
proof fn lemma_add(
    w: World,
    g: GenV,
    l: ExprV,
    r: ExprV,
    depth: nat,
    stack: Seq<Val>,
    locals: Seq<Val>,
)
    requires
        ready(w, g, locals),
        plain(l),
        plain(r),
    ensures
        gives(
            w,
            g,
            gen_add(w.env, g, l, r, depth),
            stack,
            locals,
            val(w, ExprV::Binary(BinOp::Add, Box::new(l), Box::new(r)), locals, depth + 1),
        ),
    decreases depth, 3nat, 0nat,
{
    lemma_operator(w, g, BinOp::Add, l, r, depth, stack, locals);
    if surely_string(l) || surely_string(r) {
        let first = val(w, l, locals, depth);
        let l1 = left_by(first, locals);
        if surely_string(l) {
            lemma_expr(w, g, l, depth, stack, locals);
            match gen_expr(w.env, g, l, depth) {
                Ok(g1) => {
                    let s1 = match first {
                        Some((a, _)) => stack.push(a),
                        None => stack,
                    };
                    lemma_concat(w, g1, r, depth, s1, l1);
                    lemma_sure_text(w, l, locals, depth);
                    lemma_join(w, g, g1, l, r, depth, stack, locals);
                },
                Err(_) => {},
            }
        } else {
            lemma_concat(w, g, l, depth, stack, locals);
            match gen_concat_operand(w.env, g, l, depth) {
                Ok(g1) => {
                    let s1 = match first {
                        Some((a, _)) => match joined_text(a) {
                            Some(t) => stack.push(Val::Str(t)),
                            None => stack,
                        },
                        None => stack,
                    };
                    lemma_expr(w, g1, r, depth, s1, l1);
                    lemma_sure_text(w, r, l1, depth);
                    match gen_expr(w.env, g1, r, depth) {
                        Ok(g2) => {
                            let g3 = g2.record(
                                crate::ir::ValueType::String,
                                crate::ir::ValueType::String,
                            );
                            match first {
                                Some((a, la)) => match val(w, r, la, depth) {
                                    Some((b, l2)) => match (joined_text(a), joined_text(b)) {
                                        (Some(x), Some(y)) => {
                                            law_instructions_compute_their_operators(
                                                w,
                                                g3,
                                                BinOp::Add,
                                                Val::Str(x),
                                                Val::Str(y),
                                                stack,
                                                l2,
                                            );
                                        },
                                        _ => {},
                                    },
                                    None => {},
                                },
                                None => {},
                            }
                        },
                        Err(_) => {},
                    }
                },
                Err(_) => {},
            }
        }
    }
}

/// An expression that is a text for certain is one.
proof fn lemma_sure_text(w: World, e: ExprV, locals: Seq<Val>, depth: nat)
    ensures
        surely_string(e) ==> (val(w, e, locals, depth) matches Some((v, _)) ==> v is Str),
    decreases depth,
{
    if depth > 0 && surely_string(e) {
        let d = (depth - 1) as nat;
        match e {
            ExprV::Unary(_, x) => lemma_sure_text(w, *x, locals, d),
            _ => {},
        }
    }
}

proof fn lemma_join(
    w: World,
    g: GenV,
    g1: GenV,
    l: ExprV,
    r: ExprV,
    depth: nat,
    stack: Seq<Val>,
    locals: Seq<Val>,
)
    requires
        w.wf(),
    ensures
        gen_concat_operand(w.env, g1, r, depth) matches Ok(g2) ==> ({
            let g3 = g2.record(crate::ir::ValueType::String, crate::ir::ValueType::String);
            let h = g3.emit(Instr::Add);
            grows(h.out, w.program) ==> (val(w, l, locals, depth) matches Some((a, l1)) ==> (val(
                w,
                r,
                l1,
                depth,
            ) matches Some((b, l2)) ==> (joined_text(a) matches Some(x) ==> (joined_text(
                b,
            ) matches Some(y) ==> turns(
                w,
                g3,
                stack.push(Val::Str(x)).push(Val::Str(y)),
                l2,
                h,
                stack.push(Val::Str(x + y)),
                l2,
            )))))
        }),
{
    match gen_concat_operand(w.env, g1, r, depth) {
        Ok(g2) => {
            let g3 = g2.record(crate::ir::ValueType::String, crate::ir::ValueType::String);
            match val(w, l, locals, depth) {
                Some((a, l1)) => match val(w, r, l1, depth) {
                    Some((b, l2)) => match (joined_text(a), joined_text(b)) {
                        (Some(x), Some(y)) => {
                            law_instructions_compute_their_operators(
                                w,
                                g3,
                                BinOp::Add,
                                Val::Str(x),
                                Val::Str(y),
                                stack,
                                l2,
                            );
                        },
                        _ => {},
                    },
                    None => {},
                },
                None => {},
            }
        },
        Err(_) => {},
    }
}

/// A shift by the exponent of a power of two is a product with the power.
proof fn lemma_shift(
    w: World,
    g: GenV,
    e: ExprV,
    n: i64,
    depth: nat,
    stack: Seq<Val>,
    locals: Seq<Val>,
)
    requires
        ready(w, g, locals),
        plain(e),
        shift_of(ExprV::Int(n)) is Some,
    ensures
        gen_shift(w.env, g, e, shift_of(ExprV::Int(n))->0, depth) matches Ok(h) ==> adds(g, h) && (
        grows(h.out, w.program) ==> (val(w, e, locals, depth) matches Some((v, l)) ==> (
        v matches Val::Int(a) ==> l.len() == 256 && turns(
            w,
            g,
            stack,
            locals,
            h,
            stack.push(Val::Int(a * n)),
            l,
        )))),
    decreases depth, 1nat, 0nat,
{
    let k = shift_of(ExprV::Int(n))->0;
    let m = choose|m: nat| n == power_of_two(m);
    assert(k == m);
    lemma_powers_agree(m);
    lemma_expr(w, g, e, depth, stack, locals);
    match gen_expr(w.env, g, e, depth) {
        Ok(g1) => {
            let c = ValueV::Int(k as i64);
            let g2 = g1.push(c);
            let h = g2.emit(Instr::Shl);
            match val(w, e, locals, depth) {
                Some((Val::Int(a), l)) => {
                    lemma_push(w, g1, c, stack.push(Val::Int(a)), l);
                    let all = stack.push(Val::Int(a)).push(Val::Int(k));
                    if grows(h.out, w.program) {
                        lemma_emitted(w.program, w.host, g2.out, Instr::Shl, behind(g2, all, l));
                        assert(all.take(all.len() - 2) =~= stack);
                        assert(turns(w, g2, all, l, h, stack.push(Val::Int(a * n)), l));
                    }
                },
                _ => {},
            }
        },
        Err(_) => {},
    }
}

#[verifier::rlimit(60)]
proof fn lemma_mul(
    w: World,
    g: GenV,
    l: ExprV,
    r: ExprV,
    depth: nat,
    stack: Seq<Val>,
    locals: Seq<Val>,
)
    requires
        ready(w, g, locals),
        plain(l),
        plain(r),
    ensures
        gives(
            w,
            g,
            gen_mul(w.env, g, l, r, depth),
            stack,
            locals,
            val(w, ExprV::Binary(BinOp::Mul, Box::new(l), Box::new(r)), locals, depth + 1),
        ),
    decreases depth, 3nat, 0nat,
{
    if shift_of(r) is Some {
        let n = r->Int_0;
        assert(r == ExprV::Int(n));
        lemma_shift(w, g, l, n, depth, stack, locals);
        match val(w, l, locals, depth) {
            Some((_, l1)) => assert(val(w, r, l1, depth) == Some((Val::Int(n as int), l1))),
            None => {},
        }
    } else if shift_of(l) is Some {
        let n = l->Int_0;
        assert(l == ExprV::Int(n));
        lemma_shift(w, g, r, n, depth, stack, locals);
        match val(w, r, locals, depth) {
            Some((Val::Int(a), _)) => {
                assert(a * n == n * a) by (nonlinear_arith);
                assert(val(w, l, locals, depth) == Some((Val::Int(n as int), locals)));
            },
            Some(_) => {
                assert(val(w, l, locals, depth) == Some((Val::Int(n as int), locals)));
            },
            None => {
                if depth > 0 {
                    assert(val(w, l, locals, depth) == Some((Val::Int(n as int), locals)));
                }
            },
        }
    } else {
        lemma_operator(w, g, BinOp::Mul, l, r, depth, stack, locals);
    }
}

/// The code of `&&`: the right side only where the left one holds.
#[verifier::rlimit(30)]
proof fn lemma_and(
    w: World,
    g: GenV,
    l: ExprV,
    r: ExprV,
    depth: nat,
    stack: Seq<Val>,
    locals: Seq<Val>,
)
    requires
        ready(w, g, locals),
        plain(l),
        plain(r),
    ensures
        gives(
            w,
            g,
            gen_and(w.env, g, l, r, depth),
            stack,
            locals,
            val(w, ExprV::Binary(BinOp::And, Box::new(l), Box::new(r)), locals, depth + 1),
        ),
    decreases depth, 1nat, 0nat,
{
    let on_false = g.label("and_false"@);
    let end = g.taken().label("and_end"@);
    let g0 = g.taken().taken();
    let first = val(w, l, locals, depth);
    let l1 = left_by(first, locals);
    lemma_expr(w, g0, l, depth, stack, locals);
    match gen_expr(w.env, g0, l, depth) {
        Ok(g1) => {
            let a = g1.emit(Instr::BrFalse(on_false));
            lemma_expr(w, a, r, depth, stack, l1);
            match gen_expr(w.env, a, r, depth) {
                Ok(g2) => {
                    let b = g2.emit(Instr::Br(end));
                    lemma_placed(w, b, on_false);
                    match b.place(on_false) {
                        Ok(g3) => {
                            let c = g3.push(ValueV::Bool(false));
                            lemma_placed(w, c, end);
                            match c.place(end) {
                                Ok(h) => {
                                    if grows(h.out, w.program) {
                                        match first {
                                            Some((Val::Bool(x), _)) => {
                                                lemma_jump_if_false(w, g1, on_false, stack, x, l1);
                                                lemma_push(
                                                    w,
                                                    g3,
                                                    ValueV::Bool(false),
                                                    stack,
                                                    l1,
                                                );
                                                match val(w, r, l1, depth) {
                                                    Some((v, l2)) => lemma_jump(
                                                        w,
                                                        g2,
                                                        end,
                                                        stack.push(v),
                                                        l2,
                                                    ),
                                                    None => {},
                                                }
                                            },
                                            _ => {},
                                        }
                                    }
                                },
                                Err(_) => {},
                            }
                        },
                        Err(_) => {},
                    }
                },
                Err(_) => {},
            }
        },
        Err(_) => {},
    }
}

/// The code of `||`: the right side only where the left one does not hold.
#[verifier::rlimit(30)]
proof fn lemma_or(
    w: World,
    g: GenV,
    l: ExprV,
    r: ExprV,
    depth: nat,
    stack: Seq<Val>,
    locals: Seq<Val>,
)
    requires
        ready(w, g, locals),
        plain(l),
        plain(r),
    ensures
        gives(
            w,
            g,
            gen_or(w.env, g, l, r, depth),
            stack,
            locals,
            val(w, ExprV::Binary(BinOp::Or, Box::new(l), Box::new(r)), locals, depth + 1),
        ),
    decreases depth, 1nat, 0nat,
{
    let on_false = g.label("or_rhs"@);
    let end = g.taken().label("or_end"@);
    let g0 = g.taken().taken();
    let first = val(w, l, locals, depth);
    let l1 = left_by(first, locals);
    lemma_expr(w, g0, l, depth, stack, locals);
    match gen_expr(w.env, g0, l, depth) {
        Ok(g1) => {
            let a = g1.emit(Instr::BrFalse(on_false));
            let b = a.push(ValueV::Bool(true));
            let c = b.emit(Instr::Br(end));
            lemma_placed(w, c, on_false);
            match c.place(on_false) {
                Ok(g2) => {
                    lemma_expr(w, g2, r, depth, stack, l1);
                    match gen_expr(w.env, g2, r, depth) {
                        Ok(g3) => {
                            lemma_placed(w, g3, end);
                            match g3.place(end) {
                                Ok(h) => {
                                    if grows(h.out, w.program) {
                                        match first {
                                            Some((Val::Bool(x), _)) => {
                                                lemma_jump_if_false(w, g1, on_false, stack, x, l1);
                                                lemma_push(w, a, ValueV::Bool(true), stack, l1);
                                                lemma_jump(
                                                    w,
                                                    b,
                                                    end,
                                                    stack.push(Val::Bool(true)),
                                                    l1,
                                                );
                                            },
                                            _ => {},
                                        }
                                    }
                                },
                                Err(_) => {},
                            }
                        },
                        Err(_) => {},
                    }
                },
                Err(_) => {},
            }
        },
        Err(_) => {},
    }
}

proof fn lemma_unary(
    w: World,
    g: GenV,
    op: UnOp,
    x: ExprV,
    depth: nat,
    stack: Seq<Val>,
    locals: Seq<Val>,
)
    requires
        ready(w, g, locals),
        plain(x),
    ensures
        gives(
            w,
            g,
            gen_unary(w.env, g, op, x, depth),
            stack,
            locals,
            val(w, ExprV::Unary(op, Box::new(x)), locals, depth + 1),
        ),
    decreases depth, 1nat, 0nat,
{
    lemma_expr(w, g, x, depth, stack, locals);
    match gen_expr(w.env, g, x, depth) {
        Ok(g1) => {
            let g2 = g1.record_unary(crate::generation::value_type_at(w.env, g, x));
            match val(w, x, locals, depth) {
                Some((v, l)) => {
                    if grows(g2.emit(Instr::Neg).out, w.program) {
                        lemma_emitted(
                            w.program,
                            w.host,
                            g2.out,
                            Instr::Neg,
                            behind(g2, stack.push(v), l),
                        );
                    }
                    if grows(g1.emit(Instr::Not).out, w.program) {
                        lemma_emitted(
                            w.program,
                            w.host,
                            g1.out,
                            Instr::Not,
                            behind(g1, stack.push(v), l),
                        );
                    }
                    assert(stack.push(v).drop_last() =~= stack);
                },
                None => {},
            }
        },
        Err(_) => {},
    }
}

/// The arm that a value takes from `i` on: nothing where none has its pattern.
pub open spec fn taken_arm(
    w: World,
    arms: Seq<(PatternV, ExprV)>,
    i: int,
    v: Val,
    locals: Seq<Val>,
    depth: nat,
) -> Option<Option<(Val, Seq<Val>)>>
    decreases arms.len() - i,
{
    if i < 0 || i >= arms.len() {
        Some(None)
    } else {
        match fits(arms[i].0, v) {
            Some(true) => match val(w, arms[i].1, locals, depth) {
                Some(x) => Some(Some(x)),
                None => None,
            },
            Some(false) => taken_arm(w, arms, i + 1, v, locals, depth),
            None => None,
        }
    }
}

proof fn lemma_taken_arm(
    w: World,
    arms: Seq<(PatternV, ExprV)>,
    i: int,
    default: ExprV,
    v: Val,
    locals: Seq<Val>,
    depth: nat,
)
    requires
        0 <= i <= arms.len(),
    ensures
        arm_value(w.env, w.host, arms, i, default, v, locals, depth, w.fuel) == match taken_arm(
            w,
            arms,
            i,
            v,
            locals,
            depth,
        ) {
            Some(Some(x)) => Some(x),
            Some(None) => val(w, default, locals, depth),
            None => None,
        },
    decreases arms.len() - i,
{
    if i < arms.len() {
        lemma_taken_arm(w, arms, i + 1, default, v, locals, depth);
    }
}

/// The code of arms: the first that a local has the pattern of leaves its value in another
/// and goes to the end; where none does, the code goes on.
#[verifier::rlimit(40)]
proof fn lemma_arms(
    w: World,
    g: GenV,
    value_slot: u16,
    result_slot: u16,
    arms: Seq<(PatternV, ExprV)>,
    i: int,
    end: Seq<char>,
    depth: nat,
    stack: Seq<Val>,
    locals: Seq<Val>,
)
    requires
        ready(w, g, locals),
        0 <= i <= arms.len(),
        value_slot < 256,
        forall|k: int| 0 <= k < arms.len() ==> plain((#[trigger] arms[k]).1),
    ensures
        gen_arms(w.env, g, value_slot, result_slot, arms, i, end, depth) matches Ok(h) ==> adds(
            g,
            h,
        ) && (grows(h.out, w.program) && w.program.labels.dom().contains(end) ==> match taken_arm(
            w,
            arms,
            i,
            locals[value_slot as int],
            locals,
            depth,
        ) {
            Some(Some((r, l))) => result_slot < 256 && l.len() == 256 && leads_to(
                w.program,
                w.host,
                behind(g, stack, locals),
                Machine {
                    at: w.program.labels[end] as int,
                    stack,
                    locals: l.update(result_slot as int, r),
                },
            ),
            Some(None) => turns(w, g, stack, locals, h, stack, locals),
            None => true,
        }),
    decreases depth, 1nat, arms.len() - i,
{
    if i < arms.len() {
        let v = locals[value_slot as int];
        let next = g.label("match_next"@);
        lemma_pattern(w, g.taken(), value_slot, arms[i].0, stack, locals);
        match gen_pattern(g.taken(), value_slot, arms[i].0) {
            Ok(g1) => {
                let a = g1.emit(Instr::BrFalse(next));
                lemma_expr(w, a, arms[i].1, depth, stack, locals);
                match gen_expr(w.env, a, arms[i].1, depth) {
                    Ok(g2) => {
                        let given = val(w, arms[i].1, locals, depth);
                        let l1 = left_by(given, locals);
                        let r = match given {
                            Some((r, _)) => r,
                            None => Val::Null,
                        };
                        lemma_store(w, g2, result_slot, stack, r, l1);
                        match g2.stloc(result_slot) {
                            Ok(g3) => {
                                let b = g3.emit(Instr::Br(end));
                                lemma_placed(w, b, next);
                                match b.place(next) {
                                    Ok(g4) => {
                                        lemma_arms(
                                            w,
                                            g4,
                                            value_slot,
                                            result_slot,
                                            arms,
                                            i + 1,
                                            end,
                                            depth,
                                            stack,
                                            locals,
                                        );
                                        match gen_arms(
                                            w.env,
                                            g4,
                                            value_slot,
                                            result_slot,
                                            arms,
                                            i + 1,
                                            end,
                                            depth,
                                        ) {
                                            Ok(h) => {
                                                if grows(h.out, w.program)
                                                    && w.program.labels.dom().contains(end) {
                                                    match fits(arms[i].0, v) {
                                                        Some(x) => {
                                                            lemma_jump_if_false(
                                                                w,
                                                                g1,
                                                                next,
                                                                stack,
                                                                x,
                                                                locals,
                                                            );
                                                            lemma_jump(
                                                                w,
                                                                g3,
                                                                end,
                                                                stack,
                                                                l1.update(result_slot as int, r),
                                                            );
                                                        },
                                                        None => {},
                                                    }
                                                }
                                            },
                                            Err(_) => {},
                                        }
                                    },
                                    Err(_) => {},
                                }
                            },
                            Err(_) => {},
                        }
                    },
                    Err(_) => {},
                }
            },
            Err(_) => {},
        }
    } else {
        lemma_stays(w.program, w.host, behind(g, stack, locals));
    }
}

/// The code of a choice leaves the value of the branch that the condition picks.
#[verifier::rlimit(30)]
proof fn lemma_if_expr(
    w: World,
    g: GenV,
    c: ExprV,
    t: ExprV,
    f: ExprV,
    depth: nat,
    stack: Seq<Val>,
    locals: Seq<Val>,
)
    requires
        ready(w, g, locals),
        plain(c),
        plain(t),
        plain(f),
    ensures
        gives(
            w,
            g,
            gen_if_expr(w.env, g, c, t, f, depth),
            stack,
            locals,
            val(w, ExprV::IfElse(Box::new(c), Box::new(t), Box::new(f)), locals, depth + 1),
        ),
    decreases depth, 1nat, 0nat,
{
    let first = val(w, c, locals, depth);
    let l1 = left_by(first, locals);
    lemma_expr(w, g, c, depth, stack, locals);
    match gen_expr(w.env, g, c, depth) {
        Ok(g1) => {
            let on_else = g1.label("if_else"@);
            let end = g1.taken().label("if_end"@);
            let g0 = g1.taken().taken();
            let a = g0.emit(Instr::BrFalse(on_else));
            lemma_expr(w, a, t, depth, stack, l1);
            match gen_expr(w.env, a, t, depth) {
                Ok(g2) => {
                    let b = g2.emit(Instr::Br(end));
                    lemma_placed(w, b, on_else);
                    match b.place(on_else) {
                        Ok(g3) => {
                            lemma_expr(w, g3, f, depth, stack, l1);
                            match gen_expr(w.env, g3, f, depth) {
                                Ok(g4) => {
                                    lemma_placed(w, g4, end);
                                    match g4.place(end) {
                                        Ok(h) => {
                                            if grows(h.out, w.program) {
                                                match first {
                                                    Some((Val::Bool(x), _)) => {
                                                        lemma_jump_if_false(
                                                            w,
                                                            g0,
                                                            on_else,
                                                            stack,
                                                            x,
                                                            l1,
                                                        );
                                                        match val(w, t, l1, depth) {
                                                            Some((v, l2)) => lemma_jump(
                                                                w,
                                                                g2,
                                                                end,
                                                                stack.push(v),
                                                                l2,
                                                            ),
                                                            None => {},
                                                        }
                                                    },
                                                    _ => {},
                                                }
                                            }
                                        },
                                        Err(_) => {},
                                    }
                                },
                                Err(_) => {},
                            }
                        },
                        Err(_) => {},
                    }
                },
                Err(_) => {},
            }
        },
        Err(_) => {},
    }
}

/// The code of a match leaves the value of the first arm whose pattern the value has.
#[verifier::rlimit(60)]
proof fn lemma_match(
    w: World,
    g: GenV,
    value_slot: u16,
    result_slot: u16,
    value: ExprV,
    arms: Seq<(PatternV, ExprV)>,
    default: ExprV,
    depth: nat,
    stack: Seq<Val>,
    locals: Seq<Val>,
)
    requires
        ready(w, g, locals),
        plain(value),
        plain(default),
        forall|k: int| 0 <= k < arms.len() ==> plain((#[trigger] arms[k]).1),
    ensures
        gen_match(w.env, g, value_slot, result_slot, value, arms, default, depth) matches Ok(h)
            ==> adds(g, h) && (grows(h.out, w.program) ==> (val(w, value, locals, depth) matches Some(
            (v, l1),
        ) ==> (arm_value(
            w.env,
            w.host,
            arms,
            0,
            default,
            v,
            l1.update(value_slot as int, v),
            depth,
            w.fuel,
        ) matches Some((r, l2)) ==> l2.update(result_slot as int, r).len() == 256 && turns(
            w,
            g,
            stack,
            locals,
            h,
            stack.push(r),
            l2.update(result_slot as int, r),
        )))),
    decreases depth, 2nat, 0nat,
{
    let first = val(w, value, locals, depth);
    let l1 = left_by(first, locals);
    let v = match first {
        Some((v, _)) => v,
        None => Val::Null,
    };
    lemma_expr(w, g, value, depth, stack, locals);
    match gen_expr(w.env, g, value, depth) {
        Ok(g1) => {
            lemma_store(w, g1, value_slot, stack, v, l1);
            match g1.stloc(value_slot) {
                Ok(g2) => {
                    let end = g2.label("match_end"@);
                    let l2 = l1.update(value_slot as int, v);
                    lemma_arms(
                        w,
                        g2.taken(),
                        value_slot,
                        result_slot,
                        arms,
                        0,
                        end,
                        depth,
                        stack,
                        l2,
                    );
                    lemma_taken_arm(w, arms, 0, default, v, l2, depth);
                    match gen_arms(
                        w.env,
                        g2.taken(),
                        value_slot,
                        result_slot,
                        arms,
                        0,
                        end,
                        depth,
                    ) {
                        Ok(g3) => {
                            lemma_expr(w, g3, default, depth, stack, l2);
                            match gen_expr(w.env, g3, default, depth) {
                                Ok(g4) => {
                                    let other = val(w, default, l2, depth);
                                    let l3 = left_by(other, l2);
                                    let d = match other {
                                        Some((d, _)) => d,
                                        None => Val::Null,
                                    };
                                    lemma_store(w, g4, result_slot, stack, d, l3);
                                    match g4.stloc(result_slot) {
                                        Ok(g5) => {
                                            lemma_placed(w, g5, end);
                                            match g5.place(end) {
                                                Ok(g6) => {
                                                    lemma_copy(
                                                        w,
                                                        g6,
                                                        result_slot,
                                                        stack,
                                                        l3.update(result_slot as int, d),
                                                    );
                                                    match taken_arm(w, arms, 0, v, l2, depth) {
                                                        Some(Some((r, l))) => {
                                                            if l.len() == 256 {
                                                                lemma_copy(
                                                                    w,
                                                                    g6,
                                                                    result_slot,
                                                                    stack,
                                                                    l.update(
                                                                        result_slot as int,
                                                                        r,
                                                                    ),
                                                                );
                                                            }
                                                        },
                                                        _ => {},
                                                    }
                                                },
                                                Err(_) => {},
                                            }
                                        },
                                        Err(_) => {},
                                    }
                                },
                                Err(_) => {},
                            }
                        },
                        Err(_) => {},
                    }
                },
                Err(_) => {},
            }
        },
        Err(_) => {},
    }
}

/// An entry that is taken out of a container adds code.
proof fn lemma_take(w: World, g: GenV, root: u16, key: ValueV, locals: Seq<Val>)
    requires
        ready(w, g, locals),
    ensures
        gen_take(g, root, key) matches Ok(h) ==> adds(g, h),
{
    lemma_copy(w, g, root, Seq::empty(), locals);
    match g.copy_ldloc(root) {
        Ok(g1) => {
            let a = g1.push(key).call_builtin(BuiltinFunction::Get, 2);
            lemma_copy(w, a, root, Seq::empty(), locals);
            match a.copy_ldloc(root) {
                Ok(g2) => {
                    let b = g2.push(key).push(ValueV::Null).call_builtin(BuiltinFunction::SetAt, 3);
                    lemma_store(w, b, root, Seq::empty(), Val::Null, locals);
                },
                Err(_) => {},
            }
        },
        Err(_) => {},
    }
}

/// The code of an expression leaves its value on the stack, above what was there, and the
/// locals as the expression leaves them.
#[verifier::rlimit(60)]
proof fn lemma_expr(
    w: World,
    g: GenV,
    e: ExprV,
    depth: nat,
    stack: Seq<Val>,
    locals: Seq<Val>,
)
    requires
        ready(w, g, locals),
        plain(e),
    ensures
        gives(
            w,
            g,
            gen_expr(w.env, g, e, depth),
            stack,
            locals,
            val(w, e, locals, depth),
        ),
    decreases depth, 0nat, 0nat,
{
    if depth > 0 {
        let d = (depth - 1) as nat;
        match e {
            ExprV::Null => lemma_push(w, g, ValueV::Null, stack, locals),
            ExprV::Int(n) => lemma_push(w, g, ValueV::Int(n), stack, locals),
            ExprV::Float(t) => lemma_push(w, g, ValueV::Float(t), stack, locals),
            ExprV::Bool(x) => lemma_push(w, g, ValueV::Bool(x), stack, locals),
            ExprV::Str(t) => lemma_push(w, g, ValueV::Str(t), stack, locals),
            ExprV::Var(s) => lemma_copy(w, g, s, stack, locals),
            ExprV::MoveVar(s) => {
                if s <= 255 && grows(g.emit(Instr::Ldloc(s as u8)).out, w.program) {
                    lemma_emitted(
                        w.program,
                        w.host,
                        g.out,
                        Instr::Ldloc(s as u8),
                        behind(g, stack, locals),
                    );
                }
            },
            ExprV::MoveField(root, key) => lemma_take(w, g, root, ValueV::Str(key), locals),
            ExprV::MoveIndex(root, n) => lemma_take(w, g, root, ValueV::Int(n), locals),
            ExprV::Unary(op, x) => {
                assert(e == ExprV::Unary(op, Box::new(*x)));
                lemma_unary(w, g, op, *x, d, stack, locals);
            },
            ExprV::Binary(op, l, r) => {
                assert(e == ExprV::Binary(op, Box::new(*l), Box::new(*r)));
                assert(gen_expr(w.env, g, e, depth) == gen_binary(w.env, g, op, *l, *r, d));
                match op {
                    BinOp::Add => lemma_add(w, g, *l, *r, d, stack, locals),
                    BinOp::Mul => lemma_mul(w, g, *l, *r, d, stack, locals),
                    BinOp::And => lemma_and(w, g, *l, *r, d, stack, locals),
                    BinOp::Or => lemma_or(w, g, *l, *r, d, stack, locals),
                    _ => lemma_operator(w, g, op, *l, *r, d, stack, locals),
                }
            },
            ExprV::IfElse(c, t, f) => {
                assert(e == ExprV::IfElse(Box::new(*c), Box::new(*t), Box::new(*f)));
                lemma_if_expr(w, g, *c, *t, *f, d, stack, locals);
            },
            ExprV::Match { value_slot, result_slot, value, arms, default } => {
                lemma_match(
                    w,
                    g,
                    value_slot,
                    result_slot,
                    *value,
                    arms,
                    *default,
                    d,
                    stack,
                    locals,
                );
            },
            ExprV::Block(stmts, x) => {
                lemma_stmts(w, g, stmts, 0, d, stack, locals);
                match gen_stmts(w.env, g, stmts, 0, d) {
                    Ok(g1) => {
                        let l1 = match ran_all(w.env, w.host, stmts, 0, locals, d, w.fuel) {
                            Some((_, vs, l)) => {
                                assert(vs.len() == 0 ==> stack + vs =~= stack);
                                if l.len() == 256 {
                                    l
                                } else {
                                    locals
                                }
                            },
                            None => locals,
                        };
                        lemma_expr(w, g1, *x, d, stack, l1);
                    },
                    Err(_) => {},
                }
            },
            ExprV::Call(index, args) => lemma_call(w, g, index, args, d, stack, locals),
            ExprV::ClosureCall(c, args) => {
                lemma_closure_call(w, g, c, args, d, stack, locals);
                assert(gen_expr(w.env, g, e, depth) == gen_closure_call(w.env, g, c, args, d));
            },
            _ => {},
        }
    }
}

// ---------------------------------------------------------------------------
// Calls.

/// The value of an expression is put into a local.
proof fn lemma_assign(
    w: World,
    g: GenV,
    slot: u16,
    e: ExprV,
    depth: nat,
    stack: Seq<Val>,
    locals: Seq<Val>,
)
    requires
        ready(w, g, locals),
        plain(e),
    ensures
        gen_assign(w.env, g, slot, e, depth) matches Ok(h) ==> slot < 256 && adds(g, h) && (grows(
            h.out,
            w.program,
        ) ==> (val(w, e, locals, depth) matches Some((v, l)) ==> l.len() == 256 && turns(
            w,
            g,
            stack,
            locals,
            h,
            stack,
            l.update(slot as int, v),
        ))),
    decreases depth, 1nat, 0nat,
{
    let p = GenV { callables: g.callables.remove(slot), ..g };
    assert(p.callables =~= Map::<u16, CallableV>::empty());
    lemma_expr(w, p, e, depth, stack, locals);
    match gen_expr(w.env, p, e, depth) {
        Ok(g1) => {
            let given = val(w, e, locals, depth);
            let l1 = left_by(given, locals);
            let v = match given {
                Some((v, _)) => v,
                None => Val::Null,
            };
            lemma_store(w, g1, slot, stack, v, l1);
        },
        Err(_) => {},
    }
}

/// Arguments are put into the slots of parameters.
proof fn lemma_args(
    w: World,
    g: GenV,
    params: Seq<u16>,
    args: Seq<ExprV>,
    i: int,
    depth: nat,
    stack: Seq<Val>,
    locals: Seq<Val>,
)
    requires
        ready(w, g, locals),
        0 <= i <= args.len(),
        forall|k: int| 0 <= k < args.len() ==> plain(#[trigger] args[k]),
    ensures
        gen_args(w.env, g, params, args, i, depth) matches Ok(h) ==> adds(g, h) && (grows(
            h.out,
            w.program,
        ) ==> (with_arguments(w.env, w.host, params, args, i, locals, depth, w.fuel) matches Some(l)
            ==> l.len() == 256 && turns(w, g, stack, locals, h, stack, l))),
    decreases depth, 2nat, args.len() - i,
{
    if i < args.len() {
        lemma_assign(w, g, params[i], args[i], depth, stack, locals);
        match gen_assign(w.env, g, params[i], args[i], depth) {
            Ok(g1) => {
                let l1 = match val(w, args[i], locals, depth) {
                    Some((v, l)) => if l.len() == 256 {
                        l.update(params[i] as int, v)
                    } else {
                        locals
                    },
                    None => locals,
                };
                lemma_args(w, g1, params, args, i + 1, depth, stack, l1);
            },
            Err(_) => {},
        }
    } else {
        lemma_stays(w.program, w.host, behind(g, stack, locals));
    }
}

/// The code of a call leaves the value of the call.
#[verifier::rlimit(60)]
proof fn lemma_call(
    w: World,
    g: GenV,
    index: u16,
    args: Seq<ExprV>,
    depth: nat,
    stack: Seq<Val>,
    locals: Seq<Val>,
)
    requires
        ready(w, g, locals),
        forall|k: int| 0 <= k < args.len() ==> plain(#[trigger] args[k]),
    ensures
        gives(
            w,
            g,
            gen_function_call(w.env, g, index, args, depth),
            stack,
            locals,
            val(w, ExprV::Call(index, args), locals, depth + 1),
        ),
    decreases depth, 4nat, 0nat,
{
    if w.env.types.impls.dom().contains(index) {
        lemma_inline(w, g, index, args, depth, stack, locals);
    } else {
        lemma_list(w, g, args, 0, depth, stack, locals);
        match gen_list(w.env, g, args, 0, depth) {
            Ok(g1) => {
                if args.len() <= 255 {
                    match values_of(w.env, w.host, args, 0, locals, depth, w.fuel) {
                        Some((vs, l)) => {
                            if vs.len() == args.len() {
                                lemma_host_call(
                                    w,
                                    g1,
                                    call_target(w.env, index),
                                    args.len() as u8,
                                    stack,
                                    vs,
                                    l,
                                );
                            }
                        },
                        None => {},
                    }
                }
            },
            Err(_) => {},
        }
    }
}

/// The code of a function in place of its call leaves the value of the call.
#[verifier::rlimit(60)]
proof fn lemma_inline(
    w: World,
    g: GenV,
    index: u16,
    args: Seq<ExprV>,
    depth: nat,
    stack: Seq<Val>,
    locals: Seq<Val>,
)
    requires
        ready(w, g, locals),
        forall|k: int| 0 <= k < args.len() ==> plain(#[trigger] args[k]),
        w.env.types.impls.dom().contains(index),
    ensures
        gives(
            w,
            g,
            gen_inline_call(w.env, g, index, args, depth),
            stack,
            locals,
            call_value(w.env, w.host, index, args, locals, depth, w.fuel),
        ),
    decreases depth, 3nat, 0nat,
{
    let f = w.env.types.impls[index];
    lemma_args(w, g, f.params, args, 0, depth, stack, locals);
    match gen_args(w.env, g, f.params, args, 0, depth) {
        Ok(g1) => {
            let l1 = match with_arguments(w.env, w.host, f.params, args, 0, locals, depth, w.fuel) {
                Some(l) => if l.len() == 256 {
                    l
                } else {
                    locals
                },
                None => locals,
            };
            let a = GenV { inlined: g1.inlined.push(index), ..g1 };
            lemma_stmts(w, a, f.body_stmts, 0, depth, stack, l1);
            match gen_stmts(w.env, a, f.body_stmts, 0, depth) {
                Ok(g2) => {
                    let l2 = match ran_all(w.env, w.host, f.body_stmts, 0, l1, depth, w.fuel) {
                        Some((_, vs, l)) => {
                            assert(vs.len() == 0 ==> stack + vs =~= stack);
                            if l.len() == 256 {
                                l
                            } else {
                                locals
                            }
                        },
                        None => locals,
                    };
                    lemma_expr(w, g2, f.body_expr, depth, stack, l2);
                    match gen_expr(w.env, g2, f.body_expr, depth) {
                        Ok(g3) => {
                            let given = val(w, f.body_expr, l2, depth);
                            let l3 = left_by(given, locals);
                            let s3 = match given {
                                Some((v, _)) => stack.push(v),
                                None => stack,
                            };
                            let b = GenV { inlined: g1.inlined, callables: g.callables, ..g3 };
                            lemma_clear(w, b, descending(function_frame(f)), 0, s3, l3);
                        },
                        Err(_) => {},
                    }
                },
                Err(_) => {},
            }
        },
        Err(_) => {},
    }
}

/// The code of a closure in place of its call leaves the value of the call.
#[verifier::rlimit(60)]
proof fn lemma_closure_call(
    w: World,
    g: GenV,
    c: ClosureV,
    args: Seq<ExprV>,
    depth: nat,
    stack: Seq<Val>,
    locals: Seq<Val>,
)
    requires
        ready(w, g, locals),
        plain(*c.body),
        forall|k: int| 0 <= k < args.len() ==> plain(#[trigger] args[k]),
    ensures
        gives(
            w,
            g,
            gen_closure_call(w.env, g, c, args, depth),
            stack,
            locals,
            val(w, ExprV::ClosureCall(c, args), locals, depth + 1),
        ),
    decreases depth, 3nat, 0nat,
{
    lemma_args(w, g, c.params, args, 0, depth, stack, locals);
    match gen_args(w.env, g, c.params, args, 0, depth) {
        Ok(g1) => {
            let l1 = match with_arguments(w.env, w.host, c.params, args, 0, locals, depth, w.fuel) {
                Some(l) => if l.len() == 256 {
                    l
                } else {
                    locals
                },
                None => locals,
            };
            lemma_expr(w, g1, *c.body, depth, stack, l1);
            match gen_expr(w.env, g1, *c.body, depth) {
                Ok(g2) => {
                    let given = val(w, *c.body, l1, depth);
                    let l2 = left_by(given, locals);
                    let s2 = match given {
                        Some((v, _)) => stack.push(v),
                        None => stack,
                    };
                    let b = GenV { callables: g.callables, ..g2 };
                    lemma_clear(w, b, descending(closure_frame(c)), 0, s2, l2);
                },
                Err(_) => {},
            }
        },
        Err(_) => {},
    }
}

/// The code of a capture puts the captured value where the body reads it.
proof fn lemma_capture(
    w: World,
    g: GenV,
    source: u16,
    slot: u16,
    mode: CaptureBindingMode,
    stack: Seq<Val>,
    locals: Seq<Val>,
)
    requires
        ready(w, g, locals),
    ensures
        bind_capture(w.env, g, source, slot, mode) matches Ok(h) ==> source < 256 && slot < 256
            && adds(g, h) && (grows(h.out, w.program) ==> turns(
            w,
            g,
            stack,
            locals,
            h,
            stack,
            (if w.env.moves && mode == CaptureBindingMode::Move {
                locals.update(source as int, Val::Null)
            } else {
                locals
            }).update(slot as int, locals[source as int]),
        )),
{
    let v = locals[source as int];
    if w.env.moves && mode == CaptureBindingMode::Move {
        if source <= 255 {
            let g1 = g.emit(Instr::Ldloc(source as u8));
            let left = locals.update(source as int, Val::Null);
            assert(g.ldloc(source) == GenR::Ok(g1));
            let g2 = g1.set_type(source, BoundType::Null);
            lemma_store(w, g2, slot, stack, v, left);
            if grows(g1.out, w.program) {
                lemma_emitted(
                    w.program,
                    w.host,
                    g.out,
                    Instr::Ldloc(source as u8),
                    behind(g, stack, locals),
                );
                assert(turns(w, g, stack, locals, g2, stack.push(v), left));
            }
        }
    } else {
        lemma_copy(w, g, source, stack, locals);
        match g.copy_ldloc(source) {
            Ok(g1) => lemma_store(w, g1, slot, stack, v, locals),
            Err(_) => {},
        }
    }
}

/// The code of captures puts the captured values where the body reads them, in order.
proof fn lemma_captures(
    w: World,
    g: GenV,
    owner: CaptureOwner,
    i: int,
    stack: Seq<Val>,
    locals: Seq<Val>,
)
    requires
        ready(w, g, locals),
        0 <= i <= captures_of(owner).len(),
    ensures
        bind_captures_from(w.env, g, owner, i) matches Ok(h) ==> adds(g, h) && with_captures(
            w.env.moves,
            owner,
            locals,
            i,
        ).len() == 256 && (grows(h.out, w.program) ==> turns(
            w,
            g,
            stack,
            locals,
            h,
            stack,
            with_captures(w.env.moves, owner, locals, i),
        )),
    decreases captures_of(owner).len() - i,
{
    let captures = captures_of(owner);
    if i < captures.len() {
        let (source, slot) = captures[i];
        let mode = capture_mode(owner, slot);
        let left = if w.env.moves && mode == CaptureBindingMode::Move {
            locals.update(source as int, Val::Null)
        } else {
            locals
        };
        let l1 = left.update(slot as int, locals[source as int]);
        lemma_capture(w, g, source, slot, mode, stack, locals);
        match bind_capture(w.env, g, source, slot, mode) {
            Ok(g1) => lemma_captures(w, g1, owner, i + 1, stack, l1),
            Err(_) => {},
        }
    } else {
        lemma_stays(w.program, w.host, behind(g, stack, locals));
    }
}

// ---------------------------------------------------------------------------
// Statements.

/// Whether a machine gets from the end of some code to where a statement leaves it: behind the
/// code of the statement, behind the loop around it, or at its next round.
pub open spec fn arrives(
    w: World,
    g: GenV,
    stack: Seq<Val>,
    locals: Seq<Val>,
    h: GenV,
    out: Outcome,
    stack2: Seq<Val>,
    locals2: Seq<Val>,
) -> bool {
    match out {
        Outcome::Next => turns(w, g, stack, locals, h, stack2, locals2),
        Outcome::Break => g.loops.len() > 0 && w.program.labels.dom().contains(g.loops.last().1)
            ==> leads_to(
            w.program,
            w.host,
            behind(g, stack, locals),
            Machine {
                at: w.program.labels[g.loops.last().1] as int,
                stack: stack2,
                locals: locals2,
            },
        ),
        Outcome::Continue => g.loops.len() > 0 && w.program.labels.dom().contains(
            g.loops.last().0,
        ) ==> leads_to(
            w.program,
            w.host,
            behind(g, stack, locals),
            Machine {
                at: w.program.labels[g.loops.last().0] as int,
                stack: stack2,
                locals: locals2,
            },
        ),
    }
}

/// Whether what was generated comes to what statements come to.
pub open spec fn does(
    w: World,
    g: GenV,
    r: GenR,
    stack: Seq<Val>,
    locals: Seq<Val>,
    expected: Ran,
) -> bool {
    r matches Ok(h) ==> adds(g, h) && (grows(h.out, w.program) ==> (expected matches Some(
        (out, vs, l),
    ) ==> l.len() == 256 && arrives(w, g, stack, locals, h, out, stack + vs, l)))
}

/// The code of statements does what they do, in order.
#[verifier::rlimit(40)]
proof fn lemma_stmts(
    w: World,
    g: GenV,
    stmts: Seq<StmtV>,
    i: int,
    depth: nat,
    stack: Seq<Val>,
    locals: Seq<Val>,
)
    requires
        ready(w, g, locals),
        0 <= i <= stmts.len(),
        plain_stmts(stmts),
    ensures
        does(
            w,
            g,
            gen_stmts(w.env, g, stmts, i, depth),
            stack,
            locals,
            ran_all(w.env, w.host, stmts, i, locals, depth, w.fuel),
        ),
    decreases depth, 1nat, stmts.len() - i,
{
    if i < stmts.len() {
        lemma_stmt(w, g, stmts[i], depth, stack, locals);
        match gen_stmt(w.env, g, stmts[i], depth) {
            Ok(g1) => {
                let first = ran(w.env, w.host, stmts[i], locals, depth, w.fuel);
                let l1 = match first {
                    Some((_, _, l)) => if l.len() == 256 {
                        l
                    } else {
                        locals
                    },
                    None => locals,
                };
                let s1 = match first {
                    Some((_, vs, _)) => stack + vs,
                    None => stack,
                };
                lemma_stmts(w, g1, stmts, i + 1, depth, s1, l1);
                match first {
                    Some((_, vs, la)) => match ran_all(
                        w.env,
                        w.host,
                        stmts,
                        i + 1,
                        la,
                        depth,
                        w.fuel,
                    ) {
                        Some((_, ws, _)) => assert((stack + vs) + ws =~= stack + (vs + ws)),
                        None => {},
                    },
                    None => {},
                }
            },
            Err(_) => {},
        }
    } else {
        assert(stack + Seq::<Val>::empty() =~= stack);
        lemma_stays(w.program, w.host, behind(g, stack, locals));
    }
}

/// The code of a branch runs the block that the condition picks.
#[verifier::rlimit(60)]
proof fn lemma_if(
    w: World,
    g: GenV,
    c: ExprV,
    yes: Seq<StmtV>,
    no: Seq<StmtV>,
    line: u32,
    depth: nat,
    stack: Seq<Val>,
    locals: Seq<Val>,
)
    requires
        ready(w, g, locals),
        plain(c),
        plain_stmts(yes),
        plain_stmts(no),
    ensures
        does(
            w,
            g,
            gen_if(w.env, g, c, yes, no, line, depth),
            stack,
            locals,
            match val(w, c, locals, depth) {
                Some((Val::Bool(x), l1)) => if x {
                    ran_all(w.env, w.host, yes, 0, l1, depth, w.fuel)
                } else {
                    ran_all(w.env, w.host, no, 0, l1, depth, w.fuel)
                },
                _ => None,
            },
        ),
    decreases depth, 2nat, 0nat,
{
    let g0 = g.mark(line);
    let on_else = g0.label("else"@);
    let end = g0.taken().label("endif"@);
    let start = g0.taken().taken();
    let first = val(w, c, locals, depth);
    let l1 = left_by(first, locals);
    lemma_expr(w, start, c, depth, stack, locals);
    match gen_expr(w.env, start, c, depth) {
        Ok(g1) => {
            let a = g1.emit(Instr::BrFalse(on_else));
            lemma_stmts(w, a, yes, 0, depth, stack, l1);
            match gen_stmts(w.env, a, yes, 0, depth) {
                Ok(g2) => {
                    let b = g2.emit(Instr::Br(end));
                    lemma_placed(w, b, on_else);
                    match b.place(on_else) {
                        Ok(g3) => {
                            let e = GenV { callables: g.callables, types: g.types, ..g3 };
                            lemma_stmts(w, e, no, 0, depth, stack, l1);
                            match gen_stmts(w.env, e, no, 0, depth) {
                                Ok(g4) => {
                                    lemma_placed(w, g4, end);
                                    match g4.place(end) {
                                        Ok(g5) => {
                                            if grows(g5.out, w.program) {
                                                match first {
                                                    Some((Val::Bool(x), _)) => {
                                                        lemma_jump_if_false(
                                                            w,
                                                            g1,
                                                            on_else,
                                                            stack,
                                                            x,
                                                            l1,
                                                        );
                                                        match ran_all(
                                                            w.env,
                                                            w.host,
                                                            yes,
                                                            0,
                                                            l1,
                                                            depth,
                                                            w.fuel,
                                                        ) {
                                                            Some((_, vs, l2)) => lemma_jump(
                                                                w,
                                                                g2,
                                                                end,
                                                                stack + vs,
                                                                l2,
                                                            ),
                                                            None => {},
                                                        }
                                                    },
                                                    _ => {},
                                                }
                                            }
                                        },
                                        Err(_) => {},
                                    }
                                },
                                Err(_) => {},
                            }
                        },
                        Err(_) => {},
                    }
                },
                Err(_) => {},
            }
        },
        Err(_) => {},
    }
}

/// The rounds of a loop with a condition, from its start to its end.
#[verifier::rlimit(60)]
proof fn lemma_while_rounds(
    w: World,
    g2: GenV,
    c: ExprV,
    g3: GenV,
    body: Seq<StmtV>,
    g4: GenV,
    start: Seq<char>,
    end: Seq<char>,
    depth: nat,
    rounds: nat,
    stack: Seq<Val>,
    locals: Seq<Val>,
)
    requires
        ready(w, g2, locals),
        plain(c),
        plain_stmts(body),
        gen_expr(w.env, g2, c, depth) == GenR::Ok(g3),
        gen_stmts(
            w.env,
            (GenV {
                loops: g3.loops.push((start, end)),
                ..g3.emit(Instr::BrFalse(end))
            }),
            body,
            0,
            depth,
        ) == GenR::Ok(g4),
        grows(g4.out.emit(Instr::Br(start)), w.program),
        w.program.labels.dom().contains(start),
        w.program.labels.dom().contains(end),
        w.program.labels[start] == g2.out.code.len(),
    ensures
        ran_loop(w.env, w.host, c, body, None, locals, depth, w.fuel, rounds) matches Some(
            (out, vs, l),
        ) ==> out is Next && l.len() == 256 && leads_to(
            w.program,
            w.host,
            behind(g2, stack, locals),
            Machine { at: w.program.labels[end] as int, stack: stack + vs, locals: l },
        ),
    decreases depth, 2nat, rounds,
{
    if rounds > 0 {
        let inside = GenV {
            loops: g3.loops.push((start, end)),
            ..g3.emit(Instr::BrFalse(end))
        };
        let first = val(w, c, locals, depth);
        let l1 = left_by(first, locals);
        lemma_expr(w, g2, c, depth, stack, locals);
        lemma_stmts(w, inside, body, 0, depth, stack, l1);
        assert(inside.loops.last() == (start, end));
        assert(grows(g4.out, w.program));
        assert(grows(inside.out, w.program));
        assert(grows(g3.out.emit(Instr::BrFalse(end)), w.program));
        match first {
            Some((Val::Bool(x), _)) => {
                lemma_jump_if_false(w, g3, end, stack, x, l1);
                assert(stack + Seq::<Val>::empty() =~= stack);
                if x {
                    match ran_all(w.env, w.host, body, 0, l1, depth, w.fuel) {
                        Some((out, vs, l2)) => {
                            assert(l2.len() == 256);
                            lemma_jump(w, g4, start, stack + vs, l2);
                            if !(out is Break) {
                                lemma_while_rounds(
                                    w,
                                    g2,
                                    c,
                                    g3,
                                    body,
                                    g4,
                                    start,
                                    end,
                                    depth,
                                    (rounds - 1) as nat,
                                    stack + vs,
                                    l2,
                                );
                                assert(leads_to(
                                    w.program,
                                    w.host,
                                    behind(g2, stack, locals),
                                    behind(g2, stack + vs, l2),
                                ));
                                match ran_loop(
                                    w.env,
                                    w.host,
                                    c,
                                    body,
                                    None,
                                    l2,
                                    depth,
                                    w.fuel,
                                    (rounds - 1) as nat,
                                ) {
                                    Some((_, us, _)) => {
                                        let none = Seq::<Val>::empty();
                                        assert(vs + none + us =~= vs + us);
                                        assert((stack + vs) + us =~= stack + (vs + us));
                                    },
                                    None => {},
                                }
                            }
                        },
                        None => {},
                    }
                }
            },
            _ => {},
        }
    }
}

#[verifier::rlimit(60)]
proof fn lemma_while(
    w: World,
    g: GenV,
    c: ExprV,
    body: Seq<StmtV>,
    line: u32,
    stmt: StmtV,
    depth: nat,
    stack: Seq<Val>,
    locals: Seq<Val>,
)
    requires
        ready(w, g, locals),
        plain(c),
        plain_stmts(body),
    ensures
        does(
            w,
            g,
            gen_while(w.env, g, c, body, line, stmt, depth),
            stack,
            locals,
            ran_loop(w.env, w.host, c, body, None, locals, depth, w.fuel, w.fuel),
        ),
    decreases depth, 3nat, 0nat,
{
    let g0 = g.mark(line);
    let start = g0.label("while_start"@);
    let end = g0.taken().label("while_end"@);
    let p = g0.taken().taken();
    lemma_placed(w, p, start);
    match p.place(start) {
        Ok(g2) => {
            lemma_expr(w, g2, c, depth, stack, locals);
            match gen_expr(w.env, g2, c, depth) {
                Ok(g3) => {
                    let inside = GenV {
                        loops: g3.loops.push((start, end)),
                        ..g3.emit(Instr::BrFalse(end))
                    };
                    lemma_stmts(w, inside, body, 0, depth, stack, locals);
                    match gen_stmts(w.env, inside, body, 0, depth) {
                        Ok(g4) => {
                            let a = GenV { loops: g3.loops, ..g4 };
                            let b = a.emit(Instr::Br(start));
                            lemma_placed(w, b, end);
                            match b.place(end) {
                                Ok(g5) => {
                                    assert(grows(g4.out, b.out));
                                    if grows(g5.out, w.program) {
                                        assert(grows(b.out, w.program));
                                        assert(grows(g2.out, w.program));
                                        lemma_while_rounds(
                                            w,
                                            g2,
                                            c,
                                            g3,
                                            body,
                                            g4,
                                            start,
                                            end,
                                            depth,
                                            w.fuel,
                                            stack,
                                            locals,
                                        );
                                    }
                                },
                                Err(_) => {},
                            }
                        },
                        Err(_) => {},
                    }
                },
                Err(_) => {},
            }
        },
        Err(_) => {},
    }
}

/// The rounds of a counting loop, from its condition to its end.
#[verifier::rlimit(80)]
proof fn lemma_for_rounds(
    w: World,
    g2: GenV,
    c: ExprV,
    g3: GenV,
    body: Seq<StmtV>,
    g4: GenV,
    post: StmtV,
    g5: GenV,
    g6: GenV,
    start: Seq<char>,
    next: Seq<char>,
    end: Seq<char>,
    depth: nat,
    rounds: nat,
    stack: Seq<Val>,
    locals: Seq<Val>,
)
    requires
        ready(w, g2, locals),
        plain(c),
        plain_stmts(body),
        plain_stmt(post),
        gen_expr(w.env, g2, c, depth) == GenR::Ok(g3),
        gen_stmts(
            w.env,
            (GenV { loops: g3.loops.push((next, end)), ..g3.emit(Instr::BrFalse(end)) }),
            body,
            0,
            depth,
        ) == GenR::Ok(g4),
        (GenV { loops: g3.loops, ..g4 }).place(next) == GenR::Ok(g5),
        gen_stmt(w.env, g5, post, depth) == GenR::Ok(g6),
        grows(g6.out.emit(Instr::Br(start)), w.program),
        w.program.labels.dom().contains(start),
        w.program.labels.dom().contains(end),
        w.program.labels[start] == g2.out.code.len(),
    ensures
        ran_loop(w.env, w.host, c, body, Some(post), locals, depth, w.fuel, rounds) matches Some(
            (out, vs, l),
        ) ==> out is Next && l.len() == 256 && leads_to(
            w.program,
            w.host,
            behind(g2, stack, locals),
            Machine { at: w.program.labels[end] as int, stack: stack + vs, locals: l },
        ),
    decreases depth, 2nat, rounds,
{
    if rounds > 0 {
        let inside = GenV { loops: g3.loops.push((next, end)), ..g3.emit(Instr::BrFalse(end)) };
        let first = val(w, c, locals, depth);
        let l1 = left_by(first, locals);
        lemma_expr(w, g2, c, depth, stack, locals);
        lemma_stmts(w, inside, body, 0, depth, stack, l1);
        lemma_placed(w, GenV { loops: g3.loops, ..g4 }, next);
        let ran_body = ran_all(w.env, w.host, body, 0, l1, depth, w.fuel);
        let l2 = match ran_body {
            Some((_, _, l)) => if l.len() == 256 {
                l
            } else {
                locals
            },
            None => locals,
        };
        let s2 = match ran_body {
            Some((_, vs, _)) => stack + vs,
            None => stack,
        };
        lemma_stmt(w, g5, post, depth, s2, l2);
        assert(inside.loops.last() == (next, end));
        assert(grows(g6.out, w.program));
        assert(grows(g5.out, w.program));
        assert(grows(g4.out, w.program));
        assert(grows(inside.out, w.program));
        assert(grows(g3.out.emit(Instr::BrFalse(end)), w.program));
        match first {
            Some((Val::Bool(x), _)) => {
                lemma_jump_if_false(w, g3, end, stack, x, l1);
                assert(stack + Seq::<Val>::empty() =~= stack);
                if x {
                    match ran_body {
                        Some((out, vs, _)) => {
                            if !(out is Break) {
                                assert(leads_to(
                                    w.program,
                                    w.host,
                                    behind(g2, stack, locals),
                                    behind(g5, s2, l2),
                                ));
                                match ran(w.env, w.host, post, l2, depth, w.fuel) {
                                    Some((Outcome::Next, ws, l3)) => {
                                        let s3 = s2 + ws;
                                        lemma_jump(w, g6, start, s3, l3);
                                        assert(leads_to(
                                            w.program,
                                            w.host,
                                            behind(g2, stack, locals),
                                            behind(g2, s3, l3),
                                        ));
                                        lemma_for_rounds(
                                            w,
                                            g2,
                                            c,
                                            g3,
                                            body,
                                            g4,
                                            post,
                                            g5,
                                            g6,
                                            start,
                                            next,
                                            end,
                                            depth,
                                            (rounds - 1) as nat,
                                            s3,
                                            l3,
                                        );
                                        match ran_loop(
                                            w.env,
                                            w.host,
                                            c,
                                            body,
                                            Some(post),
                                            l3,
                                            depth,
                                            w.fuel,
                                            (rounds - 1) as nat,
                                        ) {
                                            Some((_, us, _)) => {
                                                assert(s3 + us =~= stack + (vs + ws + us));
                                            },
                                            None => {},
                                        }
                                    },
                                    _ => {},
                                }
                            }
                        },
                        None => {},
                    }
                }
            },
            _ => {},
        }
    }
}

#[verifier::rlimit(80)]
proof fn lemma_for(
    w: World,
    g: GenV,
    init: StmtV,
    c: ExprV,
    post: StmtV,
    body: Seq<StmtV>,
    line: u32,
    stmt: StmtV,
    depth: nat,
    stack: Seq<Val>,
    locals: Seq<Val>,
)
    requires
        ready(w, g, locals),
        plain_stmt(init),
        plain(c),
        plain_stmt(post),
        plain_stmts(body),
    ensures
        does(
            w,
            g,
            gen_for(w.env, g, init, c, post, body, line, stmt, depth),
            stack,
            locals,
            match ran(w.env, w.host, init, locals, depth, w.fuel) {
                Some((Outcome::Next, vs, l1)) => match ran_loop(
                    w.env,
                    w.host,
                    c,
                    body,
                    Some(post),
                    l1,
                    depth,
                    w.fuel,
                    w.fuel,
                ) {
                    Some((out, ws, l2)) => Some((out, vs + ws, l2)),
                    None => None,
                },
                _ => None,
            },
        ),
    decreases depth, 3nat, 0nat,
{
    let g0 = g.mark(line);
    lemma_stmt(w, g0, init, depth, stack, locals);
    match gen_stmt(w.env, g0, init, depth) {
        Ok(g1) => {
            let started = ran(w.env, w.host, init, locals, depth, w.fuel);
            let l1 = match started {
                Some((_, _, l)) => if l.len() == 256 {
                    l
                } else {
                    locals
                },
                None => locals,
            };
            let s1 = match started {
                Some((_, vs, _)) => stack + vs,
                None => stack,
            };
            let start = g1.label("for_start"@);
            let next = g1.taken().label("for_continue"@);
            let end = g1.taken().taken().label("for_end"@);
            let p = g1.taken().taken().taken();
            lemma_placed(w, p, start);
            match p.place(start) {
                Ok(g2) => {
                    lemma_expr(w, g2, c, depth, s1, l1);
                    match gen_expr(w.env, g2, c, depth) {
                        Ok(g3) => {
                            let inside = GenV {
                                loops: g3.loops.push((next, end)),
                                ..g3.emit(Instr::BrFalse(end))
                            };
                            lemma_stmts(w, inside, body, 0, depth, s1, l1);
                            match gen_stmts(w.env, inside, body, 0, depth) {
                                Ok(g4) => {
                                    let a = GenV { loops: g3.loops, ..g4 };
                                    lemma_placed(w, a, next);
                                    match a.place(next) {
                                        Ok(g5) => {
                                            lemma_stmt(w, g5, post, depth, s1, l1);
                                            match gen_stmt(w.env, g5, post, depth) {
                                                Ok(g6) => {
                                                    let b = g6.emit(Instr::Br(start));
                                                    lemma_placed(w, b, end);
                                                    match b.place(end) {
                                                        Ok(g7) => {
                                                            if grows(g7.out, w.program) {
                                                                assert(grows(b.out, w.program));
                                                                assert(grows(g6.out, w.program));
                                                                assert(grows(g2.out, w.program));
                                                                lemma_for_rounds(
                                                                    w,
                                                                    g2,
                                                                    c,
                                                                    g3,
                                                                    body,
                                                                    g4,
                                                                    post,
                                                                    g5,
                                                                    g6,
                                                                    start,
                                                                    next,
                                                                    end,
                                                                    depth,
                                                                    w.fuel,
                                                                    s1,
                                                                    l1,
                                                                );
                                                                match started {
                                                                    Some((_, vs, _)) => match ran_loop(
                                                                        w.env,
                                                                        w.host,
                                                                        c,
                                                                        body,
                                                                        Some(post),
                                                                        l1,
                                                                        depth,
                                                                        w.fuel,
                                                                        w.fuel,
                                                                    ) {
                                                                        Some((_, ws, _)) => assert((
                                                                        stack + vs) + ws =~= stack
                                                                            + (vs + ws)),
                                                                        None => {},
                                                                    },
                                                                    None => {},
                                                                }
                                                            }
                                                        },
                                                        Err(_) => {},
                                                    }
                                                },
                                                Err(_) => {},
                                            }
                                        },
                                        Err(_) => {},
                                    }
                                },
                                Err(_) => {},
                            }
                        },
                        Err(_) => {},
                    }
                },
                Err(_) => {},
            }
        },
        Err(_) => {},
    }
}

/// The code of a statement does what the statement does.
#[verifier::rlimit(60)]
proof fn lemma_stmt(
    w: World,
    g: GenV,
    s: StmtV,
    depth: nat,
    stack: Seq<Val>,
    locals: Seq<Val>,
)
    requires
        ready(w, g, locals),
        plain_stmt(s),
    ensures
        does(
            w,
            g,
            gen_stmt(w.env, g, s, depth),
            stack,
            locals,
            ran(w.env, w.host, s, locals, depth, w.fuel),
        ),
    decreases depth, 0nat, 0nat,
{
    if depth > 0 {
        let d = (depth - 1) as nat;
        assert(stack + Seq::<Val>::empty() =~= stack);
        match s {
            StmtV::Noop(line) => lemma_stays(w.program, w.host, behind(g, stack, locals)),
            StmtV::Let { index, expr, line } => lemma_assign(
                w,
                g.mark(line),
                index,
                expr,
                d,
                stack,
                locals,
            ),
            StmtV::Assign { index, expr, line } => lemma_assign(
                w,
                g.mark(line),
                index,
                expr,
                d,
                stack,
                locals,
            ),
            StmtV::Drop { index, line } => lemma_assign(
                w,
                g.mark(line),
                index,
                ExprV::Null,
                d,
                stack,
                locals,
            ),
            StmtV::Expr { expr, line } => {
                lemma_expr(w, g.mark(line), expr, d, stack, locals);
                match val(w, expr, locals, d) {
                    Some((v, _)) => assert(stack + seq![v] =~= stack.push(v)),
                    None => {},
                }
            },
            StmtV::IfElse { condition, then_branch, else_branch, line } => lemma_if(
                w,
                g,
                condition,
                then_branch,
                else_branch,
                line,
                d,
                stack,
                locals,
            ),
            StmtV::While { condition, body, line } => lemma_while(
                w,
                g,
                condition,
                body,
                line,
                s,
                d,
                stack,
                locals,
            ),
            StmtV::For { init, condition, post, body, line } => lemma_for(
                w,
                g,
                *init,
                condition,
                *post,
                body,
                line,
                s,
                d,
                stack,
                locals,
            ),
            StmtV::Break(line) => {
                if g.loops.len() > 0 {
                    lemma_jump(w, g.mark(line), g.loops.last().1, stack, locals);
                }
            },
            StmtV::Continue(line) => {
                if g.loops.len() > 0 {
                    lemma_jump(w, g.mark(line), g.loops.last().0, stack, locals);
                }
            },
            StmtV::ClosureLet { line, closure } => lemma_captures(
                w,
                g.mark(line),
                CaptureOwner::Closure(closure),
                0,
                stack,
                locals,
            ),
            StmtV::FuncDecl { index, line, .. } => {
                if w.env.types.impls.dom().contains(index) {
                    lemma_captures(
                        w,
                        g.mark(line),
                        CaptureOwner::Function(w.env.types.impls[index]),
                        0,
                        stack,
                        locals,
                    );
                } else {
                    lemma_stays(w.program, w.host, behind(g, stack, locals));
                }
            },
        }
    }
}

// ---------------------------------------------------------------------------
// What the compiler is for.

/// The code of an expression leaves the value of the expression on the stack, above what was
/// there, and the locals as the expression leaves them: whatever program goes on from the code,
/// and whatever is on the stack.
pub proof fn law_code_leaves_the_value_of_its_expression(
    w: World,
    g: GenV,
    e: ExprV,
    depth: nat,
    stack: Seq<Val>,
    locals: Seq<Val>,
)
    requires
        w.wf(),
        plain(e),
        g.callables == Map::<u16, CallableV>::empty(),
        locals.len() == 256,
    ensures
        gen_expr(w.env, g, e, depth) matches Ok(h) ==> (grows(h.out, w.program) ==> (value_of(
            w.env,
            w.host,
            e,
            locals,
            depth,
            w.fuel,
        ) matches Some((v, l)) ==> leads_to(
            w.program,
            w.host,
            Machine { at: g.out.code.len() as int, stack, locals },
            Machine { at: h.out.code.len() as int, stack: stack.push(v), locals: l },
        ))),
{
    lemma_expr(w, g, e, depth, stack, locals);
}

/// The code of a program does what its statements do: started with an empty stack, it ends
/// behind its last instruction with the values of the expressions that stand as statements, in
/// order, and the locals as the statements leave them.
pub proof fn law_programs_do_what_their_statements_do(
    w: World,
    stmts: Seq<StmtV>,
    depth: nat,
    locals: Seq<Val>,
)
    requires
        w.wf(),
        plain_stmts(stmts),
        locals.len() == 256,
    ensures
        gen_stmts(w.env, GenV::initial(), stmts, 0, depth) matches Ok(h) ==> (grows(
            h.out,
            w.program,
        ) ==> (ran_all(w.env, w.host, stmts, 0, locals, depth, w.fuel) matches Some((out, vs, l))
            ==> (out is Next ==> leads_to(
            w.program,
            w.host,
            Machine { at: 0, stack: Seq::empty(), locals },
            Machine { at: h.out.code.len() as int, stack: vs, locals: l },
        )))),
{
    let g = GenV::initial();
    lemma_stmts(w, g, stmts, 0, depth, Seq::empty(), locals);
    match ran_all(w.env, w.host, stmts, 0, locals, depth, w.fuel) {
        Some((_, vs, _)) => assert(Seq::<Val>::empty() + vs =~= vs),
        None => {},
    }
}

/// Whether two instructions do the same, one by its label and one by the place of the label.
pub open spec fn does_the_same(
    i: InstrV,
    j: Instr<ValueV, usize>,
    labels: Map<Seq<char>, usize>,
) -> bool {
    match (i, j) {
        (Instr::Const(a), Instr::Const(b)) => a == b,
        (Instr::Ldloc(a), Instr::Ldloc(b)) => a == b,
        (Instr::Stloc(a), Instr::Stloc(b)) => a == b,
        (Instr::Call(a, m), Instr::Call(b, n)) => a == b && m == n,
        (Instr::Br(l), Instr::Br(at)) => labels[l] == at,
        (Instr::BrFalse(l), Instr::BrFalse(at)) => labels[l] == at,
        (Instr::Dup, Instr::Dup) => true,
        (Instr::Add, Instr::Add) => true,
        (Instr::Sub, Instr::Sub) => true,
        (Instr::Mul, Instr::Mul) => true,
        (Instr::Div, Instr::Div) => true,
        (Instr::Mod, Instr::Mod) => true,
        (Instr::Neg, Instr::Neg) => true,
        (Instr::Not, Instr::Not) => true,
        (Instr::Shl, Instr::Shl) => true,
        (Instr::Ceq, Instr::Ceq) => true,
        (Instr::Clt, Instr::Clt) => true,
        (Instr::Cgt, Instr::Cgt) => true,
        (Instr::Ret, Instr::Ret) => true,
        _ => false,
    }
}

/// A compiled program is the code of its statements, instruction by instruction, and a return at
/// its end.
pub proof fn law_compiled_programs_are_their_code(env: GenEnvV, stmts: Seq<StmtV>, p: ProgramV)
    requires
        compiled(env, stmts) == Ok::<ProgramV, CompileErrorV>(p),
    ensures
        gen_stmts(env, GenV::initial(), stmts, 0, MAX_DEPTH as nat) matches Ok(g) && p.code.len()
            == g.out.code.len() + 1 && p.code.last() is Ret && (forall|k: int|
            0 <= k < g.out.code.len() ==> does_the_same(
                g.out.code[k],
                #[trigger] p.code[k],
                g.out.labels,
            )) && p.lines == g.out.lines && p.operand_types == g.operands,
{
    match gen_stmts(env, GenV::initial(), stmts, 0, MAX_DEPTH as nat) {
        Ok(g) => {
            let end = g.emit(Instr::Ret);
            law_resolving_keeps_code(end.out.code, end.out.labels, 0);
            assert forall|k: int| 0 <= k < g.out.code.len() implies does_the_same(
                g.out.code[k],
                #[trigger] p.code[k],
                g.out.labels,
            ) by {
                assert(p.code[k] == placed(end.out.code[0 + k], end.out.labels));
                assert(end.out.code[k] == g.out.code[k]);
            }
            let n = g.out.code.len() as int;
            assert(p.code[n] == placed(end.out.code[0 + n], end.out.labels));
        },
        Err(_) => {},
    }
}

} // verus!
