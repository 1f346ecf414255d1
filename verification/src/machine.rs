//! What programs do: the values of expressions and the effects of statements, and a stack
//! machine that runs instructions one by one.

use vstd::prelude::*;
use crate::assembler::{grows, AsmV, Instr, InstrV, ValueV};
use crate::builtins::{builtin_at, builtin_index, BuiltinFunction};
use crate::captures::CaptureBindingMode;
use crate::consts::surely_string;
use crate::generation::{capture_mode, captures_of, CaptureOwner, GenEnvV};
use crate::ir::{BinOp, ExprV, MatchTypePattern, PatternV, StmtV};
use crate::slots::{closure_frame, descending, function_frame};
use crate::values::{computed, computed_unary, integer_text, kind_name, Val};

verus! {

// ---------------------------------------------------------------------------
// The machine.

/// What the functions of the host and the built-in ones give: by their index and their
/// arguments.
pub type Host = spec_fn(u16, Seq<Val>) -> Option<Val>;

/// The number of locals of a machine.
pub open spec fn local_count() -> nat {
    256
}

/// A constant as a value.
pub open spec fn constant(v: ValueV) -> Val {
    match v {
        ValueV::Null => Val::Null,
        ValueV::Int(n) => Val::Int(n as int),
        ValueV::Float(t) => Val::Float(t),
        ValueV::Bool(x) => Val::Bool(x),
        ValueV::Str(t) => Val::Str(t),
    }
}

/// A power of two.
pub open spec fn doubled(n: nat) -> int
    decreases n,
{
    if n == 0 {
        1
    } else {
        doubled((n - 1) as nat) * 2
    }
}

/// A machine: the position of its next instruction, its stack and its locals.
pub struct Machine {
    pub at: int,
    pub stack: Seq<Val>,
    pub locals: Seq<Val>,
}

impl Machine {
    /// The machine behind an instruction that leaves a stack.
    pub open spec fn next(self, stack: Seq<Val>) -> Option<Machine> {
        Some(Machine { at: self.at + 1, stack, ..self })
    }

    /// The machine once two values made way for another.
    pub open spec fn binary(self, op: BinOp) -> Option<Machine> {
        let n = self.stack.len() as int;
        if n < 2 {
            None
        } else {
            match computed(op, self.stack[n - 2], self.stack[n - 1]) {
                Some(v) => self.next(self.stack.take(n - 2).push(v)),
                None => None,
            }
        }
    }
}

/// What an instruction does, with labels at positions. A local that is loaded is moved out: it
/// is null until something is stored in it.
pub open spec fn effect(
    labels: Map<Seq<char>, usize>,
    host: Host,
    i: InstrV,
    m: Machine,
) -> Option<Machine> {
    let n = m.stack.len() as int;
    match i {
        Instr::Const(v) => m.next(m.stack.push(constant(v))),
        Instr::Ldloc(s) => if s < m.locals.len() {
            Some(
                Machine {
                    at: m.at + 1,
                    stack: m.stack.push(m.locals[s as int]),
                    locals: m.locals.update(s as int, Val::Null),
                },
            )
        } else {
            None
        },
        Instr::Stloc(s) => if n > 0 && s < m.locals.len() {
            Some(
                Machine {
                    at: m.at + 1,
                    stack: m.stack.drop_last(),
                    locals: m.locals.update(s as int, m.stack.last()),
                },
            )
        } else {
            None
        },
        Instr::Dup => if n > 0 {
            m.next(m.stack.push(m.stack.last()))
        } else {
            None
        },
        Instr::Call(index, argc) => if n >= argc {
            match host(index, m.stack.skip(n - argc)) {
                Some(v) => m.next(m.stack.take(n - argc).push(v)),
                None => None,
            }
        } else {
            None
        },
        Instr::Add => m.binary(BinOp::Add),
        Instr::Sub => m.binary(BinOp::Sub),
        Instr::Mul => m.binary(BinOp::Mul),
        Instr::Div => m.binary(BinOp::Div),
        Instr::Mod => m.binary(BinOp::Mod),
        Instr::Ceq => m.binary(BinOp::Eq),
        Instr::Clt => m.binary(BinOp::Lt),
        Instr::Cgt => m.binary(BinOp::Gt),
        Instr::Neg => if n > 0 && m.stack.last() is Int {
            m.next(m.stack.drop_last().push(Val::Int(-m.stack.last()->Int_0)))
        } else {
            None
        },
        Instr::Not => if n > 0 && m.stack.last() is Bool {
            m.next(m.stack.drop_last().push(Val::Bool(!m.stack.last()->Bool_0)))
        } else {
            None
        },
        Instr::Shl => if n > 1 && m.stack[n - 2] is Int && m.stack[n - 1] is Int
            && m.stack[n - 1]->Int_0 >= 0 {
            m.next(
                m.stack.take(n - 2).push(
                    Val::Int(
                        m.stack[n - 2]->Int_0 * doubled(m.stack[n - 1]->Int_0 as nat),
                    ),
                ),
            )
        } else {
            None
        },
        Instr::Br(l) => if labels.dom().contains(l) {
            Some(Machine { at: labels[l] as int, ..m })
        } else {
            None
        },
        Instr::BrFalse(l) => if n > 0 && m.stack.last() is Bool && labels.dom().contains(l) {
            Some(
                Machine {
                    at: if m.stack.last()->Bool_0 {
                        m.at + 1
                    } else {
                        labels[l] as int
                    },
                    stack: m.stack.drop_last(),
                    ..m
                },
            )
        } else {
            None
        },
        Instr::Ret => None,
    }
}

/// The machine after one instruction of a program.
pub open spec fn step(program: AsmV, host: Host, m: Machine) -> Option<Machine> {
    if 0 <= m.at < program.code.len() {
        effect(program.labels, host, program.code[m.at], m)
    } else {
        None
    }
}

/// The machine after a number of instructions.
pub open spec fn run(program: AsmV, host: Host, m: Machine, n: nat) -> Option<Machine>
    decreases n,
{
    if n == 0 {
        Some(m)
    } else {
        match step(program, host, m) {
            Some(next) => run(program, host, next, (n - 1) as nat),
            None => None,
        }
    }
}

/// Whether a program takes a machine to another state.
#[verifier::opaque]
pub open spec fn leads_to(program: AsmV, host: Host, from: Machine, to: Machine) -> bool {
    exists|n: nat| #[trigger] run(program, host, from, n) == Some(to)
}

proof fn lemma_run_on(program: AsmV, host: Host, a: Machine, b: Machine, n: nat, k: nat)
    requires
        run(program, host, a, n) == Some(b),
    ensures
        run(program, host, a, n + k) == run(program, host, b, k),
    decreases n,
{
    if n > 0 {
        let next = step(program, host, a)->0;
        lemma_run_on(program, host, next, b, (n - 1) as nat, k);
    }
}

pub broadcast proof fn lemma_led_on(
    program: AsmV,
    host: Host,
    a: Machine,
    b: Machine,
    c: Machine,
)
    requires
        #[trigger] leads_to(program, host, a, b),
        #[trigger] leads_to(program, host, b, c),
    ensures
        leads_to(program, host, a, c),
{
    reveal(leads_to);
    let n = choose|n: nat| #[trigger] run(program, host, a, n) == Some(b);
    let k = choose|k: nat| #[trigger] run(program, host, b, k) == Some(c);
    lemma_run_on(program, host, a, b, n, k);
    assert(run(program, host, a, n + k) == Some(c));
}

pub proof fn lemma_stays(program: AsmV, host: Host, a: Machine)
    ensures
        leads_to(program, host, a, a),
{
    reveal(leads_to);
    assert(run(program, host, a, 0) == Some(a));
}

/// An instruction that was emitted does in a program that goes on from there what it does.
pub proof fn lemma_emitted(program: AsmV, host: Host, out: AsmV, i: InstrV, m: Machine)
    requires
        grows(out.emit(i), program),
        m.at == out.code.len(),
    ensures
        effect(program.labels, host, i, m) matches Some(to) ==> leads_to(program, host, m, to),
{
    reveal(grows);
    reveal(leads_to);
    let code = out.code.push(i);
    assert(code[m.at] == i);
    assert(program.code[m.at] == i);
    match effect(program.labels, host, i, m) {
        Some(to) => {
            assert(run(program, host, to, 0) == Some(to));
            assert(run(program, host, m, 1) == Some(to));
        },
        None => {},
    }
}

/// A label that was placed stands in a program that goes on from there where it was placed.
pub proof fn lemma_label_stands(program: AsmV, out: AsmV, l: Seq<char>)
    requires
        out.label(l) is Ok,
        grows(out.label(l)->Ok_0, program),
        program.code.len() <= usize::MAX,
    ensures
        program.labels.dom().contains(l),
        program.labels[l] == out.code.len(),
{
    reveal(grows);
    let after = out.label(l)->Ok_0;
    assert(after.labels.dom().contains(l));
    assert(after.labels[l] == out.position());
    assert(program.labels.dom().contains(l));
    assert(after.code.len() <= program.code.len());
}

// ---------------------------------------------------------------------------
// The values of expressions.

/// The text of a value that is joined to a text.
pub open spec fn joined_text(v: Val) -> Option<Seq<char>> {
    match v {
        Val::Str(t) => Some(t),
        Val::Int(n) => Some(integer_text(n)),
        _ => None,
    }
}

/// Whether a value has a pattern.
pub open spec fn fits(p: PatternV, v: Val) -> Option<bool> {
    match p {
        PatternV::Int(n) => match computed(BinOp::Eq, v, Val::Int(n as int)) {
            Some(Val::Bool(x)) => Some(x),
            _ => None,
        },
        PatternV::Str(t) => match computed(BinOp::Eq, v, Val::Str(t)) {
            Some(Val::Bool(x)) => Some(x),
            _ => None,
        },
        PatternV::Null => match computed(BinOp::Eq, v, Val::Null) {
            Some(Val::Bool(x)) => Some(x),
            _ => None,
        },
        PatternV::Type(t) => Some(
            match t {
                MatchTypePattern::Int => v is Int,
                MatchTypePattern::Float => v is Float,
                MatchTypePattern::Bool => v is Bool,
                MatchTypePattern::String => v is Str,
                MatchTypePattern::Array => v is Array,
                MatchTypePattern::Mapping => v is Table,
                MatchTypePattern::Number => v is Int || v is Float,
            },
        ),
    }
}

/// How a statement ends.
pub enum Outcome {
    Next,
    Break,
    Continue,
}

/// What a statement comes to: how it ends, the values of its expressions, and the locals.
pub type Ran = Option<(Outcome, Seq<Val>, Seq<Val>)>;

/// What an expression comes to: its value, and the locals.
pub type Given = Option<(Val, Seq<Val>)>;

/// The function that a call outside the program goes to.
pub open spec fn call_target(env: GenEnvV, index: u16) -> u16 {
    if builtin_at(index) is None && env.remap.dom().contains(index) {
        env.remap[index]
    } else {
        index
    }
}

/// Locals with some of them emptied, from position `i` of a list on.
pub open spec fn emptied(locals: Seq<Val>, slots: Seq<u16>, i: int) -> Seq<Val>
    decreases slots.len() - i,
{
    if i < 0 || i >= slots.len() {
        locals
    } else {
        emptied(locals.update(slots[i] as int, Val::Null), slots, i + 1)
    }
}

/// The value of an expression. The number `depth` bounds the nesting, `fuel` the rounds of a
/// loop: beyond them nothing is said.
pub open spec fn value_of(
    env: GenEnvV,
    host: Host,
    e: ExprV,
    locals: Seq<Val>,
    depth: nat,
    fuel: nat,
) -> Given
    decreases depth, 0nat, 0nat,
{
    if depth == 0 {
        None
    } else {
        let d = (depth - 1) as nat;
        match e {
            ExprV::Null => Some((Val::Null, locals)),
            ExprV::Int(n) => Some((Val::Int(n as int), locals)),
            ExprV::Float(t) => Some((Val::Float(t), locals)),
            ExprV::Bool(x) => Some((Val::Bool(x), locals)),
            ExprV::Str(t) => Some((Val::Str(t), locals)),
            ExprV::Var(s) => Some((locals[s as int], locals)),
            ExprV::MoveVar(s) => Some((locals[s as int], locals.update(s as int, Val::Null))),
            ExprV::Unary(op, x) => match value_of(env, host, *x, locals, d, fuel) {
                Some((v, l1)) => match computed_unary(op, v) {
                    Some(r) => Some((r, l1)),
                    None => None,
                },
                None => None,
            },
            ExprV::Binary(op, l, r) => match value_of(env, host, *l, locals, d, fuel) {
                Some((a, l1)) => if op is And && a == Val::Bool(false) {
                    Some((Val::Bool(false), l1))
                } else if op is Or && a == Val::Bool(true) {
                    Some((Val::Bool(true), l1))
                } else {
                    match value_of(env, host, *r, l1, d, fuel) {
                        Some((b, l2)) => {
                            let v = if op is Add && (surely_string(*l) || surely_string(*r)) {
                                match (joined_text(a), joined_text(b)) {
                                    (Some(x), Some(y)) => Some(Val::Str(x + y)),
                                    _ => None,
                                }
                            } else {
                                computed(op, a, b)
                            };
                            match v {
                                Some(v) => Some((v, l2)),
                                None => None,
                            }
                        },
                        None => None,
                    }
                },
                None => None,
            },
            ExprV::IfElse(c, t, f) => match value_of(env, host, *c, locals, d, fuel) {
                Some((Val::Bool(x), l1)) => if x {
                    value_of(env, host, *t, l1, d, fuel)
                } else {
                    value_of(env, host, *f, l1, d, fuel)
                },
                _ => None,
            },
            ExprV::Match { value_slot, result_slot, value, arms, default } => match value_of(
                env,
                host,
                *value,
                locals,
                d,
                fuel,
            ) {
                Some((v, l1)) => match arm_value(
                    env,
                    host,
                    arms,
                    0,
                    *default,
                    v,
                    l1.update(value_slot as int, v),
                    d,
                    fuel,
                ) {
                    Some((r, l2)) => Some((r, l2.update(result_slot as int, r))),
                    None => None,
                },
                None => None,
            },
            ExprV::Block(stmts, x) => match ran_all(env, host, stmts, 0, locals, d, fuel) {
                Some((Outcome::Next, values, l1)) => if values.len() == 0 {
                    value_of(env, host, *x, l1, d, fuel)
                } else {
                    None
                },
                _ => None,
            },
            ExprV::Call(index, args) => if env.types.impls.dom().contains(index) {
                call_value(env, host, index, args, locals, d, fuel)
            } else {
                match values_of(env, host, args, 0, locals, d, fuel) {
                    Some((vs, l1)) => match host(call_target(env, index), vs) {
                        Some(v) => Some((v, l1)),
                        None => None,
                    },
                    None => None,
                }
            },
            ExprV::ClosureCall(c, args) => match with_arguments(
                env,
                host,
                c.params,
                args,
                0,
                locals,
                d,
                fuel,
            ) {
                Some(l1) => match value_of(env, host, *c.body, l1, d, fuel) {
                    Some((v, l2)) => Some((v, emptied(l2, descending(closure_frame(c)), 0))),
                    None => None,
                },
                None => None,
            },
            _ => None,
        }
    }
}

/// The values of expressions in order, from position `i` on.
pub open spec fn values_of(
    env: GenEnvV,
    host: Host,
    list: Seq<ExprV>,
    i: int,
    locals: Seq<Val>,
    depth: nat,
    fuel: nat,
) -> Option<(Seq<Val>, Seq<Val>)>
    decreases depth, 1nat, list.len() - i,
{
    if i < 0 || i >= list.len() {
        Some((Seq::empty(), locals))
    } else {
        match value_of(env, host, list[i], locals, depth, fuel) {
            Some((v, l1)) => match values_of(env, host, list, i + 1, l1, depth, fuel) {
                Some((vs, l2)) => Some((seq![v] + vs, l2)),
                None => None,
            },
            None => None,
        }
    }
}

/// The value of the first arm from `i` on whose pattern a value has, else of the default.
pub open spec fn arm_value(
    env: GenEnvV,
    host: Host,
    arms: Seq<(PatternV, ExprV)>,
    i: int,
    default: ExprV,
    v: Val,
    locals: Seq<Val>,
    depth: nat,
    fuel: nat,
) -> Given
    decreases depth, 1nat, arms.len() - i,
{
    if i < 0 || i >= arms.len() {
        value_of(env, host, default, locals, depth, fuel)
    } else {
        match fits(arms[i].0, v) {
            Some(true) => value_of(env, host, arms[i].1, locals, depth, fuel),
            Some(false) => arm_value(env, host, arms, i + 1, default, v, locals, depth, fuel),
            None => None,
        }
    }
}

/// Locals with arguments in the slots of parameters, from position `i` on.
pub open spec fn with_arguments(
    env: GenEnvV,
    host: Host,
    params: Seq<u16>,
    args: Seq<ExprV>,
    i: int,
    locals: Seq<Val>,
    depth: nat,
    fuel: nat,
) -> Option<Seq<Val>>
    decreases depth, 1nat, args.len() - i,
{
    if i < 0 || i >= args.len() {
        Some(locals)
    } else {
        match value_of(env, host, args[i], locals, depth, fuel) {
            Some((v, l1)) => with_arguments(
                env,
                host,
                params,
                args,
                i + 1,
                l1.update(params[i] as int, v),
                depth,
                fuel,
            ),
            None => None,
        }
    }
}

/// Locals with what a body captured in the slots that it reads it from, from position `i` on.
/// What it moves is gone from where it was.
pub open spec fn with_captures(moves: bool, owner: CaptureOwner, locals: Seq<Val>, i: int) -> Seq<
    Val,
>
    decreases captures_of(owner).len() - i,
{
    let captures = captures_of(owner);
    if i < 0 || i >= captures.len() {
        locals
    } else {
        let (from, to) = captures[i];
        let left = if moves && capture_mode(owner, to) == CaptureBindingMode::Move {
            locals.update(from as int, Val::Null)
        } else {
            locals
        };
        with_captures(moves, owner, left.update(to as int, locals[from as int]), i + 1)
    }
}

/// The value of a call of a function of the program: its parameters hold the arguments, its
/// body runs, and the locals that it used are empty after it.
pub open spec fn call_value(
    env: GenEnvV,
    host: Host,
    index: u16,
    args: Seq<ExprV>,
    locals: Seq<Val>,
    depth: nat,
    fuel: nat,
) -> Given
    decreases depth, 3nat, 0nat,
{
    let f = env.types.impls[index];
    match with_arguments(env, host, f.params, args, 0, locals, depth, fuel) {
        Some(l1) => match ran_all(env, host, f.body_stmts, 0, l1, depth, fuel) {
            Some((Outcome::Next, values, l2)) => if values.len() == 0 {
                match value_of(env, host, f.body_expr, l2, depth, fuel) {
                    Some((v, l3)) => Some((v, emptied(l3, descending(function_frame(f)), 0))),
                    None => None,
                }
            } else {
                None
            },
            _ => None,
        },
        None => None,
    }
}

/// Runs statements in order, from position `i` on.
pub open spec fn ran_all(
    env: GenEnvV,
    host: Host,
    stmts: Seq<StmtV>,
    i: int,
    locals: Seq<Val>,
    depth: nat,
    fuel: nat,
) -> Ran
    decreases depth, 1nat, stmts.len() - i,
{
    if i < 0 || i >= stmts.len() {
        Some((Outcome::Next, Seq::empty(), locals))
    } else {
        match ran(env, host, stmts[i], locals, depth, fuel) {
            Some((Outcome::Next, vs, l1)) => match ran_all(
                env,
                host,
                stmts,
                i + 1,
                l1,
                depth,
                fuel,
            ) {
                Some((out, ws, l2)) => Some((out, vs + ws, l2)),
                None => None,
            },
            Some(other) => Some(other),
            None => None,
        }
    }
}

/// Runs a loop: as long as its condition holds, the body and then the step at its end.
pub open spec fn ran_loop(
    env: GenEnvV,
    host: Host,
    condition: ExprV,
    body: Seq<StmtV>,
    post: Option<StmtV>,
    locals: Seq<Val>,
    depth: nat,
    fuel: nat,
    rounds: nat,
) -> Ran
    decreases depth, 2nat, rounds,
{
    if rounds == 0 {
        None
    } else {
        match value_of(env, host, condition, locals, depth, fuel) {
            Some((Val::Bool(x), l1)) => if !x {
                Some((Outcome::Next, Seq::empty(), l1))
            } else {
                match ran_all(env, host, body, 0, l1, depth, fuel) {
                    Some((Outcome::Break, vs, l2)) => Some((Outcome::Next, vs, l2)),
                    Some((_, vs, l2)) => {
                        let after: Ran = match post {
                            Some(p) => ran(env, host, p, l2, depth, fuel),
                            None => Some((Outcome::Next, Seq::empty(), l2)),
                        };
                        match after {
                            Some((Outcome::Next, ws, l3)) => match ran_loop(
                                env,
                                host,
                                condition,
                                body,
                                post,
                                l3,
                                depth,
                                fuel,
                                (rounds - 1) as nat,
                            ) {
                                Some((out, us, l4)) => Some((out, vs + ws + us, l4)),
                                None => None,
                            },
                            _ => None,
                        }
                    },
                    None => None,
                }
            },
            _ => None,
        }
    }
}

/// Runs a statement.
pub open spec fn ran(
    env: GenEnvV,
    host: Host,
    stmt: StmtV,
    locals: Seq<Val>,
    depth: nat,
    fuel: nat,
) -> Ran
    decreases depth, 0nat, 0nat,
{
    if depth == 0 {
        None
    } else {
        let d = (depth - 1) as nat;
        match stmt {
            StmtV::Noop(_) => Some((Outcome::Next, Seq::empty(), locals)),
            StmtV::Let { index, expr, .. } | StmtV::Assign { index, expr, .. } => match value_of(
                env,
                host,
                expr,
                locals,
                d,
                fuel,
            ) {
                Some((v, l1)) => Some(
                    (Outcome::Next, Seq::empty(), l1.update(index as int, v)),
                ),
                None => None,
            },
            StmtV::Drop { index, .. } => Some(
                (Outcome::Next, Seq::empty(), locals.update(index as int, Val::Null)),
            ),
            StmtV::Expr { expr, .. } => match value_of(env, host, expr, locals, d, fuel) {
                Some((v, l1)) => Some((Outcome::Next, seq![v], l1)),
                None => None,
            },
            StmtV::IfElse { condition, then_branch, else_branch, .. } => match value_of(
                env,
                host,
                condition,
                locals,
                d,
                fuel,
            ) {
                Some((Val::Bool(x), l1)) => if x {
                    ran_all(env, host, then_branch, 0, l1, d, fuel)
                } else {
                    ran_all(env, host, else_branch, 0, l1, d, fuel)
                },
                _ => None,
            },
            StmtV::While { condition, body, .. } => ran_loop(
                env,
                host,
                condition,
                body,
                None,
                locals,
                d,
                fuel,
                fuel,
            ),
            StmtV::For { init, condition, post, body, .. } => match ran(
                env,
                host,
                *init,
                locals,
                d,
                fuel,
            ) {
                Some((Outcome::Next, vs, l1)) => match ran_loop(
                    env,
                    host,
                    condition,
                    body,
                    Some(*post),
                    l1,
                    d,
                    fuel,
                    fuel,
                ) {
                    Some((out, ws, l2)) => Some((out, vs + ws, l2)),
                    None => None,
                },
                _ => None,
            },
            StmtV::Break(_) => Some((Outcome::Break, Seq::empty(), locals)),
            StmtV::Continue(_) => Some((Outcome::Continue, Seq::empty(), locals)),
            StmtV::ClosureLet { closure, .. } => Some(
                (
                    Outcome::Next,
                    Seq::empty(),
                    with_captures(env.moves, CaptureOwner::Closure(closure), locals, 0),
                ),
            ),
            StmtV::FuncDecl { index, .. } => Some(
                (
                    Outcome::Next,
                    Seq::empty(),
                    if env.types.impls.dom().contains(index) {
                        with_captures(
                            env.moves,
                            CaptureOwner::Function(env.types.impls[index]),
                            locals,
                            0,
                        )
                    } else {
                        locals
                    },
                ),
            ),
        }
    }
}

/// What the generated code relies on: that the host tells types by their names and writes
/// integers in decimal.
pub open spec fn is_honest(host: Host) -> bool {
    &&& forall|v: Val| #[trigger]
        host(builtin_index(BuiltinFunction::TypeOf), seq![v]) == Some(Val::Str(kind_name(v)))
    &&& forall|n: int| #[trigger]
        host(builtin_index(BuiltinFunction::ToString), seq![Val::Int(n)]) == Some(
            Val::Str(integer_text(n)),
        )
}

} // verus!
