//! The model of code generation: which instructions a tree becomes.

use vstd::prelude::*;
use crate::assembler::{AsmV, Instr, InstrV, ValueV};
use crate::builtins::{builtin_at, builtin_index, BuiltinFunction};
use crate::captures::{closure_capture_mode, function_capture_mode, CaptureBindingMode};
use crate::consts::{const_int, int_text, power_of_two, surely_string};
use crate::errors::CompileErrorV;
use crate::infer::{apply, infer, TypeEnvV, TypeNotes};
use crate::ir::{
    BinOp, ClosureV, ExprV, FunctionImplV, LocalSlot, MatchTypePattern, PatternV, StmtV, UnOp,
    ValueType,
};
use crate::labels::{goes_on_from, label_name, law_labels_differ, used_up};
use crate::slots::{closure_frame, descending, function_frame, law_descending};
use crate::text::decimal;
use crate::types::{value_type_of, BoundType, CallableV, TypesV};

verus! {

/// How deep inference and code generation follow calls into bodies.
pub const MAX_DEPTH: u64 = 0xFFFF_FFFF_FFFF_FFFF;

/// What code generation knows of the program as a whole.
pub struct GenEnvV {
    pub types: TypeEnvV,
    pub remap: Map<u16, u16>,
    pub moves: bool,
}

/// The state of code generation.
pub struct GenV {
    pub out: AsmV,
    pub next_label: nat,
    pub loops: Seq<(Seq<char>, Seq<char>)>,
    pub inlined: Seq<u16>,
    pub callables: Map<u16, CallableV>,
    pub types: TypesV,
    pub operands: Seq<(usize, (ValueType, ValueType))>,
}

/// The state after a step, or the error that it ended with and the state that it left.
pub type GenR = Result<GenV, (CompileErrorV, GenV)>;

/// The type that inference finds for an expression.
#[verifier::opaque]
pub open spec fn type_of(env: TypeEnvV, types: TypesV, e: ExprV) -> BoundType {
    infer(env, TypeNotes::empty(), e, types, MAX_DEPTH as nat).0
}

/// The types that inference finds after a statement.
#[verifier::opaque]
pub open spec fn types_after(env: TypeEnvV, types: TypesV, stmt: StmtV) -> TypesV {
    apply(env, TypeNotes::empty(), stmt, types, MAX_DEPTH as nat).0
}

/// The value type that inference finds for an expression.
pub open spec fn value_type_at(env: GenEnvV, g: GenV, e: ExprV) -> ValueType {
    value_type_of(type_of(env.types, g.types, e))
}

impl GenV {
    pub open spec fn initial() -> GenV {
        GenV {
            out: AsmV::empty(),
            next_label: 0,
            loops: Seq::empty(),
            inlined: Seq::empty(),
            callables: Map::empty(),
            types: TypesV::empty(),
            operands: Seq::empty(),
        }
    }

    pub open spec fn emit(self, i: InstrV) -> GenV {
        GenV { out: self.out.emit(i), ..self }
    }

    pub open spec fn push(self, v: ValueV) -> GenV {
        self.emit(Instr::Const(v))
    }

    pub open spec fn mark(self, line: u32) -> GenV {
        GenV { out: self.out.mark_line(line), ..self }
    }

    /// The next label with a given prefix.
    pub open spec fn label(self, prefix: Seq<char>) -> Seq<char> {
        label_name(prefix, self.next_label)
    }

    /// The labels that are placed, and the number of the next one.
    pub open spec fn labelling(self) -> (Set<Seq<char>>, nat) {
        (self.out.labels.dom(), self.next_label)
    }

    /// The state once the next label is taken.
    pub open spec fn taken(self) -> GenV {
        GenV {
            next_label: if self.next_label < u32::MAX {
                self.next_label + 1
            } else {
                self.next_label
            },
            ..self
        }
    }

    /// The state with a label at the end of the code.
    pub open spec fn place(self, label: Seq<char>) -> GenR {
        match self.out.label(label) {
            Ok(out) => Ok(GenV { out, ..self }),
            Err(e) => Err((CompileErrorV::Assembler(e), self)),
        }
    }

    pub open spec fn ldloc(self, slot: LocalSlot) -> GenR {
        if slot <= 255 {
            Ok(self.emit(Instr::Ldloc(slot as u8)))
        } else {
            Err((CompileErrorV::LocalSlotOverflow(slot), self))
        }
    }

    pub open spec fn stloc(self, slot: LocalSlot) -> GenR {
        if slot <= 255 {
            Ok(self.emit(Instr::Stloc(slot as u8)))
        } else {
            Err((CompileErrorV::LocalSlotOverflow(slot), self))
        }
    }

    /// Loads a local and leaves it in place.
    pub open spec fn copy_ldloc(self, slot: LocalSlot) -> GenR {
        match self.ldloc(slot) {
            Ok(g1) => g1.emit(Instr::Dup).stloc(slot),
            Err(e) => Err(e),
        }
    }

    pub open spec fn call_builtin(self, b: BuiltinFunction, argc: u8) -> GenV {
        self.emit(Instr::Call(builtin_index(b), argc))
    }

    /// The state with the operand types of the next instruction noted, where both
    /// are known.
    pub open spec fn record(self, lhs: ValueType, rhs: ValueType) -> GenV {
        if lhs == ValueType::Unknown || rhs == ValueType::Unknown {
            self
        } else {
            GenV { operands: self.operands.push((self.out.position(), (lhs, rhs))), ..self }
        }
    }

    /// The state with the operand type of the next instruction noted, where it is known.
    pub open spec fn record_unary(self, operand: ValueType) -> GenV {
        if operand == ValueType::Unknown {
            self
        } else {
            GenV {
                operands: self.operands.push(
                    (self.out.position(), (operand, ValueType::Unknown)),
                ),
                ..self
            }
        }
    }

    pub open spec fn set_type(self, slot: LocalSlot, ty: BoundType) -> GenV {
        GenV { types: self.types.set(slot, ty), ..self }
    }

    /// The state with a slot that stands for a callable.
    pub open spec fn bind(self, slot: LocalSlot, callable: CallableV) -> GenV {
        GenV {
            callables: self.callables.insert(slot, callable),
            types: self.types.bind(slot, callable),
            ..self
        }
    }
}

// ---------------------------------------------------------------------------
// Captures and frames.

/// A body that captures slots.
pub enum CaptureOwner {
    Closure(ClosureV),
    Function(FunctionImplV),
}

/// How a body takes a captured slot.
pub open spec fn capture_mode(owner: CaptureOwner, slot: LocalSlot) -> CaptureBindingMode {
    match owner {
        CaptureOwner::Closure(c) => closure_capture_mode(c, slot),
        CaptureOwner::Function(f) => function_capture_mode(f, slot),
    }
}

/// The slots that a body captures.
pub open spec fn captures_of(owner: CaptureOwner) -> Seq<(LocalSlot, LocalSlot)> {
    match owner {
        CaptureOwner::Closure(c) => c.captures,
        CaptureOwner::Function(f) => f.captures,
    }
}

/// Copies or moves a slot to the slot that a body reads it from.
pub open spec fn bind_capture(
    env: GenEnvV,
    g: GenV,
    source: LocalSlot,
    slot: LocalSlot,
    mode: CaptureBindingMode,
) -> GenR {
    let ty = g.types.get(source);
    let loaded = if env.moves && mode == CaptureBindingMode::Move {
        match g.ldloc(source) {
            Ok(g1) => Ok(g1.set_type(source, BoundType::Null)),
            Err(e) => Err(e),
        }
    } else {
        g.copy_ldloc(source)
    };
    match loaded {
        Ok(g1) => match g1.stloc(slot) {
            Ok(g2) => Ok(g2.set_type(slot, ty)),
            Err(e) => Err(e),
        },
        Err(e) => Err(e),
    }
}

/// Takes the captured slots of a body from position `i` on.
pub open spec fn bind_captures_from(env: GenEnvV, g: GenV, owner: CaptureOwner, i: int) -> GenR
    decreases captures_of(owner).len() - i,
{
    let captures = captures_of(owner);
    if i < 0 || i >= captures.len() {
        Ok(g)
    } else {
        match bind_capture(
            env,
            g,
            captures[i].0,
            captures[i].1,
            capture_mode(owner, captures[i].1),
        ) {
            Ok(g1) => bind_captures_from(env, g1, owner, i + 1),
            Err(e) => Err(e),
        }
    }
}

/// Clears slots after an inlined body, from position `i` on.
pub open spec fn clear_from(g: GenV, slots: Seq<LocalSlot>, i: int) -> GenR
    decreases slots.len() - i,
{
    if i < 0 || i >= slots.len() {
        Ok(g)
    } else {
        match g.push(ValueV::Null).stloc(slots[i]) {
            Ok(g1) => clear_from(g1.set_type(slots[i], BoundType::Null), slots, i + 1),
            Err(e) => Err(e),
        }
    }
}

// ---------------------------------------------------------------------------
// Patterns and conversions.

/// Compares the type of a slot with a name.
pub open spec fn gen_type_test(g: GenV, slot: LocalSlot, name: Seq<char>) -> GenR {
    match g.copy_ldloc(slot) {
        Ok(g1) => Ok(
            g1.call_builtin(BuiltinFunction::TypeOf, 1).push(ValueV::Str(name)).emit(Instr::Ceq),
        ),
        Err(e) => Err(e),
    }
}

/// Tests whether the type of a slot matches a type pattern.
pub open spec fn gen_type_pattern(g: GenV, slot: LocalSlot, pattern: MatchTypePattern) -> GenR {
    match pattern {
        MatchTypePattern::Int => gen_type_test(g, slot, "int"@),
        MatchTypePattern::Float => gen_type_test(g, slot, "float"@),
        MatchTypePattern::Bool => gen_type_test(g, slot, "bool"@),
        MatchTypePattern::String => gen_type_test(g, slot, "string"@),
        MatchTypePattern::Array => gen_type_test(g, slot, "array"@),
        MatchTypePattern::Mapping => gen_type_test(g, slot, "map"@),
        MatchTypePattern::Number => {
            let fallback = g.label("match_type_number_fallback"@);
            let end = g.taken().label("match_type_number_end"@);
            match gen_type_test(g.taken().taken(), slot, "int"@) {
                Ok(g1) => match g1.emit(
                    Instr::BrFalse(fallback),
                ).push(ValueV::Bool(true)).emit(Instr::Br(end)).place(fallback) {
                    Ok(g2) => match gen_type_test(g2, slot, "float"@) {
                        Ok(g3) => g3.place(end),
                        Err(e) => Err(e),
                    },
                    Err(e) => Err(e),
                },
                Err(e) => Err(e),
            }
        },
    }
}

/// Tests whether a slot matches a pattern.
pub open spec fn gen_pattern(g: GenV, slot: LocalSlot, pattern: PatternV) -> GenR {
    match pattern {
        PatternV::Type(t) => gen_type_pattern(g, slot, t),
        _ => match g.copy_ldloc(slot) {
            Ok(g1) => Ok(
                g1.push(
                    match pattern {
                        PatternV::Int(v) => ValueV::Int(v),
                        PatternV::Str(v) => ValueV::Str(v),
                        _ => ValueV::Null,
                    },
                ).emit(Instr::Ceq),
            ),
            Err(e) => Err(e),
        },
    }
}

/// Turns the value on top of the stack into a string where it is a number.
pub open spec fn gen_number_to_string(g: GenV) -> GenR {
    let not_int = g.label("concat_not_int"@);
    let not_float = g.taken().label("concat_not_float"@);
    let done = g.taken().taken().label("concat_value_done"@);
    match gen_if_type(g.taken().taken().taken(), "int"@, not_int).call_builtin(
        BuiltinFunction::ToString,
        1,
    ).emit(Instr::Br(done)).place(not_int) {
        Ok(g1) => match gen_if_type(g1, "float"@, not_float).call_builtin(
            BuiltinFunction::ToString,
            1,
        ).emit(Instr::Br(done)).place(not_float) {
            Ok(g2) => g2.place(done),
            Err(e) => Err(e),
        },
        Err(e) => Err(e),
    }
}

/// Goes on where the value on top of the stack has a type, and to a label where not.
pub open spec fn gen_if_type(g: GenV, name: Seq<char>, otherwise: Seq<char>) -> GenV {
    g.emit(Instr::Dup).call_builtin(BuiltinFunction::TypeOf, 1).push(ValueV::Str(name)).emit(
        Instr::Ceq,
    ).emit(Instr::BrFalse(otherwise))
}

// ---------------------------------------------------------------------------
// Expressions and statements.

/// The exponent of a power of two that an expression is a literal of.
pub open spec fn shift_of(e: ExprV) -> Option<int> {
    match e {
        ExprV::Int(v) => if exists|n: nat| v == power_of_two(n) {
            Some((choose|n: nat| v == power_of_two(n)) as int)
        } else {
            None
        },
        _ => None,
    }
}

/// Evaluates two expressions in turn.
pub open spec fn gen_pair(env: GenEnvV, g: GenV, lhs: ExprV, rhs: ExprV, depth: nat) -> GenR
    decreases depth, 1nat, 0nat,
{
    match gen_expr(env, g, lhs, depth) {
        Ok(g1) => gen_expr(env, g1, rhs, depth),
        Err(e) => Err(e),
    }
}

/// Evaluates a list of expressions in turn, from position `i` on.
pub open spec fn gen_list(env: GenEnvV, g: GenV, list: Seq<ExprV>, i: int, depth: nat) -> GenR
    decreases depth, 1nat, list.len() - i,
{
    if i < 0 || i >= list.len() {
        Ok(g)
    } else {
        match gen_expr(env, g, list[i], depth) {
            Ok(g1) => gen_list(env, g1, list, i + 1, depth),
            Err(e) => Err(e),
        }
    }
}

/// Evaluates an operand of a string concatenation.
pub open spec fn gen_concat_operand(env: GenEnvV, g: GenV, e: ExprV, depth: nat) -> GenR
    decreases depth, 1nat, 0nat,
{
    match const_int(e) {
        Some(v) => Ok(g.push(ValueV::Str(int_text(v as int)))),
        None => match gen_expr(env, g, e, depth) {
            Ok(g1) => gen_number_to_string(g1),
            Err(e) => Err(e),
        },
    }
}

/// The instruction of a binary operator.
pub open spec fn operator_instr(op: BinOp) -> InstrV {
    match op {
        BinOp::Add => Instr::Add,
        BinOp::Sub => Instr::Sub,
        BinOp::Mul => Instr::Mul,
        BinOp::Div => Instr::Div,
        BinOp::Mod => Instr::Mod,
        BinOp::Eq => Instr::Ceq,
        BinOp::Lt => Instr::Clt,
        _ => Instr::Cgt,
    }
}

/// Evaluates both operands and applies an operator.
pub open spec fn gen_operator(
    env: GenEnvV,
    g: GenV,
    op: BinOp,
    lhs: ExprV,
    rhs: ExprV,
    depth: nat,
) -> GenR
    decreases depth, 2nat, 0nat,
{
    let lt = value_type_at(env, g, lhs);
    let rt = value_type_at(env, g, rhs);
    match gen_pair(env, g, lhs, rhs, depth) {
        Ok(g1) => Ok(g1.record(lt, rt).emit(operator_instr(op))),
        Err(e) => Err(e),
    }
}

/// Evaluates an addition: where one side is a string for certain, the other is
/// turned into one.
pub open spec fn gen_add(env: GenEnvV, g: GenV, lhs: ExprV, rhs: ExprV, depth: nat) -> GenR
    decreases depth, 3nat, 0nat,
{
    let operands = if surely_string(lhs) {
        match gen_expr(env, g, lhs, depth) {
            Ok(g1) => gen_concat_operand(env, g1, rhs, depth),
            Err(e) => Err(e),
        }
    } else {
        match gen_concat_operand(env, g, lhs, depth) {
            Ok(g1) => gen_expr(env, g1, rhs, depth),
            Err(e) => Err(e),
        }
    };
    if surely_string(lhs) || surely_string(rhs) {
        match operands {
            Ok(g1) => Ok(g1.record(ValueType::String, ValueType::String).emit(Instr::Add)),
            Err(e) => Err(e),
        }
    } else {
        gen_operator(env, g, BinOp::Add, lhs, rhs, depth)
    }
}

/// Evaluates an expression and shifts it.
pub open spec fn gen_shift(env: GenEnvV, g: GenV, e: ExprV, shift: int, depth: nat) -> GenR
    decreases depth, 1nat, 0nat,
{
    match gen_expr(env, g, e, depth) {
        Ok(g1) => Ok(g1.push(ValueV::Int(shift as i64)).emit(Instr::Shl)),
        Err(e) => Err(e),
    }
}

/// Evaluates a multiplication: by a power of two it is a shift.
pub open spec fn gen_mul(env: GenEnvV, g: GenV, lhs: ExprV, rhs: ExprV, depth: nat) -> GenR
    decreases depth, 3nat, 0nat,
{
    match shift_of(rhs) {
        Some(shift) => gen_shift(env, g, lhs, shift, depth),
        None => match shift_of(lhs) {
            Some(shift) => gen_shift(env, g, rhs, shift, depth),
            None => gen_operator(env, g, BinOp::Mul, lhs, rhs, depth),
        },
    }
}

/// Evaluates `lhs && rhs`: the right side only where the left one is true.
pub open spec fn gen_and(env: GenEnvV, g: GenV, lhs: ExprV, rhs: ExprV, depth: nat) -> GenR
    decreases depth, 1nat, 0nat,
{
    let on_false = g.label("and_false"@);
    let end = g.taken().label("and_end"@);
    match gen_expr(env, g.taken().taken(), lhs, depth) {
        Ok(g1) => match gen_expr(env, g1.emit(Instr::BrFalse(on_false)), rhs, depth) {
            Ok(g2) => match g2.emit(Instr::Br(end)).place(on_false) {
                Ok(g3) => g3.push(ValueV::Bool(false)).place(end),
                Err(e) => Err(e),
            },
            Err(e) => Err(e),
        },
        Err(e) => Err(e),
    }
}

/// Evaluates `lhs || rhs`: the right side only where the left one is false.
pub open spec fn gen_or(env: GenEnvV, g: GenV, lhs: ExprV, rhs: ExprV, depth: nat) -> GenR
    decreases depth, 1nat, 0nat,
{
    let on_false = g.label("or_rhs"@);
    let end = g.taken().label("or_end"@);
    match gen_expr(env, g.taken().taken(), lhs, depth) {
        Ok(g1) => match g1.emit(
            Instr::BrFalse(on_false),
        ).push(ValueV::Bool(true)).emit(Instr::Br(end)).place(on_false) {
            Ok(g2) => match gen_expr(env, g2, rhs, depth) {
                Ok(g3) => g3.place(end),
                Err(e) => Err(e),
            },
            Err(e) => Err(e),
        },
        Err(e) => Err(e),
    }
}

/// Evaluates a binary operation.
pub open spec fn gen_binary(
    env: GenEnvV,
    g: GenV,
    op: BinOp,
    lhs: ExprV,
    rhs: ExprV,
    depth: nat,
) -> GenR
    decreases depth, 4nat, 0nat,
{
    match op {
        BinOp::Add => gen_add(env, g, lhs, rhs, depth),
        BinOp::Mul => gen_mul(env, g, lhs, rhs, depth),
        BinOp::And => gen_and(env, g, lhs, rhs, depth),
        BinOp::Or => gen_or(env, g, lhs, rhs, depth),
        _ => gen_operator(env, g, op, lhs, rhs, depth),
    }
}

/// Evaluates a unary operation.
pub open spec fn gen_unary(env: GenEnvV, g: GenV, op: UnOp, inner: ExprV, depth: nat) -> GenR
    decreases depth, 1nat, 0nat,
{
    match gen_expr(env, g, inner, depth) {
        Ok(g1) => match op {
            UnOp::Neg => Ok(g1.record_unary(value_type_at(env, g, inner)).emit(Instr::Neg)),
            UnOp::Not => Ok(g1.emit(Instr::Not)),
            _ => Ok(g1),
        },
        Err(e) => Err(e),
    }
}

/// Takes an entry out of the container in a local: reads it, then stores the
/// container with a null in its place.
pub open spec fn gen_take(g: GenV, root: LocalSlot, key: ValueV) -> GenR {
    match g.copy_ldloc(root) {
        Ok(g1) => match g1.push(key).call_builtin(BuiltinFunction::Get, 2).copy_ldloc(root) {
            Ok(g2) => g2.push(key).push(ValueV::Null).call_builtin(
                BuiltinFunction::SetAt,
                3,
            ).stloc(root),
            Err(e) => Err(e),
        },
        Err(e) => Err(e),
    }
}

/// Evaluates the arms of a match, from position `i` on.
pub open spec fn gen_arms(
    env: GenEnvV,
    g: GenV,
    value_slot: LocalSlot,
    result_slot: LocalSlot,
    arms: Seq<(PatternV, ExprV)>,
    i: int,
    end: Seq<char>,
    depth: nat,
) -> GenR
    decreases depth, 1nat, arms.len() - i,
{
    if i < 0 || i >= arms.len() {
        Ok(g)
    } else {
        let next = g.label("match_next"@);
        match gen_pattern(g.taken(), value_slot, arms[i].0) {
            Ok(g1) => match gen_expr(env, g1.emit(Instr::BrFalse(next)), arms[i].1, depth) {
                Ok(g2) => match g2.stloc(result_slot) {
                    Ok(g3) => match g3.emit(Instr::Br(end)).place(next) {
                        Ok(g4) => gen_arms(
                            env,
                            g4,
                            value_slot,
                            result_slot,
                            arms,
                            i + 1,
                            end,
                            depth,
                        ),
                        Err(e) => Err(e),
                    },
                    Err(e) => Err(e),
                },
                Err(e) => Err(e),
            },
            Err(e) => Err(e),
        }
    }
}

/// Evaluates one of two expressions.
pub open spec fn gen_if_expr(
    env: GenEnvV,
    g: GenV,
    condition: ExprV,
    then_expr: ExprV,
    else_expr: ExprV,
    depth: nat,
) -> GenR
    decreases depth, 1nat, 0nat,
{
    match gen_expr(env, g, condition, depth) {
        Ok(g1) => {
            let on_else = g1.label("if_else"@);
            let end = g1.taken().label("if_end"@);
            match gen_expr(
                env,
                g1.taken().taken().emit(Instr::BrFalse(on_else)),
                then_expr,
                depth,
            ) {
                Ok(g2) => match g2.emit(Instr::Br(end)).place(on_else) {
                    Ok(g3) => match gen_expr(env, g3, else_expr, depth) {
                        Ok(g4) => g4.place(end),
                        Err(e) => Err(e),
                    },
                    Err(e) => Err(e),
                },
                Err(e) => Err(e),
            }
        },
        Err(e) => Err(e),
    }
}

/// Evaluates the first arm whose pattern a value matches.
pub open spec fn gen_match(
    env: GenEnvV,
    g: GenV,
    value_slot: LocalSlot,
    result_slot: LocalSlot,
    value: ExprV,
    arms: Seq<(PatternV, ExprV)>,
    default: ExprV,
    depth: nat,
) -> GenR
    decreases depth, 2nat, 0nat,
{
    match gen_expr(env, g, value, depth) {
        Ok(g1) => match g1.stloc(value_slot) {
            Ok(g2) => {
                let end = g2.label("match_end"@);
                match gen_arms(env, g2.taken(), value_slot, result_slot, arms, 0, end, depth) {
                    Ok(g3) => match gen_expr(env, g3, default, depth) {
                        Ok(g4) => match g4.stloc(result_slot) {
                            Ok(g5) => match g5.place(end) {
                                Ok(g6) => g6.copy_ldloc(result_slot),
                                Err(e) => Err(e),
                            },
                            Err(e) => Err(e),
                        },
                        Err(e) => Err(e),
                    },
                    Err(e) => Err(e),
                }
            },
            Err(e) => Err(e),
        },
        Err(e) => Err(e),
    }
}

/// Evaluates an expression: its value ends on top of the stack.
pub open spec fn gen_expr(env: GenEnvV, g: GenV, e: ExprV, depth: nat) -> GenR
    decreases depth, 0nat, 0nat,
{
    if depth == 0 {
        Err((CompileErrorV::InlineDepthExceeded, g))
    } else {
        let d = (depth - 1) as nat;
        match e {
            ExprV::Null => Ok(g.push(ValueV::Null)),
            ExprV::Int(v) => Ok(g.push(ValueV::Int(v))),
            ExprV::Float(v) => Ok(g.push(ValueV::Float(v))),
            ExprV::Bool(v) => Ok(g.push(ValueV::Bool(v))),
            ExprV::Str(v) => Ok(g.push(ValueV::Str(v))),
            ExprV::FunctionRef(_) => Err((CompileErrorV::CallableUsedAsValue, g)),
            ExprV::Closure(_) => Err((CompileErrorV::CallableUsedAsValue, g)),
            ExprV::Call(index, args) => gen_function_call(env, g, index, args, d),
            ExprV::ClosureCall(closure, args) => gen_closure_call(env, g, closure, args, d),
            ExprV::LocalCall(slot, args) => if g.callables.dom().contains(slot) {
                gen_callable_call(env, g, g.callables[slot], args, d)
            } else {
                Err((CompileErrorV::NonCallableLocal(slot), g))
            },
            ExprV::Binary(op, l, r) => gen_binary(env, g, op, *l, *r, d),
            ExprV::Unary(op, inner) => gen_unary(env, g, op, *inner, d),
            ExprV::Var(slot) => if g.callables.dom().contains(slot) {
                Err((CompileErrorV::CallableUsedAsValue, g))
            } else {
                g.copy_ldloc(slot)
            },
            ExprV::MoveVar(slot) => if g.callables.dom().contains(slot) {
                Err((CompileErrorV::CallableUsedAsValue, g))
            } else {
                match g.ldloc(slot) {
                    Ok(g1) => Ok(g1.set_type(slot, BoundType::Null)),
                    Err(e) => Err(e),
                }
            },
            ExprV::MoveField(root, key) => gen_take(g, root, ValueV::Str(key)),
            ExprV::MoveIndex(root, index) => gen_take(g, root, ValueV::Int(index)),
            ExprV::IfElse(c, t, f) => gen_if_expr(env, g, *c, *t, *f, d),
            ExprV::Match { value_slot, result_slot, value, arms, default } => gen_match(
                env,
                g,
                value_slot,
                result_slot,
                *value,
                arms,
                *default,
                d,
            ),
            ExprV::Block(stmts, expr) => match gen_stmts(env, g, stmts, 0, d) {
                Ok(g1) => gen_expr(env, g1, *expr, d),
                Err(e) => Err(e),
            },
        }
    }
}

/// Puts the value of an expression into a local, or notes the callable that the
/// local stands for from here on.
pub open spec fn gen_assign(env: GenEnvV, g: GenV, slot: LocalSlot, e: ExprV, depth: nat) -> GenR
    decreases depth, 1nat, 0nat,
{
    match e {
        ExprV::Closure(closure) => match bind_captures_from(
            env,
            g,
            CaptureOwner::Closure(closure),
            0,
        ) {
            Ok(g1) => Ok(g1.bind(slot, CallableV::Closure(closure))),
            Err(e) => Err(e),
        },
        ExprV::FunctionRef(index) => Ok(g.bind(slot, CallableV::Function(index))),
        _ => if e matches ExprV::Var(v) && g.callables.dom().contains(v) {
            Ok(g.bind(slot, g.callables[e->Var_0]))
        } else {
            let ty = type_of(env.types, g.types, e);
            let plain = GenV { callables: g.callables.remove(slot), ..g };
            match gen_expr(env, plain, e, depth) {
                Ok(g1) => match g1.stloc(slot) {
                    Ok(g2) => Ok(g2.set_type(slot, ty)),
                    Err(e) => Err(e),
                },
                Err(e) => Err(e),
            }
        },
    }
}

/// Puts arguments into parameter slots, from position `i` on.
pub open spec fn gen_args(
    env: GenEnvV,
    g: GenV,
    params: Seq<LocalSlot>,
    args: Seq<ExprV>,
    i: int,
    depth: nat,
) -> GenR
    decreases depth, 2nat, args.len() - i,
{
    if i < 0 || i >= args.len() {
        Ok(g)
    } else {
        match gen_assign(env, g, params[i], args[i], depth) {
            Ok(g1) => gen_args(env, g1, params, args, i + 1, depth),
            Err(e) => Err(e),
        }
    }
}

/// The message on a function that calls itself.
pub open spec fn recursion_message(index: u16) -> Seq<char> {
    "recursive RustScript function call detected for function index "@ + decimal(index as nat)
}

/// Calls a function that the program defines, by its body in place.
pub open spec fn gen_inline_call(
    env: GenEnvV,
    g: GenV,
    index: u16,
    args: Seq<ExprV>,
    depth: nat,
) -> GenR
    decreases depth, 3nat, 0nat,
{
    let f = env.types.impls[index];
    if f.params.len() != args.len() {
        Err((CompileErrorV::CallableArityMismatch(f.params.len(), args.len()), g))
    } else {
        match gen_args(env, g, f.params, args, 0, depth) {
            Ok(g1) => if g1.inlined.contains(index) {
                Err(
                    (
                        CompileErrorV::InlineFunctionRecursion(recursion_message(index)),
                        GenV { callables: g.callables, ..g1 },
                    ),
                )
            } else {
                match gen_stmts(
                    env,
                    GenV { inlined: g1.inlined.push(index), ..g1 },
                    f.body_stmts,
                    0,
                    depth,
                ) {
                    Ok(g2) => match gen_expr(env, g2, f.body_expr, depth) {
                        Ok(g3) => clear_from(
                            GenV { inlined: g1.inlined, callables: g.callables, ..g3 },
                            descending(function_frame(f)),
                            0,
                        ),
                        Err((e, g3)) => Err(
                            (e, GenV { inlined: g1.inlined, callables: g.callables, ..g3 }),
                        ),
                    },
                    Err((e, g2)) => Err(
                        (e, GenV { inlined: g1.inlined, callables: g.callables, ..g2 }),
                    ),
                }
            },
            Err(e) => Err(e),
        }
    }
}

/// Calls a closure, by its body in place.
pub open spec fn gen_closure_call(
    env: GenEnvV,
    g: GenV,
    c: ClosureV,
    args: Seq<ExprV>,
    depth: nat,
) -> GenR
    decreases depth, 3nat, 0nat,
{
    if c.params.len() != args.len() {
        Err((CompileErrorV::CallableArityMismatch(c.params.len(), args.len()), g))
    } else {
        match gen_args(env, g, c.params, args, 0, depth) {
            Ok(g1) => match gen_expr(env, g1, *c.body, depth) {
                Ok(g2) => clear_from(
                    GenV { callables: g.callables, ..g2 },
                    descending(closure_frame(c)),
                    0,
                ),
                Err((e, g2)) => Err((e, GenV { callables: g.callables, ..g2 })),
            },
            Err(e) => Err(e),
        }
    }
}

/// Calls a built-in function or one of the host.
pub open spec fn gen_direct_call(
    env: GenEnvV,
    g: GenV,
    index: u16,
    args: Seq<ExprV>,
    depth: nat,
) -> GenR
    decreases depth, 3nat, 0nat,
{
    match gen_list(env, g, args, 0, depth) {
        Ok(g1) => if args.len() > 255 {
            Err((CompileErrorV::CallArityOverflow, g1))
        } else {
            let target = if builtin_at(index) is None && env.remap.dom().contains(index) {
                env.remap[index]
            } else {
                index
            };
            Ok(g1.emit(Instr::Call(target, args.len() as u8)))
        },
        Err(e) => Err(e),
    }
}

/// Calls a function.
pub open spec fn gen_function_call(
    env: GenEnvV,
    g: GenV,
    index: u16,
    args: Seq<ExprV>,
    depth: nat,
) -> GenR
    decreases depth, 4nat, 0nat,
{
    if env.types.impls.dom().contains(index) {
        gen_inline_call(env, g, index, args, depth)
    } else {
        gen_direct_call(env, g, index, args, depth)
    }
}

/// Calls what a local stands for.
pub open spec fn gen_callable_call(
    env: GenEnvV,
    g: GenV,
    callable: CallableV,
    args: Seq<ExprV>,
    depth: nat,
) -> GenR
    decreases depth, 5nat, 0nat,
{
    match callable {
        CallableV::Closure(closure) => gen_closure_call(env, g, closure, args, depth),
        CallableV::Function(index) => gen_function_call(env, g, index, args, depth),
    }
}

/// Runs a list of statements, from position `i` on.
pub open spec fn gen_stmts(env: GenEnvV, g: GenV, stmts: Seq<StmtV>, i: int, depth: nat) -> GenR
    decreases depth, 1nat, stmts.len() - i,
{
    if i < 0 || i >= stmts.len() {
        Ok(g)
    } else {
        match gen_stmt(env, g, stmts[i], depth) {
            Ok(g1) => gen_stmts(env, g1, stmts, i + 1, depth),
            Err(e) => Err(e),
        }
    }
}

/// Runs a branch. What it learns of callables is forgotten after it; what it
/// learns of types holds where the other branch agrees.
pub open spec fn gen_if(
    env: GenEnvV,
    g: GenV,
    condition: ExprV,
    then_branch: Seq<StmtV>,
    else_branch: Seq<StmtV>,
    line: u32,
    depth: nat,
) -> GenR
    decreases depth, 2nat, 0nat,
{
    let g0 = g.mark(line);
    let on_else = g0.label("else"@);
    let end = g0.taken().label("endif"@);
    match gen_expr(env, g0.taken().taken(), condition, depth) {
        Ok(g1) => match gen_stmts(env, g1.emit(Instr::BrFalse(on_else)), then_branch, 0, depth) {
            Ok(g2) => match g2.emit(Instr::Br(end)).place(on_else) {
                Ok(g3) => match gen_stmts(
                    env,
                    GenV { callables: g.callables, types: g.types, ..g3 },
                    else_branch,
                    0,
                    depth,
                ) {
                    Ok(g4) => match g4.place(end) {
                        Ok(g5) => Ok(
                            GenV {
                                callables: g.callables,
                                types: TypesV::join(g2.types, g4.types),
                                ..g5
                            },
                        ),
                        Err(e) => Err(e),
                    },
                    Err(e) => Err(e),
                },
                Err(e) => Err(e),
            },
            Err(e) => Err(e),
        },
        Err(e) => Err(e),
    }
}

/// Runs a counting loop.
pub open spec fn gen_for(
    env: GenEnvV,
    g: GenV,
    init: StmtV,
    condition: ExprV,
    post: StmtV,
    body: Seq<StmtV>,
    line: u32,
    stmt: StmtV,
    depth: nat,
) -> GenR
    decreases depth, 2nat, 0nat,
{
    match gen_stmt(env, g.mark(line), init, depth) {
        Ok(g1) => {
            let start = g1.label("for_start"@);
            let next = g1.taken().label("for_continue"@);
            let end = g1.taken().taken().label("for_end"@);
            match g1.taken().taken().taken().place(start) {
                Ok(g2) => match gen_expr(env, g2, condition, depth) {
                    Ok(g3) => {
                        let inside = GenV {
                            loops: g3.loops.push((next, end)),
                            ..g3.emit(Instr::BrFalse(end))
                        };
                        match gen_stmts(env, inside, body, 0, depth) {
                            Ok(g4) => match (GenV { loops: g3.loops, ..g4 }).place(next) {
                                Ok(g5) => match gen_stmt(env, g5, post, depth) {
                                    Ok(g6) => match g6.emit(Instr::Br(start)).place(end) {
                                        Ok(g7) => Ok(
                                            GenV {
                                                callables: g.callables,
                                                types: types_after(env.types, g.types, stmt),
                                                ..g7
                                            },
                                        ),
                                        Err(e) => Err(e),
                                    },
                                    Err(e) => Err(e),
                                },
                                Err(e) => Err(e),
                            },
                            Err(e) => Err(e),
                        }
                    },
                    Err(e) => Err(e),
                },
                Err(e) => Err(e),
            }
        },
        Err(e) => Err(e),
    }
}

/// Runs a loop with a condition.
pub open spec fn gen_while(
    env: GenEnvV,
    g: GenV,
    condition: ExprV,
    body: Seq<StmtV>,
    line: u32,
    stmt: StmtV,
    depth: nat,
) -> GenR
    decreases depth, 2nat, 0nat,
{
    let g0 = g.mark(line);
    let start = g0.label("while_start"@);
    let end = g0.taken().label("while_end"@);
    match g0.taken().taken().place(start) {
        Ok(g2) => match gen_expr(env, g2, condition, depth) {
            Ok(g3) => {
                let inside = GenV {
                    loops: g3.loops.push((start, end)),
                    ..g3.emit(Instr::BrFalse(end))
                };
                match gen_stmts(env, inside, body, 0, depth) {
                    Ok(g4) => match (GenV { loops: g3.loops, ..g4 }).emit(
                        Instr::Br(start),
                    ).place(end) {
                        Ok(g5) => Ok(
                            GenV {
                                callables: g.callables,
                                types: types_after(env.types, g.types, stmt),
                                ..g5
                            },
                        ),
                        Err(e) => Err(e),
                    },
                    Err(e) => Err(e),
                }
            },
            Err(e) => Err(e),
        },
        Err(e) => Err(e),
    }
}

/// Runs a statement.
pub open spec fn gen_stmt(env: GenEnvV, g: GenV, stmt: StmtV, depth: nat) -> GenR
    decreases depth, 0nat, 0nat,
{
    if depth == 0 {
        Err((CompileErrorV::InlineDepthExceeded, g))
    } else {
        let d = (depth - 1) as nat;
        match stmt {
            StmtV::Noop(line) => Ok(g.mark(line)),
            StmtV::Let { index, expr, line } => gen_assign(env, g.mark(line), index, expr, d),
            StmtV::Assign { index, expr, line } => gen_assign(env, g.mark(line), index, expr, d),
            StmtV::ClosureLet { line, closure } => bind_captures_from(
                env,
                g.mark(line),
                CaptureOwner::Closure(closure),
                0,
            ),
            StmtV::FuncDecl { index, line, .. } => if env.types.impls.dom().contains(index) {
                bind_captures_from(
                    env,
                    g.mark(line),
                    CaptureOwner::Function(env.types.impls[index]),
                    0,
                )
            } else {
                Ok(g.mark(line))
            },
            StmtV::Expr { expr, line } => gen_expr(env, g.mark(line), expr, d),
            StmtV::IfElse { condition, then_branch, else_branch, line } => gen_if(
                env,
                g,
                condition,
                then_branch,
                else_branch,
                line,
                d,
            ),
            StmtV::For { init, condition, post, body, line } => gen_for(
                env,
                g,
                *init,
                condition,
                *post,
                body,
                line,
                stmt,
                d,
            ),
            StmtV::While { condition, body, line } => gen_while(
                env,
                g,
                condition,
                body,
                line,
                stmt,
                d,
            ),
            StmtV::Break(line) => if g.loops.len() == 0 {
                Err((CompileErrorV::BreakOutsideLoop, g.mark(line)))
            } else {
                Ok(g.mark(line).emit(Instr::Br(g.loops.last().1)))
            },
            StmtV::Continue(line) => if g.loops.len() == 0 {
                Err((CompileErrorV::ContinueOutsideLoop, g.mark(line)))
            } else {
                Ok(g.mark(line).emit(Instr::Br(g.loops.last().0)))
            },
            StmtV::Drop { index, line } => gen_assign(env, g.mark(line), index, ExprV::Null, d),
        }
    }
}

// ---------------------------------------------------------------------------
// What holds of the code of any program.

/// Whether an expression is refused before anything of it is compiled: a callable in place of
/// a value, or a call of a local that stands for none.
pub open spec fn refused(g: GenV, e: ExprV) -> Option<CompileErrorV> {
    match e {
        ExprV::FunctionRef(_) | ExprV::Closure(_) => Some(CompileErrorV::CallableUsedAsValue),
        ExprV::Var(slot) | ExprV::MoveVar(slot) => if g.callables.dom().contains(slot) {
            Some(CompileErrorV::CallableUsedAsValue)
        } else {
            None
        },
        ExprV::LocalCall(slot, _) => if g.callables.dom().contains(slot) {
            None
        } else {
            Some(CompileErrorV::NonCallableLocal(slot))
        },
        _ => None,
    }
}

/// A callable in place of a value and a call of a local that stands for none are refused, and
/// leave the state as it was: no instruction is emitted. As a statement, only its line is
/// noted.
pub proof fn law_refused_expressions_emit_nothing(
    env: GenEnvV,
    g: GenV,
    e: ExprV,
    line: u32,
    depth: nat,
)
    requires
        refused(g, e) is Some,
        depth > 1,
    ensures
        gen_expr(env, g, e, depth) == GenR::Err((refused(g, e)->0, g)),
        gen_stmt(env, g, StmtV::Expr { expr: e, line }, depth) == GenR::Err(
            (refused(g, e)->0, g.mark(line)),
        ),
{
}

/// A call in place with a wrong number of arguments is refused, and leaves the state as it
/// was.
pub proof fn law_wrong_argument_counts_change_nothing(
    env: GenEnvV,
    g: GenV,
    index: u16,
    c: ClosureV,
    args: Seq<ExprV>,
    depth: nat,
)
    ensures
        env.types.impls[index].params.len() != args.len() ==> gen_inline_call(
            env,
            g,
            index,
            args,
            depth,
        ) == GenR::Err(
            (
                CompileErrorV::CallableArityMismatch(
                    env.types.impls[index].params.len(),
                    args.len(),
                ),
                g,
            ),
        ),
        c.params.len() != args.len() ==> gen_closure_call(env, g, c, args, depth) == GenR::Err(
            (CompileErrorV::CallableArityMismatch(c.params.len(), args.len()), g),
        ),
{
}

proof fn lemma_cleared(g: GenV, slots: Seq<LocalSlot>, i: int)
    requires
        0 <= i <= slots.len(),
    ensures
        clear_from(g, slots, i) matches Ok(h) ==> {
            &&& h.callables == g.callables
            &&& h.inlined == g.inlined
            &&& forall|s: LocalSlot| g.types.get(s) == BoundType::Null ==> #[trigger] h.types.get(s)
                == BoundType::Null
            &&& forall|k: int|
                i <= k < slots.len() ==> h.types.get(#[trigger] slots[k]) == BoundType::Null
        },
    decreases slots.len() - i,
{
    if i < slots.len() {
        match g.push(ValueV::Null).stloc(slots[i]) {
            Ok(g1) => {
                let g2 = g1.set_type(slots[i], BoundType::Null);
                assert(g2.types.get(slots[i]) == BoundType::Null);
                lemma_cleared(g2, slots, i + 1);
            },
            Err(_) => {},
        }
    }
}

/// Whether a frame was cleared, and what locals stand for left as it was.
spec fn frame_cleared(before: GenV, after: GenV, frame: Set<LocalSlot>) -> bool {
    &&& after.callables == before.callables
    &&& forall|s: LocalSlot| #[trigger]
        frame.contains(s) ==> after.types.get(s) == BoundType::Null
}

proof fn lemma_frame_cleared(g: GenV, frame: Set<LocalSlot>)
    ensures
        clear_from(g, descending(frame), 0) matches Ok(h) ==> frame_cleared(g, h, frame),
{
    let slots = descending(frame);
    law_descending(frame);
    lemma_cleared(g, slots, 0);
    if clear_from(g, slots, 0) is Ok {
        let h = clear_from(g, slots, 0)->Ok_0;
        assert forall|s: LocalSlot| #[trigger] frame.contains(s) implies h.types.get(s)
            == BoundType::Null by {
            assert(slots.contains(s));
            let k = choose|k: int| 0 <= k < slots.len() && slots[k] == s;
            assert(h.types.get(slots[k]) == BoundType::Null);
        }
    }
}

/// A call in place leaves what the locals outside stand for as it was, and every slot of its
/// frame empty.
pub proof fn law_calls_leave_no_trace(
    env: GenEnvV,
    g: GenV,
    index: u16,
    c: ClosureV,
    args: Seq<ExprV>,
    depth: nat,
)
    ensures
        gen_inline_call(env, g, index, args, depth) matches Ok(h) ==> {
            &&& h.callables == g.callables
            &&& forall|s: LocalSlot| #[trigger]
                function_frame(env.types.impls[index]).contains(s) ==> h.types.get(s)
                    == BoundType::Null
        },
        gen_closure_call(env, g, c, args, depth) matches Ok(h) ==> {
            &&& h.callables == g.callables
            &&& forall|s: LocalSlot| #[trigger]
                closure_frame(c).contains(s) ==> h.types.get(s) == BoundType::Null
        },
{
    let f = env.types.impls[index];
    match gen_args(env, g, f.params, args, 0, depth) {
        Ok(g1) => match gen_stmts(
            env,
            GenV { inlined: g1.inlined.push(index), ..g1 },
            f.body_stmts,
            0,
            depth,
        ) {
            Ok(g2) => match gen_expr(env, g2, f.body_expr, depth) {
                Ok(g3) => lemma_frame_cleared(
                    GenV { inlined: g1.inlined, callables: g.callables, ..g3 },
                    function_frame(f),
                ),
                Err(_) => {},
            },
            Err(_) => {},
        },
        Err(_) => {},
    }
    match gen_args(env, g, c.params, args, 0, depth) {
        Ok(g1) => match gen_expr(env, g1, *c.body, depth) {
            Ok(g2) => lemma_frame_cleared(GenV { callables: g.callables, ..g2 }, closure_frame(c)),
            Err(_) => {},
        },
        Err(_) => {},
    }
}

/// To drop a local is to assign null to it on the same line. Where that succeeds, the local
/// has the type of null and stands for no callable.
pub proof fn law_dropping_assigns_null(
    env: GenEnvV,
    g: GenV,
    index: LocalSlot,
    line: u32,
    depth: nat,
)
    ensures
        gen_stmt(env, g, StmtV::Drop { index, line }, depth) == gen_stmt(
            env,
            g,
            StmtV::Assign { index, expr: ExprV::Null, line },
            depth,
        ),
        gen_stmt(env, g, StmtV::Drop { index, line }, depth) matches Ok(h) ==> h.types.get(index)
            == BoundType::Null && !h.callables.dom().contains(index),
{
    reveal(type_of);
    if depth > 0 {
        let d = (depth - 1) as nat;
        let g0 = g.mark(line);
        assert(type_of(env.types, g0.types, ExprV::Null) == BoundType::Null);
        assert(gen_stmt(env, g, StmtV::Drop { index, line }, depth) == gen_assign(
            env,
            g0,
            index,
            ExprV::Null,
            d,
        ));
        let plain = GenV { callables: g0.callables.remove(index), ..g0 };
        if d > 0 {
            assert(gen_expr(env, plain, ExprV::Null, d) == GenR::Ok(plain.push(ValueV::Null)));
        }
    }
}

/// Two labels that one generator takes, one after the other and with any steps between, differ;
/// each starts with what it was asked for and an underscore. That holds until the numbers are
/// used up.
pub proof fn law_labels_taken_in_turn_differ(g: GenV, h: GenV, p: Seq<char>, q: Seq<char>)
    requires
        !used_up(g.next_label),
        goes_on_from(g.taken().labelling(), h.labelling()),
    ensures
        g.label(p) != h.label(q),
        (p + "_"@).is_prefix_of(g.label(p)),
        (q + "_"@).is_prefix_of(h.label(q)),
{
    reveal(goes_on_from);
    law_labels_differ(p, q, g.next_label, h.next_label);
    assert(g.label(p).take((p + "_"@).len() as int) =~= p + "_"@);
    assert(h.label(q).take((q + "_"@).len() as int) =~= q + "_"@);
}

} // verus!
