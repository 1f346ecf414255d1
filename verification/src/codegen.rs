//! Code generation.

use std::collections::HashMap;
use vstd::prelude::*;
use crate::assembler::{
    group_grows, grows, instr_view, leads, lemma_branch_in_loop, lemma_branch_placed,
    lemma_leads_inside, lemma_loop_closed, placed_code_view, placed_from, Assembler, AssemblerError,
    DebugInfo, Instr, Program, Value, ValueV,
};
use crate::builtins::BuiltinFunction;
use crate::captures::{
    closure_capture_mode_for_slot, function_capture_mode_for_slot, CaptureBindingMode,
};
use crate::consts::{
    eval_const_int_expr, int_to_string, is_definitely_string_expr, lemma_power_unique,
    power_of_two, shift_amount_for_power_of_two,
};
use crate::errors::{CompileError, CompileErrorV};
use crate::generation::{
    bind_capture, bind_captures_from, clear_from, gen_add, gen_and, gen_args, gen_arms, gen_assign,
    gen_binary, gen_callable_call, gen_closure_call, gen_concat_operand, gen_direct_call, gen_expr,
    gen_for, gen_function_call, gen_if, gen_if_expr, gen_match, gen_inline_call, gen_list, gen_mul,
    gen_number_to_string, gen_operator, gen_or, gen_pair, gen_pattern, gen_shift, gen_stmt,
    gen_stmts, gen_take, gen_type_pattern, gen_type_test, gen_unary, gen_while, refused, shift_of, type_of,
    types_after, value_type_at, CaptureOwner, GenEnvV, GenR, GenV, MAX_DEPTH,
};
use crate::infer::{impls_view, lookup, signatures_map_view, TypeContext, TypeEnvV};
use crate::ir::{
    arms_view, exprs_view, stmts_view, BinOp, ClosureExpr, Expr, FunctionImpl, LocalSlot,
    MatchPattern, MatchTypePattern, Stmt, UnOp, ValueType,
};
use crate::labels::{below, goes_on_from, group_labels, lemma_next_label, lemma_place_label, pending, used_up};
use crate::param_add::slots_contain;
use crate::slots::{collect_closure_frame_slots, collect_function_frame_slots};
use crate::tables::SlotTable;
use crate::text::push_decimal;
use crate::types::{
    callables_view, clone_callables, BoundType, CallableBinding, CallableV, HostCallableSignature,
    LocalTypeState,
};

verus! {

broadcast use {group_grows, group_labels};

/// What code generation knows of the program as a whole.
pub struct GenEnv {
    pub function_impls: HashMap<u16, FunctionImpl>,
    pub host_import_return_types: HashMap<u16, BoundType>,
    pub host_import_signatures: HashMap<u16, HostCallableSignature>,
    pub call_index_remap: HashMap<u16, u16>,
    pub enable_local_move_semantics: bool,
}

impl GenEnv {
    pub open spec fn view(&self) -> GenEnvV {
        GenEnvV {
            types: TypeEnvV {
                impls: impls_view(self.function_impls@),
                names: Map::empty(),
                host_types: self.host_import_return_types@,
                host_signatures: signatures_map_view(self.host_import_signatures@),
            },
            remap: self.call_index_remap@,
            moves: self.enable_local_move_semantics,
        }
    }
}

/// Whether a failure is none for a label that nothing defines.
pub open spec fn no_dangling(r: Result<(), CompileError>) -> bool {
    r matches Err(CompileError::Assembler(e)) ==> e is DuplicateLabel
}

/// Whether a step took and placed labels in order. It fails over a label only where the label
/// counter is used up.
pub open spec fn orderly(r: Result<(), CompileError>, before: GenV, after: GenV) -> bool {
    match r {
        Ok(()) => goes_on_from(before.labelling(), after.labelling()),
        Err(CompileError::Assembler(_)) => used_up(after.next_label),
        Err(_) => true,
    }
}

/// Where `continue` and `break` lead.
struct LoopContext {
    continue_label: String,
    break_label: String,
}

/// The state of code generation.
pub struct CodeGen {
    assembler: Assembler,
    next_label_id: u32,
    loop_stack: Vec<LoopContext>,
    inline_call_stack: Vec<u16>,
    callable_bindings: SlotTable<CallableBinding>,
    type_state: LocalTypeState,
    operand_types: Vec<(usize, (ValueType, ValueType))>,
}

/// The labels of the loops around a point.
spec fn loops_view(s: Seq<LoopContext>) -> Seq<(Seq<char>, Seq<char>)> {
    Seq::new(s.len(), |i: int| (s[i].continue_label@, s[i].break_label@))
}

/// Whether a step ended as its model says, and left the state that the model says.
pub open spec fn done(r: Result<(), CompileError>, after: GenV, expected: GenR) -> bool {
    match expected {
        Ok(g) => r is Ok && after == g,
        Err((e, g)) => r is Err && r->Err_0@ == e && after == g,
    }
}

pub fn local_slot_operand(index: LocalSlot) -> (r: Result<u8, CompileError>)
    ensures
        index <= 255 ==> r == Ok::<u8, CompileError>(index as u8),
        index > 255 ==> r is Err && r->Err_0@ == CompileErrorV::LocalSlotOverflow(index),
{
    if index <= 255 {
        Ok(index as u8)
    } else {
        Err(CompileError::LocalSlotOverflow(index))
    }
}

impl CodeGen {
    pub closed spec fn view(&self) -> GenV {
        GenV {
            out: self.assembler@,
            next_label: self.next_label_id as nat,
            loops: loops_view(self.loop_stack@),
            inlined: self.inline_call_stack@,
            callables: callables_view(self.callable_bindings@),
            types: self.type_state@,
            operands: self.operand_types@,
        }
    }

    pub fn new() -> (r: CodeGen)
        ensures
            r@ == GenV::initial(),
            below(r@.labelling()),
    {
        proof {
            reveal(below);
        }
        let r = CodeGen {
            assembler: Assembler::new(),
            next_label_id: 0,
            loop_stack: Vec::new(),
            inline_call_stack: Vec::new(),
            callable_bindings: SlotTable::new(),
            type_state: LocalTypeState::new(),
            operand_types: Vec::new(),
        };
        assert(r@.loops =~= Seq::<(Seq<char>, Seq<char>)>::empty());
        assert(r@.callables =~= Map::<u16, CallableV>::empty());
        r
    }

    // -----------------------------------------------------------------------
    // Single steps.

    fn emit(&mut self, instr: Instr<Value, String>)
        ensures
            final(self)@ == old(self)@.emit(instr_view(instr)),
            leads(old(self)@.out, old(self)@.out, old(self)@.loops),
            final(self)@.labelling() == old(self)@.labelling(),
    {
        self.assembler.emit(instr);
    }

    fn push_const(&mut self, value: Value)
        ensures
            final(self)@ == old(self)@.push(value@),
            leads(old(self)@.out, old(self)@.out, old(self)@.loops),
            final(self)@.labelling() == old(self)@.labelling(),
    {
        self.assembler.emit(Instr::Const(value));
    }

    fn push_string(&mut self, text: &str)
        ensures
            final(self)@ == old(self)@.push(ValueV::Str(text@)),
            leads(old(self)@.out, old(self)@.out, old(self)@.loops),
            final(self)@.labelling() == old(self)@.labelling(),
    {
        self.push_const(Value::Str(text.to_string()));
    }

    fn mark_line(&mut self, line: u32)
        ensures
            final(self)@ == old(self)@.mark(line),
            leads(old(self)@.out, old(self)@.out, old(self)@.loops),
            final(self)@.labelling() == old(self)@.labelling(),
    {
        self.assembler.mark_line(line);
    }

    fn call_builtin(&mut self, builtin: BuiltinFunction, argc: u8)
        ensures
            final(self)@ == old(self)@.call_builtin(builtin, argc),
            leads(old(self)@.out, old(self)@.out, old(self)@.loops),
            final(self)@.labelling() == old(self)@.labelling(),
    {
        self.emit(Instr::Call(builtin.call_index(), argc));
    }

    fn br_label(&mut self, label: &String)
        ensures
            final(self)@ == old(self)@.emit(Instr::Br(label@)),
            leads(old(self)@.out, old(self)@.out, old(self)@.loops),
            final(self)@.labelling() == old(self)@.labelling(),
    {
        self.emit(Instr::Br(label.clone()));
    }

    fn brfalse_label(&mut self, label: &String)
        ensures
            final(self)@ == old(self)@.emit(Instr::BrFalse(label@)),
            leads(old(self)@.out, old(self)@.out, old(self)@.loops),
            final(self)@.labelling() == old(self)@.labelling(),
    {
        self.emit(Instr::BrFalse(label.clone()));
    }

    fn place_label(
        &mut self,
        label: &String,
        Ghost(start): Ghost<(Set<Seq<char>>, nat)>,
    ) -> (r: Result<(), CompileError>)
        requires
            goes_on_from(start, old(self)@.labelling()),
            pending(label@, start.1, old(self)@.labelling()),
        ensures
            done(r, final(self)@, old(self)@.place(label@)),
            leads(old(self)@.out, old(self)@.out, old(self)@.loops),
            no_dangling(r),
            r is Err ==> used_up(final(self)@.next_label),
            r is Ok ==> goes_on_from(start, final(self)@.labelling()),
            r is Ok ==> forall|m: Seq<char>, low: nat| #[trigger]
                pending(m, low, old(self)@.labelling()) && (m != label@ || used_up(
                    old(self)@.next_label,
                )) ==> pending(m, low, final(self)@.labelling()),
    {
        proof {
            lemma_place_label(label@, start, self@.labelling());
        }
        let r = self.assembler.label(label.as_str());
        proof {
            if r is Ok {
                assert(self@.labelling().0 =~= old(self)@.labelling().0.insert(label@));
            }
        }
        match r {
            Ok(()) => Ok(()),
            Err(e) => Err(CompileError::Assembler(e)),
        }
    }

    fn fresh_label(
        &mut self,
        prefix: &str,
        Ghost(start): Ghost<(Set<Seq<char>>, nat)>,
    ) -> (r: String)
        requires
            below(old(self)@.labelling()),
            goes_on_from(start, old(self)@.labelling()),
        ensures
            r@ == old(self)@.label(prefix@),
            final(self)@ == old(self)@.taken(),
            leads(old(self)@.out, old(self)@.out, old(self)@.loops),
            goes_on_from(old(self)@.labelling(), final(self)@.labelling()),
            pending(r@, start.1, final(self)@.labelling()),
            forall|m: Seq<char>, low: nat|
                #[trigger] pending(m, low, old(self)@.labelling()) ==> m != r@ || used_up(
                    old(self)@.next_label,
                ),
    {
        proof {
            lemma_next_label(prefix@, start, self@.labelling(), self@.taken().next_label);
        }
        let mut label = prefix.to_string();
        label.push_str("_");
        push_decimal(&mut label, self.next_label_id as u64);
        if self.next_label_id < u32::MAX {
            self.next_label_id += 1;
        }
        label
    }

    fn emit_move_ldloc(&mut self, slot: LocalSlot) -> (r: Result<(), CompileError>)
        ensures
            done(r, final(self)@, old(self)@.ldloc(slot)),
            leads(old(self)@.out, old(self)@.out, old(self)@.loops),
            no_dangling(r),
            orderly(r, old(self)@, final(self)@),
            r is Ok ==> final(self)@.labelling() == old(self)@.labelling(),
    {
        match local_slot_operand(slot) {
            Ok(operand) => {
                self.emit(Instr::Ldloc(operand));
                Ok(())
            },
            Err(e) => Err(e),
        }
    }

    fn emit_stloc(&mut self, slot: LocalSlot) -> (r: Result<(), CompileError>)
        ensures
            done(r, final(self)@, old(self)@.stloc(slot)),
            leads(old(self)@.out, old(self)@.out, old(self)@.loops),
            no_dangling(r),
            orderly(r, old(self)@, final(self)@),
            r is Ok ==> final(self)@.labelling() == old(self)@.labelling(),
    {
        match local_slot_operand(slot) {
            Ok(operand) => {
                self.emit(Instr::Stloc(operand));
                Ok(())
            },
            Err(e) => Err(e),
        }
    }

    fn emit_copy_ldloc(&mut self, slot: LocalSlot) -> (r: Result<(), CompileError>)
        ensures
            done(r, final(self)@, old(self)@.copy_ldloc(slot)),
            leads(old(self)@.out, old(self)@.out, old(self)@.loops),
            no_dangling(r),
            orderly(r, old(self)@, final(self)@),
            r is Ok ==> final(self)@.labelling() == old(self)@.labelling(),
    {
        match self.emit_move_ldloc(slot) {
            Ok(()) => {},
            Err(e) => {
                return Err(e);
            },
        }
        self.emit(Instr::Dup);
        self.emit_stloc(slot)
    }

    fn record_operand_types(&mut self, lhs: ValueType, rhs: ValueType)
        ensures
            final(self)@ == old(self)@.record(lhs, rhs),
    {
        if lhs == ValueType::Unknown || rhs == ValueType::Unknown {
            return;
        }
        let at: usize = self.assembler.position();
        self.operand_types.push((at, (lhs, rhs)));
    }

    fn record_unary_operand_type(&mut self, operand: ValueType)
        ensures
            final(self)@ == old(self)@.record_unary(operand),
    {
        if operand == ValueType::Unknown {
            return;
        }
        let at: usize = self.assembler.position();
        self.operand_types.push((at, (operand, ValueType::Unknown)));
    }

    fn set_type(&mut self, slot: LocalSlot, ty: BoundType)
        ensures
            final(self)@ == old(self)@.set_type(slot, ty),
    {
        self.type_state.set(slot, ty);
    }

    fn infer_bound_type(&self, env: &GenEnv, expr: &Expr) -> (r: BoundType)
        ensures
            r == type_of(env@.types, self@.types, expr@),
    {
        let names: HashMap<u16, String> = HashMap::new();
        let mut context = TypeContext::new(
            &env.function_impls,
            &names,
            &env.host_import_return_types,
            &env.host_import_signatures,
        );
        assert(context.env().names =~= Map::<u16, Seq<char>>::empty());
        proof {
            reveal(type_of);
        }
        context.infer_expr_type(expr, &self.type_state, MAX_DEPTH)
    }

    fn simulate_stmt_type_state(
        env: &GenEnv,
        stmt: &Stmt,
        initial_state: &LocalTypeState,
    ) -> (r: LocalTypeState)
        ensures
            r@ == types_after(env@.types, initial_state@, stmt@),
    {
        let names: HashMap<u16, String> = HashMap::new();
        let mut context = TypeContext::new(
            &env.function_impls,
            &names,
            &env.host_import_return_types,
            &env.host_import_signatures,
        );
        assert(context.env().names =~= Map::<u16, Seq<char>>::empty());
        proof {
            reveal(types_after);
        }
        let mut state = initial_state.clone();
        context.apply_stmt(stmt, &mut state, MAX_DEPTH);
        state
    }

    fn value_type_of_expr(&self, env: &GenEnv, expr: &Expr) -> (r: ValueType)
        ensures
            r == value_type_at(env@, self@, expr@),
    {
        ValueType::from(self.infer_bound_type(env, expr))
    }

    // -----------------------------------------------------------------------
    // Captures and frames.

    fn bind_capture_copy(
        &mut self,
        env: &GenEnv,
        source_index: LocalSlot,
        captured_slot: LocalSlot,
        capture_mode: CaptureBindingMode,
    ) -> (r: Result<(), CompileError>)
        requires
            below(old(self)@.labelling()),
        ensures
            done(
                r,
                final(self)@,
                bind_capture(env@, old(self)@, source_index, captured_slot, capture_mode),
            ),
            r is Ok ==> final(self)@.loops == old(self)@.loops,
            final(self)@.inlined == old(self)@.inlined,
            r is Ok ==> grows(old(self)@.out, final(self)@.out),
            r is Ok ==> leads(old(self)@.out, final(self)@.out, old(self)@.loops),
            no_dangling(r),
            orderly(r, old(self)@, final(self)@),
    {
        let captured_type = self.type_state.get(source_index);
        if env.enable_local_move_semantics && capture_mode == CaptureBindingMode::Move {
            match self.emit_move_ldloc(source_index) {
                Ok(()) => {},
                Err(e) => {
                    return Err(e);
                },
            }
            self.set_type(source_index, BoundType::Null);
        } else {
            match self.emit_copy_ldloc(source_index) {
                Ok(()) => {},
                Err(e) => {
                    return Err(e);
                },
            }
        }
        match self.emit_stloc(captured_slot) {
            Ok(()) => {},
            Err(e) => {
                return Err(e);
            },
        }
        self.set_type(captured_slot, captured_type);
        Ok(())
    }

    fn bind_closure_captures(
        &mut self,
        env: &GenEnv,
        closure: &ClosureExpr,
    ) -> (r: Result<(), CompileError>)
        requires
            below(old(self)@.labelling()),
        ensures
            done(
                r,
                final(self)@,
                bind_captures_from(env@, old(self)@, CaptureOwner::Closure(closure@), 0),
            ),
            r is Ok ==> final(self)@.loops == old(self)@.loops,
            final(self)@.inlined == old(self)@.inlined,
            r is Ok ==> grows(old(self)@.out, final(self)@.out),
            r is Ok ==> leads(old(self)@.out, final(self)@.out, old(self)@.loops),
            no_dangling(r),
            orderly(r, old(self)@, final(self)@),
    {
        let ghost owner = CaptureOwner::Closure(closure@);
        let ghost total = bind_captures_from(env@, self@, owner, 0);
        let mut i: usize = 0;
        while i < closure.capture_copies.len()
            invariant
                i <= closure.capture_copies@.len(),
                owner == CaptureOwner::Closure(closure@),
                total == bind_captures_from(env@, old(self)@, owner, 0),
                total == bind_captures_from(env@, self@, owner, i as int),
                self@.loops == old(self)@.loops,
                self@.inlined == old(self)@.inlined,
                grows(old(self)@.out, self@.out),
                leads(old(self)@.out, self@.out, old(self)@.loops),
                below(self@.labelling()),
                goes_on_from(old(self)@.labelling(), self@.labelling()),
            decreases closure.capture_copies@.len() - i,
        {
            let (source_index, captured_slot) = closure.capture_copies[i];
            let capture_mode = closure_capture_mode_for_slot(closure, captured_slot);
            match self.bind_capture_copy(env, source_index, captured_slot, capture_mode) {
                Ok(()) => {},
                Err(e) => {
                    return Err(e);
                },
            }
            i += 1;
        }
        Ok(())
    }

    fn bind_function_captures(
        &mut self,
        env: &GenEnv,
        function_impl: &FunctionImpl,
    ) -> (r: Result<(), CompileError>)
        requires
            below(old(self)@.labelling()),
        ensures
            done(
                r,
                final(self)@,
                bind_captures_from(env@, old(self)@, CaptureOwner::Function(function_impl@), 0),
            ),
            r is Ok ==> final(self)@.loops == old(self)@.loops,
            final(self)@.inlined == old(self)@.inlined,
            r is Ok ==> grows(old(self)@.out, final(self)@.out),
            r is Ok ==> leads(old(self)@.out, final(self)@.out, old(self)@.loops),
            no_dangling(r),
            orderly(r, old(self)@, final(self)@),
    {
        let ghost owner = CaptureOwner::Function(function_impl@);
        let ghost total = bind_captures_from(env@, self@, owner, 0);
        let mut i: usize = 0;
        while i < function_impl.capture_copies.len()
            invariant
                i <= function_impl.capture_copies@.len(),
                owner == CaptureOwner::Function(function_impl@),
                total == bind_captures_from(env@, old(self)@, owner, 0),
                total == bind_captures_from(env@, self@, owner, i as int),
                self@.loops == old(self)@.loops,
                self@.inlined == old(self)@.inlined,
                grows(old(self)@.out, self@.out),
                leads(old(self)@.out, self@.out, old(self)@.loops),
                below(self@.labelling()),
                goes_on_from(old(self)@.labelling(), self@.labelling()),
            decreases function_impl.capture_copies@.len() - i,
        {
            let (source_index, captured_slot) = function_impl.capture_copies[i];
            let capture_mode = function_capture_mode_for_slot(function_impl, captured_slot);
            match self.bind_capture_copy(env, source_index, captured_slot, capture_mode) {
                Ok(()) => {},
                Err(e) => {
                    return Err(e);
                },
            }
            i += 1;
        }
        Ok(())
    }

    fn emit_inline_frame_clears(&mut self, slots: &Vec<LocalSlot>) -> (r: Result<(), CompileError>)
        requires
            below(old(self)@.labelling()),
        ensures
            done(r, final(self)@, clear_from(old(self)@, slots@, 0)),
            r is Ok ==> final(self)@.loops == old(self)@.loops,
            final(self)@.inlined == old(self)@.inlined,
            r is Ok ==> grows(old(self)@.out, final(self)@.out),
            r is Ok ==> leads(old(self)@.out, final(self)@.out, old(self)@.loops),
            no_dangling(r),
            orderly(r, old(self)@, final(self)@),
    {
        let ghost total = clear_from(self@, slots@, 0);
        let mut i: usize = 0;
        while i < slots.len()
            invariant
                i <= slots@.len(),
                total == clear_from(old(self)@, slots@, 0),
                total == clear_from(self@, slots@, i as int),
                self@.loops == old(self)@.loops,
                self@.inlined == old(self)@.inlined,
                grows(old(self)@.out, self@.out),
                leads(old(self)@.out, self@.out, old(self)@.loops),
                below(self@.labelling()),
                goes_on_from(old(self)@.labelling(), self@.labelling()),
            decreases slots@.len() - i,
        {
            self.push_const(Value::Null);
            match self.emit_stloc(slots[i]) {
                Ok(()) => {},
                Err(e) => {
                    return Err(e);
                },
            }
            self.set_type(slots[i], BoundType::Null);
            i += 1;
        }
        Ok(())
    }

    // -----------------------------------------------------------------------
    // Patterns and conversions.

    fn compile_type_name_equals(
        &mut self,
        value_slot: LocalSlot,
        expected: &str,
    ) -> (r: Result<(), CompileError>)
        requires
            below(old(self)@.labelling()),
        ensures
            done(r, final(self)@, gen_type_test(old(self)@, value_slot, expected@)),
            r is Ok ==> final(self)@.loops == old(self)@.loops,
            final(self)@.inlined == old(self)@.inlined,
            r is Ok ==> grows(old(self)@.out, final(self)@.out),
            r is Ok ==> leads(old(self)@.out, final(self)@.out, old(self)@.loops),
            no_dangling(r),
            orderly(r, old(self)@, final(self)@),
    {
        match self.emit_copy_ldloc(value_slot) {
            Ok(()) => {},
            Err(e) => {
                return Err(e);
            },
        }
        self.call_builtin(BuiltinFunction::TypeOf, 1);
        self.push_string(expected);
        self.emit(Instr::Ceq);
        Ok(())
    }

    fn compile_match_type_pattern_condition(
        &mut self,
        value_slot: LocalSlot,
        type_pattern: MatchTypePattern,
    ) -> (r: Result<(), CompileError>)
        requires
            below(old(self)@.labelling()),
        ensures
            done(r, final(self)@, gen_type_pattern(old(self)@, value_slot, type_pattern)),
            r is Ok ==> final(self)@.loops == old(self)@.loops,
            final(self)@.inlined == old(self)@.inlined,
            r is Ok ==> grows(old(self)@.out, final(self)@.out),
            r is Ok ==> leads(old(self)@.out, final(self)@.out, old(self)@.loops),
            no_dangling(r),
            orderly(r, old(self)@, final(self)@),
    {
        let ghost start = self@.labelling();
        match type_pattern {
            MatchTypePattern::Int => self.compile_type_name_equals(value_slot, "int"),
            MatchTypePattern::Float => self.compile_type_name_equals(value_slot, "float"),
            MatchTypePattern::Bool => self.compile_type_name_equals(value_slot, "bool"),
            MatchTypePattern::String => self.compile_type_name_equals(value_slot, "string"),
            MatchTypePattern::Array => self.compile_type_name_equals(value_slot, "array"),
            MatchTypePattern::Mapping => self.compile_type_name_equals(value_slot, "map"),
            MatchTypePattern::Number => {
                let number_fallback_label = self.fresh_label(
                    "match_type_number_fallback",
                    Ghost(start),
                );
                let number_end_label = self.fresh_label("match_type_number_end", Ghost(start));
                match self.compile_type_name_equals(value_slot, "int") {
                    Ok(()) => {},
                    Err(e) => {
                        return Err(e);
                    },
                }
                let ghost first = self@.out;
                self.brfalse_label(&number_fallback_label);
                self.push_const(Value::Bool(true));
                let ghost second = self@.out;
                self.br_label(&number_end_label);
                match self.place_label(&number_fallback_label, Ghost(start)) {
                    Ok(()) => {},
                    Err(e) => {
                        return Err(e);
                    },
                }
                let ghost placed = self@.out;
                match self.compile_type_name_equals(value_slot, "float") {
                    Ok(()) => {},
                    Err(e) => {
                        return Err(e);
                    },
                }
                match self.place_label(&number_end_label, Ghost(start)) {
                    Ok(()) => {},
                    Err(e) => {
                        return Err(e);
                    },
                }
                proof {
                    let loops = self@.loops;
                    let on_false = Instr::BrFalse(number_fallback_label@);
                    lemma_branch_placed(
                        first.emit(on_false),
                        second,
                        Instr::Br(number_end_label@),
                        number_end_label@,
                        self@.out,
                        self@.out,
                        loops,
                    );
                    lemma_branch_placed(
                        old(self)@.out,
                        first,
                        on_false,
                        number_fallback_label@,
                        placed,
                        self@.out,
                        loops,
                    );
                }
                Ok(())
            },
        }
    }

    fn compile_match_pattern_condition(
        &mut self,
        value_slot: LocalSlot,
        pattern: &MatchPattern,
    ) -> (r: Result<(), CompileError>)
        requires
            below(old(self)@.labelling()),
        ensures
            done(r, final(self)@, gen_pattern(old(self)@, value_slot, pattern@)),
            r is Ok ==> final(self)@.loops == old(self)@.loops,
            final(self)@.inlined == old(self)@.inlined,
            r is Ok ==> grows(old(self)@.out, final(self)@.out),
            r is Ok ==> leads(old(self)@.out, final(self)@.out, old(self)@.loops),
            no_dangling(r),
            orderly(r, old(self)@, final(self)@),
    {
        match pattern {
            MatchPattern::Int(v) => {
                match self.emit_copy_ldloc(value_slot) {
                    Ok(()) => {},
                    Err(e) => {
                        return Err(e);
                    },
                }
                self.push_const(Value::Int(*v));
            },
            MatchPattern::String(v) => {
                match self.emit_copy_ldloc(value_slot) {
                    Ok(()) => {},
                    Err(e) => {
                        return Err(e);
                    },
                }
                self.push_string(v.as_str());
            },
            MatchPattern::Null => {
                match self.emit_copy_ldloc(value_slot) {
                    Ok(()) => {},
                    Err(e) => {
                        return Err(e);
                    },
                }
                self.push_const(Value::Null);
            },
            MatchPattern::Type(type_pattern) => {
                return self.compile_match_type_pattern_condition(value_slot, *type_pattern);
            },
        }
        self.emit(Instr::Ceq);
        Ok(())
    }

    fn lower_number_to_string_for_concat_top(&mut self) -> (r: Result<(), CompileError>)
        requires
            below(old(self)@.labelling()),
        ensures
            done(r, final(self)@, gen_number_to_string(old(self)@)),
            r is Ok ==> final(self)@.loops == old(self)@.loops,
            final(self)@.inlined == old(self)@.inlined,
            r is Ok ==> grows(old(self)@.out, final(self)@.out),
            r is Ok ==> leads(old(self)@.out, final(self)@.out, old(self)@.loops),
            no_dangling(r),
            orderly(r, old(self)@, final(self)@),
    {
        let ghost start = self@.labelling();
        let not_int_label = self.fresh_label("concat_not_int", Ghost(start));
        let not_float_label = self.fresh_label("concat_not_float", Ghost(start));
        let done_label = self.fresh_label("concat_value_done", Ghost(start));
        self.emit(Instr::Dup);
        self.call_builtin(BuiltinFunction::TypeOf, 1);
        self.push_string("int");
        self.emit(Instr::Ceq);
        let ghost first = self@.out;
        self.brfalse_label(&not_int_label);
        self.call_builtin(BuiltinFunction::ToString, 1);
        let ghost second = self@.out;
        self.br_label(&done_label);
        match self.place_label(&not_int_label, Ghost(start)) {
            Ok(()) => {},
            Err(e) => {
                return Err(e);
            },
        }
        let ghost int_placed = self@.out;
        self.emit(Instr::Dup);
        self.call_builtin(BuiltinFunction::TypeOf, 1);
        self.push_string("float");
        self.emit(Instr::Ceq);
        let ghost third = self@.out;
        self.brfalse_label(&not_float_label);
        self.call_builtin(BuiltinFunction::ToString, 1);
        let ghost fourth = self@.out;
        self.br_label(&done_label);
        match self.place_label(&not_float_label, Ghost(start)) {
            Ok(()) => {},
            Err(e) => {
                return Err(e);
            },
        }
        let ghost float_placed = self@.out;
        match self.place_label(&done_label, Ghost(start)) {
            Ok(()) => {},
            Err(e) => {
                return Err(e);
            },
        }
        proof {
            let loops = self@.loops;
            let done = Instr::Br(done_label@);
            let not_int = Instr::BrFalse(not_int_label@);
            let not_float = Instr::BrFalse(not_float_label@);
            let end = self@.out;
            lemma_branch_placed(third.emit(not_float), fourth, done, done_label@, end, end, loops);
            lemma_branch_placed(
                second.emit(done),
                third,
                not_float,
                not_float_label@,
                float_placed,
                end,
                loops,
            );
            lemma_branch_placed(first.emit(not_int), second, done, done_label@, end, end, loops);
            lemma_branch_placed(
                old(self)@.out,
                first,
                not_int,
                not_int_label@,
                int_placed,
                end,
                loops,
            );
        }
        Ok(())
    }

    // -----------------------------------------------------------------------
    // Expressions.

    /// Evaluates two expressions in turn.
    fn compile_pair(
        &mut self,
        env: &GenEnv,
        lhs: &Expr,
        rhs: &Expr,
        depth: u64,
    ) -> (r: Result<(), CompileError>)
        requires
            below(old(self)@.labelling()),
        ensures
            done(r, final(self)@, gen_pair(env@, old(self)@, lhs@, rhs@, depth as nat)),
            r is Ok ==> final(self)@.loops == old(self)@.loops,
            final(self)@.inlined == old(self)@.inlined,
            r is Ok ==> grows(old(self)@.out, final(self)@.out),
            r is Ok ==> leads(old(self)@.out, final(self)@.out, old(self)@.loops),
            no_dangling(r),
            orderly(r, old(self)@, final(self)@),
        decreases depth, 1nat,
    {
        match self.compile_expr(env, lhs, depth) {
            Ok(()) => {},
            Err(e) => {
                return Err(e);
            },
        }
        self.compile_expr(env, rhs, depth)
    }

    /// Evaluates a list of expressions in turn.
    fn compile_exprs(
        &mut self,
        env: &GenEnv,
        args: &Vec<Expr>,
        depth: u64,
    ) -> (r: Result<(), CompileError>)
        requires
            below(old(self)@.labelling()),
        ensures
            done(r, final(self)@, gen_list(env@, old(self)@, exprs_view(args@), 0, depth as nat)),
            r is Ok ==> final(self)@.loops == old(self)@.loops,
            final(self)@.inlined == old(self)@.inlined,
            r is Ok ==> grows(old(self)@.out, final(self)@.out),
            r is Ok ==> leads(old(self)@.out, final(self)@.out, old(self)@.loops),
            no_dangling(r),
            orderly(r, old(self)@, final(self)@),
        decreases depth, 1nat,
    {
        let ghost total = gen_list(env@, self@, exprs_view(args@), 0, depth as nat);
        let mut i: usize = 0;
        while i < args.len()
            invariant
                i <= args@.len(),
                total == gen_list(env@, old(self)@, exprs_view(args@), 0, depth as nat),
                total == gen_list(env@, self@, exprs_view(args@), i as int, depth as nat),
                self@.loops == old(self)@.loops,
                self@.inlined == old(self)@.inlined,
                grows(old(self)@.out, self@.out),
                leads(old(self)@.out, self@.out, old(self)@.loops),
                below(self@.labelling()),
                goes_on_from(old(self)@.labelling(), self@.labelling()),
            decreases args@.len() - i,
        {
            match self.compile_expr(env, &args[i], depth) {
                Ok(()) => {},
                Err(e) => {
                    return Err(e);
                },
            }
            i += 1;
        }
        Ok(())
    }

    fn compile_string_concat_operand(
        &mut self,
        env: &GenEnv,
        expr: &Expr,
        depth: u64,
    ) -> (r: Result<(), CompileError>)
        requires
            below(old(self)@.labelling()),
        ensures
            done(r, final(self)@, gen_concat_operand(env@, old(self)@, expr@, depth as nat)),
            r is Ok ==> final(self)@.loops == old(self)@.loops,
            final(self)@.inlined == old(self)@.inlined,
            r is Ok ==> grows(old(self)@.out, final(self)@.out),
            r is Ok ==> leads(old(self)@.out, final(self)@.out, old(self)@.loops),
            no_dangling(r),
            orderly(r, old(self)@, final(self)@),
        decreases depth, 1nat,
    {
        match eval_const_int_expr(expr) {
            Some(value) => {
                self.push_const(Value::Str(int_to_string(value)));
                Ok(())
            },
            None => {
                match self.compile_expr(env, expr, depth) {
                    Ok(()) => {},
                    Err(e) => {
                        return Err(e);
                    },
                }
                self.lower_number_to_string_for_concat_top()
            },
        }
    }

    /// Evaluates both operands and applies an operator.
    fn compile_operator(
        &mut self,
        env: &GenEnv,
        op: BinOp,
        lhs: &Expr,
        rhs: &Expr,
        depth: u64,
    ) -> (r: Result<(), CompileError>)
        requires
            below(old(self)@.labelling()),
        ensures
            done(r, final(self)@, gen_operator(env@, old(self)@, op, lhs@, rhs@, depth as nat)),
            r is Ok ==> final(self)@.loops == old(self)@.loops,
            final(self)@.inlined == old(self)@.inlined,
            r is Ok ==> grows(old(self)@.out, final(self)@.out),
            r is Ok ==> leads(old(self)@.out, final(self)@.out, old(self)@.loops),
            no_dangling(r),
            orderly(r, old(self)@, final(self)@),
        decreases depth, 2nat,
    {
        let lhs_ty = self.value_type_of_expr(env, lhs);
        let rhs_ty = self.value_type_of_expr(env, rhs);
        match self.compile_pair(env, lhs, rhs, depth) {
            Ok(()) => {},
            Err(e) => {
                return Err(e);
            },
        }
        self.record_operand_types(lhs_ty, rhs_ty);
        match op {
            BinOp::Add => self.emit(Instr::Add),
            BinOp::Sub => self.emit(Instr::Sub),
            BinOp::Mul => self.emit(Instr::Mul),
            BinOp::Div => self.emit(Instr::Div),
            BinOp::Mod => self.emit(Instr::Mod),
            BinOp::Eq => self.emit(Instr::Ceq),
            BinOp::Lt => self.emit(Instr::Clt),
            _ => self.emit(Instr::Cgt),
        }
        Ok(())
    }

    fn compile_add(
        &mut self,
        env: &GenEnv,
        lhs: &Expr,
        rhs: &Expr,
        depth: u64,
    ) -> (r: Result<(), CompileError>)
        requires
            below(old(self)@.labelling()),
        ensures
            done(r, final(self)@, gen_add(env@, old(self)@, lhs@, rhs@, depth as nat)),
            r is Ok ==> final(self)@.loops == old(self)@.loops,
            final(self)@.inlined == old(self)@.inlined,
            r is Ok ==> grows(old(self)@.out, final(self)@.out),
            r is Ok ==> leads(old(self)@.out, final(self)@.out, old(self)@.loops),
            no_dangling(r),
            orderly(r, old(self)@, final(self)@),
        decreases depth, 3nat,
    {
        if is_definitely_string_expr(lhs) {
            match self.compile_expr(env, lhs, depth) {
                Ok(()) => {},
                Err(e) => {
                    return Err(e);
                },
            }
            match self.compile_string_concat_operand(env, rhs, depth) {
                Ok(()) => {},
                Err(e) => {
                    return Err(e);
                },
            }
            self.record_operand_types(ValueType::String, ValueType::String);
            self.emit(Instr::Add);
            return Ok(());
        }
        if is_definitely_string_expr(rhs) {
            match self.compile_string_concat_operand(env, lhs, depth) {
                Ok(()) => {},
                Err(e) => {
                    return Err(e);
                },
            }
            match self.compile_expr(env, rhs, depth) {
                Ok(()) => {},
                Err(e) => {
                    return Err(e);
                },
            }
            self.record_operand_types(ValueType::String, ValueType::String);
            self.emit(Instr::Add);
            return Ok(());
        }
        self.compile_operator(env, BinOp::Add, lhs, rhs, depth)
    }

    fn compile_shift(
        &mut self,
        env: &GenEnv,
        expr: &Expr,
        shift: u32,
        depth: u64,
    ) -> (r: Result<(), CompileError>)
        requires
            below(old(self)@.labelling()),
        ensures
            done(r, final(self)@, gen_shift(env@, old(self)@, expr@, shift as int, depth as nat)),
            r is Ok ==> final(self)@.loops == old(self)@.loops,
            final(self)@.inlined == old(self)@.inlined,
            r is Ok ==> grows(old(self)@.out, final(self)@.out),
            r is Ok ==> leads(old(self)@.out, final(self)@.out, old(self)@.loops),
            no_dangling(r),
            orderly(r, old(self)@, final(self)@),
        decreases depth, 1nat,
    {
        match self.compile_expr(env, expr, depth) {
            Ok(()) => {},
            Err(e) => {
                return Err(e);
            },
        }
        self.push_const(Value::Int(shift as i64));
        self.emit(Instr::Shl);
        Ok(())
    }

    fn compile_mul(
        &mut self,
        env: &GenEnv,
        lhs: &Expr,
        rhs: &Expr,
        depth: u64,
    ) -> (r: Result<(), CompileError>)
        requires
            below(old(self)@.labelling()),
        ensures
            done(r, final(self)@, gen_mul(env@, old(self)@, lhs@, rhs@, depth as nat)),
            r is Ok ==> final(self)@.loops == old(self)@.loops,
            final(self)@.inlined == old(self)@.inlined,
            r is Ok ==> grows(old(self)@.out, final(self)@.out),
            r is Ok ==> leads(old(self)@.out, final(self)@.out, old(self)@.loops),
            no_dangling(r),
            orderly(r, old(self)@, final(self)@),
        decreases depth, 3nat,
    {
        match literal_shift(rhs) {
            Some(shift) => self.compile_shift(env, lhs, shift, depth),
            None => match literal_shift(lhs) {
                Some(shift) => self.compile_shift(env, rhs, shift, depth),
                None => self.compile_operator(env, BinOp::Mul, lhs, rhs, depth),
            },
        }
    }

    fn compile_short_circuit_and(
        &mut self,
        env: &GenEnv,
        lhs: &Expr,
        rhs: &Expr,
        depth: u64,
    ) -> (r: Result<(), CompileError>)
        requires
            below(old(self)@.labelling()),
        ensures
            done(r, final(self)@, gen_and(env@, old(self)@, lhs@, rhs@, depth as nat)),
            r is Ok ==> final(self)@.loops == old(self)@.loops,
            final(self)@.inlined == old(self)@.inlined,
            r is Ok ==> grows(old(self)@.out, final(self)@.out),
            r is Ok ==> leads(old(self)@.out, final(self)@.out, old(self)@.loops),
            no_dangling(r),
            orderly(r, old(self)@, final(self)@),
        decreases depth, 1nat,
    {
        let ghost start = self@.labelling();
        let false_label = self.fresh_label("and_false", Ghost(start));
        let end_label = self.fresh_label("and_end", Ghost(start));
        match self.compile_expr(env, lhs, depth) {
            Ok(()) => {},
            Err(e) => {
                return Err(e);
            },
        }
        let ghost first = self@.out;
        self.brfalse_label(&false_label);
        match self.compile_expr(env, rhs, depth) {
            Ok(()) => {},
            Err(e) => {
                return Err(e);
            },
        }
        let ghost second = self@.out;
        self.br_label(&end_label);
        match self.place_label(&false_label, Ghost(start)) {
            Ok(()) => {},
            Err(e) => {
                return Err(e);
            },
        }
        let ghost placed = self@.out;
        self.push_const(Value::Bool(false));
        match self.place_label(&end_label, Ghost(start)) {
            Ok(()) => {},
            Err(e) => {
                return Err(e);
            },
        }
        proof {
            let loops = self@.loops;
            let on_false = Instr::BrFalse(false_label@);
            lemma_branch_placed(
                first.emit(on_false),
                second,
                Instr::Br(end_label@),
                end_label@,
                self@.out,
                self@.out,
                loops,
            );
            lemma_branch_placed(
                old(self)@.out,
                first,
                on_false,
                false_label@,
                placed,
                self@.out,
                loops,
            );
        }
        Ok(())
    }

    fn compile_short_circuit_or(
        &mut self,
        env: &GenEnv,
        lhs: &Expr,
        rhs: &Expr,
        depth: u64,
    ) -> (r: Result<(), CompileError>)
        requires
            below(old(self)@.labelling()),
        ensures
            done(r, final(self)@, gen_or(env@, old(self)@, lhs@, rhs@, depth as nat)),
            r is Ok ==> final(self)@.loops == old(self)@.loops,
            final(self)@.inlined == old(self)@.inlined,
            r is Ok ==> grows(old(self)@.out, final(self)@.out),
            r is Ok ==> leads(old(self)@.out, final(self)@.out, old(self)@.loops),
            no_dangling(r),
            orderly(r, old(self)@, final(self)@),
        decreases depth, 1nat,
    {
        let ghost start = self@.labelling();
        let rhs_label = self.fresh_label("or_rhs", Ghost(start));
        let end_label = self.fresh_label("or_end", Ghost(start));
        match self.compile_expr(env, lhs, depth) {
            Ok(()) => {},
            Err(e) => {
                return Err(e);
            },
        }
        let ghost first = self@.out;
        self.brfalse_label(&rhs_label);
        self.push_const(Value::Bool(true));
        let ghost second = self@.out;
        self.br_label(&end_label);
        match self.place_label(&rhs_label, Ghost(start)) {
            Ok(()) => {},
            Err(e) => {
                return Err(e);
            },
        }
        let ghost placed = self@.out;
        match self.compile_expr(env, rhs, depth) {
            Ok(()) => {},
            Err(e) => {
                return Err(e);
            },
        }
        match self.place_label(&end_label, Ghost(start)) {
            Ok(()) => {},
            Err(e) => {
                return Err(e);
            },
        }
        proof {
            let loops = self@.loops;
            let on_false = Instr::BrFalse(rhs_label@);
            lemma_branch_placed(
                first.emit(on_false),
                second,
                Instr::Br(end_label@),
                end_label@,
                self@.out,
                self@.out,
                loops,
            );
            lemma_branch_placed(
                old(self)@.out,
                first,
                on_false,
                rhs_label@,
                placed,
                self@.out,
                loops,
            );
        }
        Ok(())
    }

    fn compile_unary(
        &mut self,
        env: &GenEnv,
        op: UnOp,
        inner: &Expr,
        depth: u64,
    ) -> (r: Result<(), CompileError>)
        requires
            below(old(self)@.labelling()),
        ensures
            done(r, final(self)@, gen_unary(env@, old(self)@, op, inner@, depth as nat)),
            r is Ok ==> final(self)@.loops == old(self)@.loops,
            final(self)@.inlined == old(self)@.inlined,
            r is Ok ==> grows(old(self)@.out, final(self)@.out),
            r is Ok ==> leads(old(self)@.out, final(self)@.out, old(self)@.loops),
            no_dangling(r),
            orderly(r, old(self)@, final(self)@),
        decreases depth, 1nat,
    {
        let inner_ty = if op == UnOp::Neg {
            self.value_type_of_expr(env, inner)
        } else {
            ValueType::Unknown
        };
        match self.compile_expr(env, inner, depth) {
            Ok(()) => {},
            Err(e) => {
                return Err(e);
            },
        }
        match op {
            UnOp::Neg => {
                self.record_unary_operand_type(inner_ty);
                self.emit(Instr::Neg);
            },
            UnOp::Not => {
                self.emit(Instr::Not);
            },
            _ => {},
        }
        Ok(())
    }

    fn compile_move_field(&mut self, root: LocalSlot, key: &str) -> (r: Result<(), CompileError>)
        requires
            below(old(self)@.labelling()),
        ensures
            done(r, final(self)@, gen_take(old(self)@, root, ValueV::Str(key@))),
            r is Ok ==> final(self)@.loops == old(self)@.loops,
            final(self)@.inlined == old(self)@.inlined,
            r is Ok ==> grows(old(self)@.out, final(self)@.out),
            r is Ok ==> leads(old(self)@.out, final(self)@.out, old(self)@.loops),
            no_dangling(r),
            orderly(r, old(self)@, final(self)@),
    {
        match self.emit_copy_ldloc(root) {
            Ok(()) => {},
            Err(e) => {
                return Err(e);
            },
        }
        self.push_string(key);
        self.call_builtin(BuiltinFunction::Get, 2);
        match self.emit_copy_ldloc(root) {
            Ok(()) => {},
            Err(e) => {
                return Err(e);
            },
        }
        self.push_string(key);
        self.push_const(Value::Null);
        self.call_builtin(BuiltinFunction::SetAt, 3);
        self.emit_stloc(root)
    }

    fn compile_move_index(&mut self, root: LocalSlot, index: i64) -> (r: Result<(), CompileError>)
        requires
            below(old(self)@.labelling()),
        ensures
            done(r, final(self)@, gen_take(old(self)@, root, ValueV::Int(index))),
            r is Ok ==> final(self)@.loops == old(self)@.loops,
            final(self)@.inlined == old(self)@.inlined,
            r is Ok ==> grows(old(self)@.out, final(self)@.out),
            r is Ok ==> leads(old(self)@.out, final(self)@.out, old(self)@.loops),
            no_dangling(r),
            orderly(r, old(self)@, final(self)@),
    {
        match self.emit_copy_ldloc(root) {
            Ok(()) => {},
            Err(e) => {
                return Err(e);
            },
        }
        self.push_const(Value::Int(index));
        self.call_builtin(BuiltinFunction::Get, 2);
        match self.emit_copy_ldloc(root) {
            Ok(()) => {},
            Err(e) => {
                return Err(e);
            },
        }
        self.push_const(Value::Int(index));
        self.push_const(Value::Null);
        self.call_builtin(BuiltinFunction::SetAt, 3);
        self.emit_stloc(root)
    }

    /// Evaluates the arms of a match.
    fn compile_arms(
        &mut self,
        env: &GenEnv,
        value_slot: LocalSlot,
        result_slot: LocalSlot,
        arms: &Vec<(MatchPattern, Expr)>,
        end_label: &String,
        depth: u64,
    ) -> (r: Result<(), CompileError>)
        requires
            below(old(self)@.labelling()),
        ensures
            done(
                r,
                final(self)@,
                gen_arms(
                    env@,
                    old(self)@,
                    value_slot,
                    result_slot,
                    arms_view(arms@),
                    0,
                    end_label@,
                    depth as nat,
                ),
            ),
            r is Ok ==> final(self)@.loops == old(self)@.loops,
            final(self)@.inlined == old(self)@.inlined,
            r is Ok ==> grows(old(self)@.out, final(self)@.out),
            r is Ok ==> leads(
                old(self)@.out,
                final(self)@.out,
                old(self)@.loops.push((end_label@, end_label@)),
            ),
            no_dangling(r),
            orderly(r, old(self)@, final(self)@),
        decreases depth, 1nat,
    {
        let ghost start = self@.labelling();
        let ghost total = gen_arms(
            env@,
            self@,
            value_slot,
            result_slot,
            arms_view(arms@),
            0,
            end_label@,
            depth as nat,
        );
        let ghost around = self@.loops.push((end_label@, end_label@));
        let mut i: usize = 0;
        while i < arms.len()
            invariant
                i <= arms@.len(),
                total == gen_arms(
                    env@,
                    old(self)@,
                    value_slot,
                    result_slot,
                    arms_view(arms@),
                    0,
                    end_label@,
                    depth as nat,
                ),
                total == gen_arms(
                    env@,
                    self@,
                    value_slot,
                    result_slot,
                    arms_view(arms@),
                    i as int,
                    end_label@,
                    depth as nat,
                ),
                self@.loops == old(self)@.loops,
                around == self@.loops.push((end_label@, end_label@)),
                self@.inlined == old(self)@.inlined,
                grows(old(self)@.out, self@.out),
                leads(old(self)@.out, self@.out, around),
                below(self@.labelling()),
                goes_on_from(old(self)@.labelling(), self@.labelling()),
                start == old(self)@.labelling(),
                below(start),
            decreases arms@.len() - i,
        {
            let ghost begin = self@.out;
            let next_label = self.fresh_label("match_next", Ghost(start));
            match self.compile_match_pattern_condition(value_slot, &arms[i].0) {
                Ok(()) => {},
                Err(e) => {
                    return Err(e);
                },
            }
            let ghost first = self@.out;
            self.brfalse_label(&next_label);
            match self.compile_expr(env, &arms[i].1, depth) {
                Ok(()) => {},
                Err(e) => {
                    return Err(e);
                },
            }
            match self.emit_stloc(result_slot) {
                Ok(()) => {},
                Err(e) => {
                    return Err(e);
                },
            }
            let ghost second = self@.out;
            self.br_label(end_label);
            match self.place_label(&next_label, Ghost(start)) {
                Ok(()) => {},
                Err(e) => {
                    return Err(e);
                },
            }
            proof {
                let loops = self@.loops;
                let more = (end_label@, end_label@);
                let on_false = Instr::BrFalse(next_label@);
                let done = Instr::Br(end_label@);
                assert(around[loops.len() as int] == more);
                lemma_leads_inside(begin, first, loops, more);
                lemma_leads_inside(first.emit(on_false), second, loops, more);
                lemma_branch_in_loop(second, done, loops.len() as int, around);
                lemma_branch_placed(
                    begin,
                    first,
                    on_false,
                    next_label@,
                    self@.out,
                    self@.out,
                    around,
                );
            }
            i += 1;
        }
        Ok(())
    }

    fn compile_if_expr(
        &mut self,
        env: &GenEnv,
        condition: &Expr,
        then_expr: &Expr,
        else_expr: &Expr,
        depth: u64,
    ) -> (r: Result<(), CompileError>)
        requires
            below(old(self)@.labelling()),
        ensures
            done(
                r,
                final(self)@,
                gen_if_expr(env@, old(self)@, condition@, then_expr@, else_expr@, depth as nat),
            ),
            r is Ok ==> final(self)@.loops == old(self)@.loops,
            final(self)@.inlined == old(self)@.inlined,
            r is Ok ==> grows(old(self)@.out, final(self)@.out),
            r is Ok ==> leads(old(self)@.out, final(self)@.out, old(self)@.loops),
            no_dangling(r),
            orderly(r, old(self)@, final(self)@),
        decreases depth, 1nat,
    {
        let ghost start = self@.labelling();
        match self.compile_expr(env, condition, depth) {
            Ok(()) => {},
            Err(e) => {
                return Err(e);
            },
        }
        let else_label = self.fresh_label("if_else", Ghost(start));
        let end_label = self.fresh_label("if_end", Ghost(start));
        let ghost first = self@.out;
        self.brfalse_label(&else_label);
        match self.compile_expr(env, then_expr, depth) {
            Ok(()) => {},
            Err(e) => {
                return Err(e);
            },
        }
        let ghost second = self@.out;
        self.br_label(&end_label);
        match self.place_label(&else_label, Ghost(start)) {
            Ok(()) => {},
            Err(e) => {
                return Err(e);
            },
        }
        let ghost placed = self@.out;
        match self.compile_expr(env, else_expr, depth) {
            Ok(()) => {},
            Err(e) => {
                return Err(e);
            },
        }
        match self.place_label(&end_label, Ghost(start)) {
            Ok(()) => {},
            Err(e) => {
                return Err(e);
            },
        }
        proof {
            let loops = self@.loops;
            let on_false = Instr::BrFalse(else_label@);
            lemma_branch_placed(
                first.emit(on_false),
                second,
                Instr::Br(end_label@),
                end_label@,
                self@.out,
                self@.out,
                loops,
            );
            lemma_branch_placed(
                old(self)@.out,
                first,
                on_false,
                else_label@,
                placed,
                self@.out,
                loops,
            );
        }
        Ok(())
    }

    fn compile_match(
        &mut self,
        env: &GenEnv,
        value_slot: LocalSlot,
        result_slot: LocalSlot,
        value: &Expr,
        arms: &Vec<(MatchPattern, Expr)>,
        default: &Expr,
        depth: u64,
    ) -> (r: Result<(), CompileError>)
        requires
            below(old(self)@.labelling()),
        ensures
            done(
                r,
                final(self)@,
                gen_match(
                    env@,
                    old(self)@,
                    value_slot,
                    result_slot,
                    value@,
                    arms_view(arms@),
                    default@,
                    depth as nat,
                ),
            ),
            r is Ok ==> final(self)@.loops == old(self)@.loops,
            final(self)@.inlined == old(self)@.inlined,
            r is Ok ==> grows(old(self)@.out, final(self)@.out),
            r is Ok ==> leads(old(self)@.out, final(self)@.out, old(self)@.loops),
            no_dangling(r),
            orderly(r, old(self)@, final(self)@),
        decreases depth, 2nat,
    {
        let ghost start = self@.labelling();
        match self.compile_expr(env, value, depth) {
            Ok(()) => {},
            Err(e) => {
                return Err(e);
            },
        }
        match self.emit_stloc(value_slot) {
            Ok(()) => {},
            Err(e) => {
                return Err(e);
            },
        }
        let end_label = self.fresh_label("match_end", Ghost(start));
        let ghost begin = self@.out;
        match self.compile_arms(env, value_slot, result_slot, arms, &end_label, depth) {
            Ok(()) => {},
            Err(e) => {
                return Err(e);
            },
        }
        let ghost armed = self@.out;
        match self.compile_expr(env, default, depth) {
            Ok(()) => {},
            Err(e) => {
                return Err(e);
            },
        }
        match self.emit_stloc(result_slot) {
            Ok(()) => {},
            Err(e) => {
                return Err(e);
            },
        }
        match self.place_label(&end_label, Ghost(start)) {
            Ok(()) => {},
            Err(e) => {
                return Err(e);
            },
        }
        proof {
            lemma_loop_closed(
                begin,
                armed,
                self@.out,
                self@.out,
                self@.out,
                end_label@,
                end_label@,
                self@.loops,
            );
        }
        self.emit_copy_ldloc(result_slot)
    }

    /// Evaluates a binary operation.
    fn compile_binary(
        &mut self,
        env: &GenEnv,
        op: BinOp,
        lhs: &Expr,
        rhs: &Expr,
        depth: u64,
    ) -> (r: Result<(), CompileError>)
        requires
            below(old(self)@.labelling()),
        ensures
            done(r, final(self)@, gen_binary(env@, old(self)@, op, lhs@, rhs@, depth as nat)),
            r is Ok ==> final(self)@.loops == old(self)@.loops,
            final(self)@.inlined == old(self)@.inlined,
            r is Ok ==> grows(old(self)@.out, final(self)@.out),
            r is Ok ==> leads(old(self)@.out, final(self)@.out, old(self)@.loops),
            no_dangling(r),
            orderly(r, old(self)@, final(self)@),
        decreases depth, 4nat,
    {
        match op {
            BinOp::Add => self.compile_add(env, lhs, rhs, depth),
            BinOp::Mul => self.compile_mul(env, lhs, rhs, depth),
            BinOp::And => self.compile_short_circuit_and(env, lhs, rhs, depth),
            BinOp::Or => self.compile_short_circuit_or(env, lhs, rhs, depth),
            _ => self.compile_operator(env, op, lhs, rhs, depth),
        }
    }

    /// Evaluates an expression: its value ends on top of the stack.
    #[verifier::spinoff_prover]
    #[verifier::rlimit(60)]
    fn compile_expr(
        &mut self,
        env: &GenEnv,
        expr: &Expr,
        depth: u64,
    ) -> (r: Result<(), CompileError>)
        requires
            below(old(self)@.labelling()),
        ensures
            done(r, final(self)@, gen_expr(env@, old(self)@, expr@, depth as nat)),
            r is Ok ==> final(self)@.loops == old(self)@.loops,
            final(self)@.inlined == old(self)@.inlined,
            r is Ok ==> grows(old(self)@.out, final(self)@.out),
            r is Ok ==> leads(old(self)@.out, final(self)@.out, old(self)@.loops),
            no_dangling(r),
            refused(old(self)@, expr@) is Some ==> r is Err && final(self)@ == old(self)@,
            orderly(r, old(self)@, final(self)@),
        decreases depth, 0nat,
    {
        if depth == 0 {
            return Err(CompileError::InlineDepthExceeded);
        }
        let d: u64 = depth - 1;
        match expr {
            Expr::Null => {
                self.push_const(Value::Null);
                Ok(())
            },
            Expr::Int(value) => {
                self.push_const(Value::Int(*value));
                Ok(())
            },
            Expr::Float(value) => {
                self.push_const(Value::Float(value.clone()));
                Ok(())
            },
            Expr::Bool(value) => {
                self.push_const(Value::Bool(*value));
                Ok(())
            },
            Expr::String(value) => {
                self.push_string(value.as_str());
                Ok(())
            },
            Expr::FunctionRef(_) => Err(CompileError::CallableUsedAsValue),
            Expr::Closure(_) => Err(CompileError::CallableUsedAsValue),
            Expr::Call(index, args) => self.compile_function_call(env, *index, args, d),
            Expr::ClosureCall(closure, args) => {
                self.compile_inline_closure_call(env, closure, args, d)
            },
            Expr::LocalCall(index, args) => {
                let callable: CallableBinding = match self.callable_bindings.get(*index) {
                    Some(callable) => callable.clone(),
                    None => {
                        return Err(CompileError::NonCallableLocal(*index));
                    },
                };
                self.compile_callable_call(env, &callable, args, d)
            },
            Expr::Add(lhs, rhs) => self.compile_binary(env, BinOp::Add, lhs, rhs, d),
            Expr::Sub(lhs, rhs) => self.compile_binary(env, BinOp::Sub, lhs, rhs, d),
            Expr::Mul(lhs, rhs) => self.compile_binary(env, BinOp::Mul, lhs, rhs, d),
            Expr::Div(lhs, rhs) => self.compile_binary(env, BinOp::Div, lhs, rhs, d),
            Expr::Mod(lhs, rhs) => self.compile_binary(env, BinOp::Mod, lhs, rhs, d),
            Expr::And(lhs, rhs) => self.compile_binary(env, BinOp::And, lhs, rhs, d),
            Expr::Or(lhs, rhs) => self.compile_binary(env, BinOp::Or, lhs, rhs, d),
            Expr::Eq(lhs, rhs) => self.compile_binary(env, BinOp::Eq, lhs, rhs, d),
            Expr::Lt(lhs, rhs) => self.compile_binary(env, BinOp::Lt, lhs, rhs, d),
            Expr::Gt(lhs, rhs) => self.compile_binary(env, BinOp::Gt, lhs, rhs, d),
            Expr::Neg(inner) => self.compile_unary(env, UnOp::Neg, inner, d),
            Expr::Not(inner) => self.compile_unary(env, UnOp::Not, inner, d),
            Expr::ToOwned(inner) => self.compile_unary(env, UnOp::ToOwned, inner, d),
            Expr::Borrow(inner) => self.compile_unary(env, UnOp::Borrow, inner, d),
            Expr::BorrowMut(inner) => self.compile_unary(env, UnOp::BorrowMut, inner, d),
            Expr::Var(index) => {
                if self.callable_bindings.contains_key(*index) {
                    return Err(CompileError::CallableUsedAsValue);
                }
                self.emit_copy_ldloc(*index)
            },
            Expr::MoveVar(index) => {
                if self.callable_bindings.contains_key(*index) {
                    return Err(CompileError::CallableUsedAsValue);
                }
                match self.emit_move_ldloc(*index) {
                    Ok(()) => {},
                    Err(e) => {
                        return Err(e);
                    },
                }
                self.set_type(*index, BoundType::Null);
                Ok(())
            },
            Expr::MoveField { root, key } => self.compile_move_field(*root, key.as_str()),
            Expr::MoveIndex { root, index } => self.compile_move_index(*root, *index),
            Expr::IfElse { condition, then_expr, else_expr } => {
                self.compile_if_expr(env, condition, then_expr, else_expr, d)
            },
            Expr::Match { value_slot, result_slot, value, arms, default } => {
                self.compile_match(env, *value_slot, *result_slot, value, arms, default, d)
            },
            Expr::Block { stmts, expr } => {
                match self.compile_stmts(env, stmts, d) {
                    Ok(()) => {},
                    Err(e) => {
                        return Err(e);
                    },
                }
                self.compile_expr(env, expr, d)
            },
        }
    }

    fn bind_callable(&mut self, slot: LocalSlot, callable: CallableBinding)
        ensures
            final(self)@ == old(self)@.bind(slot, callable@),
    {
        let ghost before = self@.callables;
        match &callable {
            CallableBinding::Closure(closure) => self.type_state.bind_closure(slot, closure),
            CallableBinding::Function(index) => self.type_state.bind_function(slot, *index),
        }
        self.callable_bindings.insert(slot, callable);
        assert(self@.callables =~= before.insert(slot, callable@));
    }

    /// Puts the value of an expression into a local, or notes the callable that the local stands for.
    fn assign_expr_to_slot(
        &mut self,
        env: &GenEnv,
        slot: LocalSlot,
        expr: &Expr,
        depth: u64,
    ) -> (r: Result<(), CompileError>)
        requires
            below(old(self)@.labelling()),
        ensures
            done(r, final(self)@, gen_assign(env@, old(self)@, slot, expr@, depth as nat)),
            r is Ok ==> final(self)@.loops == old(self)@.loops,
            final(self)@.inlined == old(self)@.inlined,
            r is Ok ==> grows(old(self)@.out, final(self)@.out),
            r is Ok ==> leads(old(self)@.out, final(self)@.out, old(self)@.loops),
            no_dangling(r),
            orderly(r, old(self)@, final(self)@),
        decreases depth, 1nat,
    {
        match expr {
            Expr::Closure(closure) => {
                match self.bind_closure_captures(env, closure) {
                    Ok(()) => {},
                    Err(e) => {
                        return Err(e);
                    },
                }
                self.bind_callable(slot, CallableBinding::Closure(closure.clone()));
                return Ok(());
            },
            Expr::FunctionRef(index) => {
                self.bind_callable(slot, CallableBinding::Function(*index));
                return Ok(());
            },
            Expr::Var(index) => {
                let callable: Option<CallableBinding> = match self.callable_bindings.get(*index) {
                    Some(c) => Some(c.clone()),
                    None => None,
                };
                match callable {
                    Some(c) => {
                        self.bind_callable(slot, c);
                        return Ok(());
                    },
                    None => {},
                }
            },
            _ => {},
        }
        let ty = self.infer_bound_type(env, expr);
        let ghost before = self@.callables;
        self.callable_bindings.remove(slot);
        assert(self@.callables =~= before.remove(slot));
        match self.compile_expr(env, expr, depth) {
            Ok(()) => {},
            Err(e) => {
                return Err(e);
            },
        }
        match self.emit_stloc(slot) {
            Ok(()) => {},
            Err(e) => {
                return Err(e);
            },
        }
        self.set_type(slot, ty);
        Ok(())
    }

    /// Puts arguments into parameter slots.
    fn assign_args(
        &mut self,
        env: &GenEnv,
        param_slots: &Vec<LocalSlot>,
        args: &Vec<Expr>,
        depth: u64,
    ) -> (r: Result<(), CompileError>)
        requires
            below(old(self)@.labelling()),
            param_slots@.len() == args@.len(),
        ensures
            done(
                r,
                final(self)@,
                gen_args(env@, old(self)@, param_slots@, exprs_view(args@), 0, depth as nat),
            ),
            r is Ok ==> final(self)@.loops == old(self)@.loops,
            final(self)@.inlined == old(self)@.inlined,
            r is Ok ==> grows(old(self)@.out, final(self)@.out),
            r is Ok ==> leads(old(self)@.out, final(self)@.out, old(self)@.loops),
            no_dangling(r),
            orderly(r, old(self)@, final(self)@),
        decreases depth, 2nat,
    {
        let ghost total = gen_args(
            env@,
            self@,
            param_slots@,
            exprs_view(args@),
            0,
            depth as nat,
        );
        let mut i: usize = 0;
        while i < args.len()
            invariant
                i <= args@.len(),
                param_slots@.len() == args@.len(),
                total == gen_args(
                    env@,
                    old(self)@,
                    param_slots@,
                    exprs_view(args@),
                    0,
                    depth as nat,
                ),
                total == gen_args(
                    env@,
                    self@,
                    param_slots@,
                    exprs_view(args@),
                    i as int,
                    depth as nat,
                ),
                self@.loops == old(self)@.loops,
                self@.inlined == old(self)@.inlined,
                grows(old(self)@.out, self@.out),
                leads(old(self)@.out, self@.out, old(self)@.loops),
                below(self@.labelling()),
                goes_on_from(old(self)@.labelling(), self@.labelling()),
            decreases args@.len() - i,
        {
            match self.assign_expr_to_slot(env, param_slots[i], &args[i], depth) {
                Ok(()) => {},
                Err(e) => {
                    return Err(e);
                },
            }
            i += 1;
        }
        Ok(())
    }

    fn compile_inline_function_call(
        &mut self,
        env: &GenEnv,
        index: u16,
        function_impl: &FunctionImpl,
        args: &Vec<Expr>,
        depth: u64,
    ) -> (r: Result<(), CompileError>)
        requires
            below(old(self)@.labelling()),
            env@.types.impls.dom().contains(index),
            env@.types.impls[index] == function_impl@,
        ensures
            done(
                r,
                final(self)@,
                gen_inline_call(env@, old(self)@, index, exprs_view(args@), depth as nat),
            ),
            r is Ok ==> final(self)@.loops == old(self)@.loops,
            final(self)@.inlined == old(self)@.inlined,
            r is Ok ==> grows(old(self)@.out, final(self)@.out),
            r is Ok ==> leads(old(self)@.out, final(self)@.out, old(self)@.loops),
            no_dangling(r),
            function_impl.param_slots@.len() != args@.len() ==> r is Err && final(self)@
                == old(self)@,
            orderly(r, old(self)@, final(self)@),
        decreases depth, 3nat,
    {
        if function_impl.param_slots.len() != args.len() {
            return Err(
                CompileError::CallableArityMismatch {
                    expected: function_impl.param_slots.len(),
                    got: args.len(),
                },
            );
        }
        let frame_slots = collect_function_frame_slots(function_impl);
        let callable_snapshot = clone_callables(&self.callable_bindings);
        match self.assign_args(env, &function_impl.param_slots, args, depth) {
            Ok(()) => {},
            Err(e) => {
                return Err(e);
            },
        }
        if slots_contain(&self.inline_call_stack, index) {
            let mut message =
                "recursive RustScript function call detected for function index ".to_string();
            push_decimal(&mut message, index as u64);
            self.callable_bindings = callable_snapshot;
            return Err(CompileError::InlineFunctionRecursion(message));
        }
        let ghost outside = self.inline_call_stack@;
        self.inline_call_stack.push(index);
        let result = match self.compile_stmts(env, &function_impl.body_stmts, depth) {
            Ok(()) => self.compile_expr(env, &function_impl.body_expr, depth),
            Err(e) => Err(e),
        };
        self.inline_call_stack.pop();
        assert(self.inline_call_stack@ =~= outside);
        self.callable_bindings = callable_snapshot;
        match result {
            Ok(()) => self.emit_inline_frame_clears(&frame_slots),
            Err(e) => Err(e),
        }
    }

    fn compile_inline_closure_call(
        &mut self,
        env: &GenEnv,
        closure: &ClosureExpr,
        args: &Vec<Expr>,
        depth: u64,
    ) -> (r: Result<(), CompileError>)
        requires
            below(old(self)@.labelling()),
        ensures
            done(
                r,
                final(self)@,
                gen_closure_call(env@, old(self)@, closure@, exprs_view(args@), depth as nat),
            ),
            r is Ok ==> final(self)@.loops == old(self)@.loops,
            final(self)@.inlined == old(self)@.inlined,
            r is Ok ==> grows(old(self)@.out, final(self)@.out),
            r is Ok ==> leads(old(self)@.out, final(self)@.out, old(self)@.loops),
            no_dangling(r),
            closure.param_slots@.len() != args@.len() ==> r is Err && final(self)@ == old(self)@,
            orderly(r, old(self)@, final(self)@),
        decreases depth, 3nat,
    {
        assert(*closure@.body == closure.body@);
        if closure.param_slots.len() != args.len() {
            return Err(
                CompileError::CallableArityMismatch {
                    expected: closure.param_slots.len(),
                    got: args.len(),
                },
            );
        }
        let frame_slots = collect_closure_frame_slots(closure);
        let callable_snapshot = clone_callables(&self.callable_bindings);
        match self.assign_args(env, &closure.param_slots, args, depth) {
            Ok(()) => {},
            Err(e) => {
                return Err(e);
            },
        }
        let result = self.compile_expr(env, &closure.body, depth);
        self.callable_bindings = callable_snapshot;
        match result {
            Ok(()) => self.emit_inline_frame_clears(&frame_slots),
            Err(e) => Err(e),
        }
    }

    fn compile_direct_call(
        &mut self,
        env: &GenEnv,
        index: u16,
        args: &Vec<Expr>,
        depth: u64,
    ) -> (r: Result<(), CompileError>)
        requires
            below(old(self)@.labelling()),
        ensures
            done(
                r,
                final(self)@,
                gen_direct_call(env@, old(self)@, index, exprs_view(args@), depth as nat),
            ),
            r is Ok ==> final(self)@.loops == old(self)@.loops,
            final(self)@.inlined == old(self)@.inlined,
            r is Ok ==> grows(old(self)@.out, final(self)@.out),
            r is Ok ==> leads(old(self)@.out, final(self)@.out, old(self)@.loops),
            no_dangling(r),
            orderly(r, old(self)@, final(self)@),
        decreases depth, 3nat,
    {
        match self.compile_exprs(env, args, depth) {
            Ok(()) => {},
            Err(e) => {
                return Err(e);
            },
        }
        if args.len() > 255 {
            return Err(CompileError::CallArityOverflow);
        }
        let argc: u8 = args.len() as u8;
        let target: u16 = if BuiltinFunction::from_call_index(index).is_some() {
            index
        } else {
            match lookup(&env.call_index_remap, index) {
                Some(remapped) => *remapped,
                None => index,
            }
        };
        self.emit(Instr::Call(target, argc));
        Ok(())
    }

    fn compile_function_call(
        &mut self,
        env: &GenEnv,
        index: u16,
        args: &Vec<Expr>,
        depth: u64,
    ) -> (r: Result<(), CompileError>)
        requires
            below(old(self)@.labelling()),
        ensures
            done(
                r,
                final(self)@,
                gen_function_call(env@, old(self)@, index, exprs_view(args@), depth as nat),
            ),
            r is Ok ==> final(self)@.loops == old(self)@.loops,
            final(self)@.inlined == old(self)@.inlined,
            r is Ok ==> grows(old(self)@.out, final(self)@.out),
            r is Ok ==> leads(old(self)@.out, final(self)@.out, old(self)@.loops),
            no_dangling(r),
            orderly(r, old(self)@, final(self)@),
        decreases depth, 4nat,
    {
        match lookup(&env.function_impls, index) {
            Some(function_impl) => {
                self.compile_inline_function_call(env, index, function_impl, args, depth)
            },
            None => self.compile_direct_call(env, index, args, depth),
        }
    }

    fn compile_callable_call(
        &mut self,
        env: &GenEnv,
        callable: &CallableBinding,
        args: &Vec<Expr>,
        depth: u64,
    ) -> (r: Result<(), CompileError>)
        requires
            below(old(self)@.labelling()),
        ensures
            done(
                r,
                final(self)@,
                gen_callable_call(env@, old(self)@, callable@, exprs_view(args@), depth as nat),
            ),
            r is Ok ==> final(self)@.loops == old(self)@.loops,
            final(self)@.inlined == old(self)@.inlined,
            r is Ok ==> grows(old(self)@.out, final(self)@.out),
            r is Ok ==> leads(old(self)@.out, final(self)@.out, old(self)@.loops),
            no_dangling(r),
            orderly(r, old(self)@, final(self)@),
        decreases depth, 5nat,
    {
        match callable {
            CallableBinding::Closure(closure) => {
                self.compile_inline_closure_call(env, closure, args, depth)
            },
            CallableBinding::Function(index) => {
                self.compile_function_call(env, *index, args, depth)
            },
        }
    }

    // -----------------------------------------------------------------------
    // Statements.

    /// Runs a list of statements.
    fn compile_stmts(
        &mut self,
        env: &GenEnv,
        stmts: &Vec<Stmt>,
        depth: u64,
    ) -> (r: Result<(), CompileError>)
        requires
            below(old(self)@.labelling()),
        ensures
            done(r, final(self)@, gen_stmts(env@, old(self)@, stmts_view(stmts@), 0, depth as nat)),
            r is Ok ==> final(self)@.loops == old(self)@.loops,
            final(self)@.inlined == old(self)@.inlined,
            r is Ok ==> grows(old(self)@.out, final(self)@.out),
            r is Ok ==> leads(old(self)@.out, final(self)@.out, old(self)@.loops),
            no_dangling(r),
            orderly(r, old(self)@, final(self)@),
        decreases depth, 1nat,
    {
        let ghost total = gen_stmts(env@, self@, stmts_view(stmts@), 0, depth as nat);
        let mut i: usize = 0;
        while i < stmts.len()
            invariant
                i <= stmts@.len(),
                total == gen_stmts(env@, old(self)@, stmts_view(stmts@), 0, depth as nat),
                total == gen_stmts(env@, self@, stmts_view(stmts@), i as int, depth as nat),
                self@.loops == old(self)@.loops,
                self@.inlined == old(self)@.inlined,
                grows(old(self)@.out, self@.out),
                leads(old(self)@.out, self@.out, old(self)@.loops),
                below(self@.labelling()),
                goes_on_from(old(self)@.labelling(), self@.labelling()),
            decreases stmts@.len() - i,
        {
            match self.compile_stmt(env, &stmts[i], depth) {
                Ok(()) => {},
                Err(e) => {
                    return Err(e);
                },
            }
            i += 1;
        }
        Ok(())
    }

    fn compile_if(
        &mut self,
        env: &GenEnv,
        condition: &Expr,
        then_branch: &Vec<Stmt>,
        else_branch: &Vec<Stmt>,
        line: u32,
        depth: u64,
    ) -> (r: Result<(), CompileError>)
        requires
            below(old(self)@.labelling()),
        ensures
            done(
                r,
                final(self)@,
                gen_if(
                    env@,
                    old(self)@,
                    condition@,
                    stmts_view(then_branch@),
                    stmts_view(else_branch@),
                    line,
                    depth as nat,
                ),
            ),
            r is Ok ==> final(self)@.loops == old(self)@.loops,
            final(self)@.inlined == old(self)@.inlined,
            r is Ok ==> grows(old(self)@.out, final(self)@.out),
            r is Ok ==> leads(old(self)@.out, final(self)@.out, old(self)@.loops),
            no_dangling(r),
            orderly(r, old(self)@, final(self)@),
        decreases depth, 2nat,
    {
        let ghost start = self@.labelling();
        let callable_snapshot = clone_callables(&self.callable_bindings);
        let callables_after = clone_callables(&self.callable_bindings);
        let type_state_snapshot = self.type_state.clone();
        self.mark_line(line);
        let else_label = self.fresh_label("else", Ghost(start));
        let end_label = self.fresh_label("endif", Ghost(start));
        match self.compile_expr(env, condition, depth) {
            Ok(()) => {},
            Err(e) => {
                return Err(e);
            },
        }
        let ghost first = self@.out;
        self.brfalse_label(&else_label);
        match self.compile_stmts(env, then_branch, depth) {
            Ok(()) => {},
            Err(e) => {
                return Err(e);
            },
        }
        let then_type_state = self.type_state.clone();
        let ghost second = self@.out;
        self.br_label(&end_label);
        match self.place_label(&else_label, Ghost(start)) {
            Ok(()) => {},
            Err(e) => {
                return Err(e);
            },
        }
        let ghost placed = self@.out;
        self.callable_bindings = callable_snapshot;
        self.type_state = type_state_snapshot;
        match self.compile_stmts(env, else_branch, depth) {
            Ok(()) => {},
            Err(e) => {
                return Err(e);
            },
        }
        let else_type_state = self.type_state.clone();
        match self.place_label(&end_label, Ghost(start)) {
            Ok(()) => {},
            Err(e) => {
                return Err(e);
            },
        }
        proof {
            let loops = self@.loops;
            let on_false = Instr::BrFalse(else_label@);
            lemma_branch_placed(
                first.emit(on_false),
                second,
                Instr::Br(end_label@),
                end_label@,
                self@.out,
                self@.out,
                loops,
            );
            lemma_branch_placed(
                old(self)@.out,
                first,
                on_false,
                else_label@,
                placed,
                self@.out,
                loops,
            );
        }
        self.callable_bindings = callables_after;
        self.type_state.merge_from_branches(&then_type_state, &else_type_state);
        Ok(())
    }

    fn compile_for(
        &mut self,
        env: &GenEnv,
        stmt: &Stmt,
        init: &Stmt,
        condition: &Expr,
        post: &Stmt,
        body: &Vec<Stmt>,
        line: u32,
        depth: u64,
    ) -> (r: Result<(), CompileError>)
        requires
            below(old(self)@.labelling()),
        ensures
            done(
                r,
                final(self)@,
                gen_for(
                    env@,
                    old(self)@,
                    init@,
                    condition@,
                    post@,
                    stmts_view(body@),
                    line,
                    stmt@,
                    depth as nat,
                ),
            ),
            r is Ok ==> final(self)@.loops == old(self)@.loops,
            final(self)@.inlined == old(self)@.inlined,
            r is Ok ==> grows(old(self)@.out, final(self)@.out),
            r is Ok ==> leads(old(self)@.out, final(self)@.out, old(self)@.loops),
            no_dangling(r),
            orderly(r, old(self)@, final(self)@),
        decreases depth, 2nat,
    {
        let ghost start = self@.labelling();
        let callable_snapshot = clone_callables(&self.callable_bindings);
        let loop_entry_type_state = self.type_state.clone();
        self.mark_line(line);
        match self.compile_stmt(env, init, depth) {
            Ok(()) => {},
            Err(e) => {
                return Err(e);
            },
        }
        let start_label = self.fresh_label("for_start", Ghost(start));
        let continue_label = self.fresh_label("for_continue", Ghost(start));
        let end_label = self.fresh_label("for_end", Ghost(start));
        match self.place_label(&start_label, Ghost(start)) {
            Ok(()) => {},
            Err(e) => {
                return Err(e);
            },
        }
        let ghost started = self@.out;
        match self.compile_expr(env, condition, depth) {
            Ok(()) => {},
            Err(e) => {
                return Err(e);
            },
        }
        let ghost first = self@.out;
        self.brfalse_label(&end_label);
        let ghost inside = self@.out;
        let ghost outside = self.loop_stack@;
        let ghost labels = self@.loops;
        self.loop_stack.push(
            LoopContext { continue_label: continue_label.clone(), break_label: end_label.clone() },
        );
        assert(self@.loops =~= labels.push((continue_label@, end_label@)));
        match self.compile_stmts(env, body, depth) {
            Ok(()) => {},
            Err(e) => {
                return Err(e);
            },
        }
        proof {
            assert(self@.loops.len() == labels.len() + 1);
        }
        self.loop_stack.pop();
        assert(self@.loops =~= labels.push((continue_label@, end_label@)).drop_last());
        assert(self@.loops =~= labels);
        let ghost body_end = self@.out;
        match self.place_label(&continue_label, Ghost(start)) {
            Ok(()) => {},
            Err(e) => {
                return Err(e);
            },
        }
        let ghost continued = self@.out;
        match self.compile_stmt(env, post, depth) {
            Ok(()) => {},
            Err(e) => {
                return Err(e);
            },
        }
        let ghost last = self@.out;
        self.br_label(&start_label);
        match self.place_label(&end_label, Ghost(start)) {
            Ok(()) => {},
            Err(e) => {
                return Err(e);
            },
        }
        proof {
            let end = self@.out;
            lemma_branch_placed(
                body_end,
                last,
                Instr::Br(start_label@),
                start_label@,
                started,
                end,
                labels,
            );
            lemma_loop_closed(
                inside,
                body_end,
                end,
                continued,
                end,
                continue_label@,
                end_label@,
                labels,
            );
            lemma_branch_placed(
                old(self)@.out,
                first,
                Instr::BrFalse(end_label@),
                end_label@,
                end,
                end,
                labels,
            );
        }
        self.callable_bindings = callable_snapshot;
        self.type_state = Self::simulate_stmt_type_state(env, stmt, &loop_entry_type_state);
        Ok(())
    }

    fn compile_while(
        &mut self,
        env: &GenEnv,
        stmt: &Stmt,
        condition: &Expr,
        body: &Vec<Stmt>,
        line: u32,
        depth: u64,
    ) -> (r: Result<(), CompileError>)
        requires
            below(old(self)@.labelling()),
        ensures
            done(
                r,
                final(self)@,
                gen_while(
                    env@,
                    old(self)@,
                    condition@,
                    stmts_view(body@),
                    line,
                    stmt@,
                    depth as nat,
                ),
            ),
            r is Ok ==> final(self)@.loops == old(self)@.loops,
            final(self)@.inlined == old(self)@.inlined,
            r is Ok ==> grows(old(self)@.out, final(self)@.out),
            r is Ok ==> leads(old(self)@.out, final(self)@.out, old(self)@.loops),
            no_dangling(r),
            orderly(r, old(self)@, final(self)@),
        decreases depth, 2nat,
    {
        let ghost start = self@.labelling();
        let callable_snapshot = clone_callables(&self.callable_bindings);
        let loop_entry_type_state = self.type_state.clone();
        self.mark_line(line);
        let start_label = self.fresh_label("while_start", Ghost(start));
        let end_label = self.fresh_label("while_end", Ghost(start));
        match self.place_label(&start_label, Ghost(start)) {
            Ok(()) => {},
            Err(e) => {
                return Err(e);
            },
        }
        let ghost started = self@.out;
        match self.compile_expr(env, condition, depth) {
            Ok(()) => {},
            Err(e) => {
                return Err(e);
            },
        }
        let ghost first = self@.out;
        self.brfalse_label(&end_label);
        let ghost inside = self@.out;
        let ghost outside = self.loop_stack@;
        let ghost labels = self@.loops;
        self.loop_stack.push(
            LoopContext { continue_label: start_label.clone(), break_label: end_label.clone() },
        );
        assert(self@.loops =~= labels.push((start_label@, end_label@)));
        match self.compile_stmts(env, body, depth) {
            Ok(()) => {},
            Err(e) => {
                return Err(e);
            },
        }
        proof {
            assert(self@.loops.len() == labels.len() + 1);
        }
        self.loop_stack.pop();
        assert(self@.loops =~= labels.push((start_label@, end_label@)).drop_last());
        assert(self@.loops =~= labels);
        let ghost body_end = self@.out;
        self.br_label(&start_label);
        match self.place_label(&end_label, Ghost(start)) {
            Ok(()) => {},
            Err(e) => {
                return Err(e);
            },
        }
        proof {
            let end = self@.out;
            lemma_branch_placed(
                body_end,
                body_end,
                Instr::Br(start_label@),
                start_label@,
                started,
                end,
                labels,
            );
            lemma_loop_closed(
                inside,
                body_end,
                end,
                started,
                end,
                start_label@,
                end_label@,
                labels,
            );
            lemma_branch_placed(
                old(self)@.out,
                first,
                Instr::BrFalse(end_label@),
                end_label@,
                end,
                end,
                labels,
            );
        }
        self.callable_bindings = callable_snapshot;
        self.type_state = Self::simulate_stmt_type_state(env, stmt, &loop_entry_type_state);
        Ok(())
    }

    /// Runs a statement.
    fn compile_stmt(
        &mut self,
        env: &GenEnv,
        stmt: &Stmt,
        depth: u64,
    ) -> (r: Result<(), CompileError>)
        requires
            below(old(self)@.labelling()),
        ensures
            done(r, final(self)@, gen_stmt(env@, old(self)@, stmt@, depth as nat)),
            r is Ok ==> final(self)@.loops == old(self)@.loops,
            final(self)@.inlined == old(self)@.inlined,
            r is Ok ==> grows(old(self)@.out, final(self)@.out),
            r is Ok ==> leads(old(self)@.out, final(self)@.out, old(self)@.loops),
            no_dangling(r),
            orderly(r, old(self)@, final(self)@),
        decreases depth, 0nat,
    {
        if depth == 0 {
            return Err(CompileError::InlineDepthExceeded);
        }
        let d: u64 = depth - 1;
        match stmt {
            Stmt::Noop { line } => {
                self.mark_line(*line);
                Ok(())
            },
            Stmt::Let { index, expr, line } | Stmt::Assign { index, expr, line } => {
                self.mark_line(*line);
                self.assign_expr_to_slot(env, *index, expr, d)
            },
            Stmt::ClosureLet { line, closure } => {
                self.mark_line(*line);
                self.bind_closure_captures(env, closure)
            },
            Stmt::FuncDecl { index, line, .. } => {
                self.mark_line(*line);
                match lookup(&env.function_impls, *index) {
                    Some(function_impl) => self.bind_function_captures(env, function_impl),
                    None => Ok(()),
                }
            },
            Stmt::Expr { expr, line } => {
                self.mark_line(*line);
                self.compile_expr(env, expr, d)
            },
            Stmt::IfElse { condition, then_branch, else_branch, line } => {
                self.compile_if(env, condition, then_branch, else_branch, *line, d)
            },
            Stmt::For { init, condition, post, body, line } => {
                self.compile_for(env, stmt, init, condition, post, body, *line, d)
            },
            Stmt::While { condition, body, line } => {
                self.compile_while(env, stmt, condition, body, *line, d)
            },
            Stmt::Break { line } => {
                self.mark_line(*line);
                let n: usize = self.loop_stack.len();
                if n == 0 {
                    return Err(CompileError::BreakOutsideLoop);
                }
                let label = self.loop_stack[n - 1].break_label.clone();
                proof {
                    lemma_branch_in_loop(self@.out, Instr::Br(label@), n - 1, self@.loops);
                }
                self.br_label(&label);
                Ok(())
            },
            Stmt::Continue { line } => {
                self.mark_line(*line);
                let n: usize = self.loop_stack.len();
                if n == 0 {
                    return Err(CompileError::ContinueOutsideLoop);
                }
                let label = self.loop_stack[n - 1].continue_label.clone();
                proof {
                    lemma_branch_in_loop(self@.out, Instr::Br(label@), n - 1, self@.loops);
                }
                self.br_label(&label);
                Ok(())
            },
            Stmt::Drop { index, line } => {
                self.mark_line(*line);
                self.assign_expr_to_slot(env, *index, &Expr::Null, d)
            },
        }
    }

    /// Runs the statements of a program.
    pub fn compile_all(&mut self, env: &GenEnv, stmts: &[Stmt]) -> (r: Result<(), CompileError>)
        requires
            below(old(self)@.labelling()),
        ensures
            done(
                r,
                final(self)@,
                gen_stmts(env@, old(self)@, stmts_view(stmts@), 0, MAX_DEPTH as nat),
            ),
            r is Ok ==> final(self)@.loops == old(self)@.loops,
            final(self)@.inlined == old(self)@.inlined,
            r is Ok ==> grows(old(self)@.out, final(self)@.out),
            r is Ok ==> leads(old(self)@.out, final(self)@.out, old(self)@.loops),
            no_dangling(r),
            orderly(r, old(self)@, final(self)@),
            r is Ok ==> below(final(self)@.labelling()),
    {
        let ghost total = gen_stmts(env@, self@, stmts_view(stmts@), 0, MAX_DEPTH as nat);
        let mut i: usize = 0;
        while i < stmts.len()
            invariant
                i <= stmts@.len(),
                total == gen_stmts(env@, old(self)@, stmts_view(stmts@), 0, MAX_DEPTH as nat),
                total == gen_stmts(env@, self@, stmts_view(stmts@), i as int, MAX_DEPTH as nat),
                self@.loops == old(self)@.loops,
                self@.inlined == old(self)@.inlined,
                grows(old(self)@.out, self@.out),
                leads(old(self)@.out, self@.out, old(self)@.loops),
                below(self@.labelling()),
                goes_on_from(old(self)@.labelling(), self@.labelling()),
            decreases stmts@.len() - i,
        {
            match self.compile_stmt(env, &stmts[i], MAX_DEPTH) {
                Ok(()) => {},
                Err(e) => {
                    return Err(e);
                },
            }
            i += 1;
        }
        Ok(())
    }

    /// Ends the code with a return and resolves its labels.
    pub fn finish(self, debug: DebugInfo) -> (r: Result<
        (Program, Vec<(usize, (ValueType, ValueType))>),
        AssemblerError,
    >)
        ensures
            match placed_from(
                self@.emit(Instr::Ret).out.code,
                self@.emit(Instr::Ret).out.labels,
                0,
            ) {
                Ok(code) => r matches Ok((p, operands)) && placed_code_view(p.code@) == code
                    && p.lines@ == self@.emit(Instr::Ret).out.lines && p.debug == debug && operands@
                    == self@.emit(Instr::Ret).operands,
                Err(e) => r matches Err(x) && x@ == e,
            },
    {
        let mut this = self;
        this.emit(Instr::Ret);
        match this.assembler.finish_program(debug) {
            Ok(program) => Ok((program, this.operand_types)),
            Err(e) => Err(e),
        }
    }
}

/// The exponent of a power of two that an expression is a literal of.
fn literal_shift(expr: &Expr) -> (r: Option<u32>)
    ensures
        r is Some <==> shift_of(expr@) is Some,
        r matches Some(shift) ==> shift_of(expr@) == Some(shift as int),
{
    match expr {
        Expr::Int(value) => {
            let r = shift_amount_for_power_of_two(*value);
            proof {
                if r is Some {
                    let shift = r->0;
                    let n = choose|n: nat| *value == power_of_two(n);
                    assert(*value == power_of_two(shift as nat));
                    lemma_power_unique(n, shift as nat);
                }
            }
            r
        },
        _ => None,
    }
}

} // verus!
