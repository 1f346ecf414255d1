//! The compiler: from statements to a program.

use std::collections::HashMap;
use vstd::prelude::*;
use crate::assembler::{
    branch_target, law_branches_lead_into_the_code, placed_code_view, placed_from, placed_view,
    DebugInfo, Instr, LocalDebug, Program, TypeMap, ValueV,
};
use crate::codegen::{local_slot_operand, CodeGen, GenEnv};
use crate::errors::{CompileError, CompileErrorV};
use crate::generation::{gen_stmts, GenEnvV, GenV, MAX_DEPTH};
use crate::ir::{
    clone_strings, stmts_view, strings_view, FunctionDecl, FunctionImpl, LocalSlot, Stmt, StmtV,
    ValueType,
};
use crate::types::{BoundType, HostCallableSignature, TypeInferenceResult};

verus! {

/// A program ready to run, with what its host has to know.
#[derive(Debug)]
pub struct CompiledProgram {
    pub program: Program,
    pub locals: usize,
    pub functions: Vec<FunctionDecl>,
}

/// A local that a session keeps between programs.
#[derive(Debug)]
pub struct ReplLocalBinding {
    pub name: String,
    pub mutable: bool,
}

/// A program of a session, with the locals that it leaves.
#[derive(Debug)]
pub struct CompiledReplProgram {
    pub compiled: CompiledProgram,
    pub bindings: Vec<ReplLocalBinding>,
}

/// The model of what the compiler makes of statements.
pub struct ProgramV {
    pub code: Seq<Instr<ValueV, usize>>,
    pub lines: Seq<(usize, u32)>,
    pub operand_types: Seq<(usize, (ValueType, ValueType))>,
}

/// The program that statements become: their code and a return, with every label
/// resolved.
pub open spec fn compiled(env: GenEnvV, stmts: Seq<StmtV>) -> Result<ProgramV, CompileErrorV> {
    match gen_stmts(env, GenV::initial(), stmts, 0, MAX_DEPTH as nat) {
        Ok(g) => {
            let end = g.emit(Instr::Ret);
            match placed_from(end.out.code, end.out.labels, 0) {
                Ok(code) => Ok(
                    ProgramV { code, lines: end.out.lines, operand_types: end.operands },
                ),
                Err(e) => Err(CompileErrorV::Assembler(e)),
            }
        },
        Err((e, _)) => Err(e),
    }
}

/// A compiler and what it was told about the program.
pub struct Compiler {
    pub env: GenEnv,
    pub debug: DebugInfo,
    pub local_types: Vec<ValueType>,
}

impl Default for Compiler {
    fn default() -> (r: Self)
        ensures
            r.is_fresh(),
    {
        Compiler::new()
    }
}

impl Compiler {
    /// A compiler that was told nothing yet.
    pub open spec fn is_fresh(&self) -> bool {
        &&& self.env.function_impls@ == Map::<u16, FunctionImpl>::empty()
        &&& self.env.host_import_return_types@ == Map::<u16, BoundType>::empty()
        &&& self.env.host_import_signatures@ == Map::<u16, HostCallableSignature>::empty()
        &&& self.env.call_index_remap@ == Map::<u16, u16>::empty()
        &&& !self.env.enable_local_move_semantics
        &&& self.debug.source is None
        &&& self.debug.functions@.len() == 0
        &&& self.debug.locals@.len() == 0
        &&& self.local_types@.len() == 0
    }

    pub fn new() -> (r: Self)
        ensures
            r.is_fresh(),
    {
        Compiler {
            env: GenEnv {
                function_impls: HashMap::new(),
                host_import_return_types: HashMap::new(),
                host_import_signatures: HashMap::new(),
                call_index_remap: HashMap::new(),
                enable_local_move_semantics: false,
            },
            debug: DebugInfo::new(),
            local_types: Vec::new(),
        }
    }

    pub fn set_source(&mut self, source: String)
        ensures
            *final(self) == (Compiler {
                debug: DebugInfo { source: Some(source), ..old(self).debug },
                ..*old(self)
            }),
    {
        self.debug.set_source(source);
    }

    pub fn add_function_debug(&mut self, func: &FunctionDecl)
        ensures
            final(self).env == old(self).env,
            final(self).local_types == old(self).local_types,
            final(self).debug.source == old(self).debug.source,
            final(self).debug.locals == old(self).debug.locals,
            final(self).debug.functions@.len() == old(self).debug.functions@.len() + 1,
            final(self).debug.functions@.drop_last() == old(self).debug.functions@,
            final(self).debug.functions@.last().name@ == func.name@,
            strings_view(final(self).debug.functions@.last().args@) == strings_view(func.args@),
    {
        self.debug.add_function(func.name.clone(), clone_strings(&func.args));
        assert(self.debug.functions@.drop_last() =~= old(self).debug.functions@);
    }

    pub fn add_local_debug(
        &mut self,
        name: String,
        index: LocalSlot,
        declared_line: Option<u32>,
        last_line: Option<u32>,
    ) -> (r: Result<(), CompileError>)
        ensures
            index > 255 ==> r is Err && r->Err_0@ == CompileErrorV::LocalSlotOverflow(index)
                && *final(self) == *old(self),
            index <= 255 ==> r is Ok && final(self).env == old(self).env
                && final(self).local_types == old(self).local_types && final(self).debug.source
                == old(self).debug.source && final(self).debug.functions
                == old(self).debug.functions && final(self).debug.locals@
                == old(self).debug.locals@.push(
                LocalDebug { name, slot: index as u8, declared_line, last_line },
            ),
    {
        match local_slot_operand(index) {
            Ok(slot) => {
                self.debug.add_local_with_range(name, slot, declared_line, last_line);
                Ok(())
            },
            Err(e) => Err(e),
        }
    }

    pub fn set_function_impls(&mut self, function_impls: HashMap<u16, FunctionImpl>)
        ensures
            *final(self) == (Compiler {
                env: GenEnv { function_impls, ..old(self).env },
                ..*old(self)
            }),
    {
        self.env.function_impls = function_impls;
    }

    pub fn set_host_import_return_types(
        &mut self,
        host_import_return_types: HashMap<u16, BoundType>,
    )
        ensures
            *final(self) == (Compiler {
                env: GenEnv { host_import_return_types, ..old(self).env },
                ..*old(self)
            }),
    {
        self.env.host_import_return_types = host_import_return_types;
    }

    pub fn set_host_import_signatures(
        &mut self,
        host_import_signatures: HashMap<u16, HostCallableSignature>,
    )
        ensures
            *final(self) == (Compiler {
                env: GenEnv { host_import_signatures, ..old(self).env },
                ..*old(self)
            }),
    {
        self.env.host_import_signatures = host_import_signatures;
    }

    pub fn set_call_index_remap(&mut self, call_index_remap: HashMap<u16, u16>)
        ensures
            *final(self) == (Compiler {
                env: GenEnv { call_index_remap, ..old(self).env },
                ..*old(self)
            }),
    {
        self.env.call_index_remap = call_index_remap;
    }

    pub fn set_enable_local_move_semantics(&mut self, enable_local_move_semantics: bool)
        ensures
            *final(self) == (Compiler {
                env: GenEnv { enable_local_move_semantics, ..old(self).env },
                ..*old(self)
            }),
    {
        self.env.enable_local_move_semantics = enable_local_move_semantics;
    }

    pub fn set_type_inference(&mut self, type_info: TypeInferenceResult)
        ensures
            *final(self) == (Compiler { local_types: type_info.local_types, ..*old(self) }),
    {
        self.local_types = type_info.local_types;
    }

    /// Compiles statements.
    pub fn compile_program(self, stmts: &[Stmt]) -> (r: Result<Program, CompileError>)
        ensures
            match compiled(self.env@, stmts_view(stmts@)) {
                Ok(program) => r is Ok && placed_code_view(r->Ok_0.code@) == program.code
                    && r->Ok_0.lines@ == program.lines && r->Ok_0.debug == self.debug
                    && r->Ok_0.type_map is Some && r->Ok_0.type_map->0.local_types
                    == self.local_types && r->Ok_0.type_map->0.operand_types@
                    == program.operand_types,
                Err(e) => r is Err && r->Err_0@ == e,
            },
            r matches Ok(p) ==> forall|k: int|
                0 <= k < p.code@.len() ==> (branch_target(#[trigger] p.code@[k]) matches Some(t)
                    ==> t < p.code@.len()),
            r matches Err(CompileError::Assembler(e)) ==> e is DuplicateLabel,
    {
        let mut gen = CodeGen::new();
        match gen.compile_all(&self.env, stmts) {
            Ok(()) => {},
            Err(e) => {
                return Err(e);
            },
        }
        let ghost out = gen@.out;
        proof {
            law_branches_lead_into_the_code(out);
        }
        match gen.finish(self.debug) {
            Ok((program, operand_types)) => {
                assert forall|k: int| 0 <= k < program.code@.len() implies (branch_target(
                    #[trigger] program.code@[k],
                ) matches Some(t) ==> t < program.code@.len()) by {
                    assert(placed_code_view(program.code@)[k] == placed_view(program.code@[k]));
                }
                Ok(
                    Program {
                        code: program.code,
                        lines: program.lines,
                        debug: program.debug,
                        type_map: Some(TypeMap { local_types: self.local_types, operand_types }),
                    },
                )
            },
            Err(e) => Err(CompileError::Assembler(e)),
        }
    }
}

} // verus!
