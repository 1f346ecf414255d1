//! A verified compiler front end and code generator for a family of small
//! scripting dialects.

use vstd::prelude::*;

pub mod assembler;
pub mod binding_laws;
pub mod builtins;
pub mod callable_laws;
pub mod captures;
pub mod check;
pub mod check_laws;
pub mod codegen;
pub mod compile_laws;
pub mod compiler;
pub mod consts;
pub mod errors;
pub mod format;
pub mod format_laws;
pub mod fractions;
pub mod generation;
pub mod grammar;
pub mod grammar_laws;
pub mod host;
pub mod import_laws;
pub mod imports;
pub mod infer;
pub mod inference_laws;
pub mod ir;
pub mod labels;
pub mod layout;
pub mod legalize;
pub mod lexer;
pub mod lexer_laws;
pub mod line_map;
pub mod lint;
pub mod loader;
pub mod machine;
pub mod meaning_laws;
pub mod modules;
pub mod name_laws;
pub mod names;
pub mod namespaces;
pub mod naturals;
pub mod options;
pub mod param_add;
pub mod parser;
pub mod part_laws;
pub mod paths;
pub mod rewrite;
pub mod scan;
pub mod schema;
pub mod shape_laws;
pub mod shapes;
pub mod slots;
pub mod template;
pub mod source_map;
pub mod statement_laws;
pub mod tables;
pub mod text;
pub mod text_laws;
pub mod type_laws;
pub mod types;
pub mod typing;
pub mod values;
pub mod walk;

verus! {

} // verus!
