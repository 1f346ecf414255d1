//! What can go wrong between a source text and a program.

use vstd::prelude::*;
use crate::assembler::{AssemblerError, AssemblerErrorV};
use crate::ir::LocalSlot;
use crate::source_map::{byte_offset, line_at, SourceMap, Span};
use crate::text::{decimal, push_decimal};

verus! {

/// Why a tree could not be turned into code.
#[derive(Debug)]
pub enum CompileError {
    Assembler(AssemblerError),
    CallArityOverflow,
    ClosureUsedAsValue,
    CallableUsedAsValue,
    NonCallableLocal(LocalSlot),
    LocalSlotOverflow(LocalSlot),
    CallableArityMismatch { expected: usize, got: usize },
    BreakOutsideLoop,
    ContinueOutsideLoop,
    InlineFunctionRecursion(String),
    /// Bodies nested in bodies without end, as when a closure calls itself.
    InlineDepthExceeded,
    IfElseBranchTypeMismatch {
        line: Option<u32>,
        source_name: Option<String>,
        detail: String,
    },
    CallableArgumentTypeMismatch {
        line: Option<u32>,
        source_name: Option<String>,
        detail: String,
    },
    BinaryOperandTypeMismatch {
        line: Option<u32>,
        source_name: Option<String>,
        detail: String,
    },
    FunctionParameterTypeConflict {
        line: Option<u32>,
        source_name: Option<String>,
        detail: String,
    },
}

/// The model of a type error: where it was found and what it says.
pub struct TypeErrorV {
    pub line: Option<u32>,
    pub source_name: Option<Seq<char>>,
    pub detail: Seq<char>,
}

/// The model of a compile error.
pub enum CompileErrorV {
    Assembler(AssemblerErrorV),
    CallArityOverflow,
    ClosureUsedAsValue,
    CallableUsedAsValue,
    NonCallableLocal(LocalSlot),
    LocalSlotOverflow(LocalSlot),
    CallableArityMismatch(nat, nat),
    BreakOutsideLoop,
    ContinueOutsideLoop,
    InlineFunctionRecursion(Seq<char>),
    InlineDepthExceeded,
    IfElseBranchTypeMismatch(TypeErrorV),
    CallableArgumentTypeMismatch(TypeErrorV),
    BinaryOperandTypeMismatch(TypeErrorV),
    FunctionParameterTypeConflict(TypeErrorV),
}

/// The contents of an optional string.
pub open spec fn opt_text(s: Option<String>) -> Option<Seq<char>> {
    match s {
        Some(t) => Some(t@),
        None => None,
    }
}

/// The model of a type error.
pub open spec fn type_error_view(
    line: Option<u32>,
    source_name: Option<String>,
    detail: String,
) -> TypeErrorV {
    TypeErrorV { line, source_name: opt_text(source_name), detail: detail@ }
}

impl CompileErrorV {
    /// The type error that a compile error holds, where it is one.
    pub open spec fn type_error(self) -> Option<TypeErrorV> {
        match self {
            CompileErrorV::IfElseBranchTypeMismatch(e) => Some(e),
            CompileErrorV::CallableArgumentTypeMismatch(e) => Some(e),
            CompileErrorV::BinaryOperandTypeMismatch(e) => Some(e),
            CompileErrorV::FunctionParameterTypeConflict(e) => Some(e),
            _ => None,
        }
    }

    /// The error in words.
    pub open spec fn text(self) -> Seq<char> {
        match self {
            CompileErrorV::Assembler(e) => e.text(),
            CompileErrorV::CallArityOverflow => {
                "call arity exceeds the supported bytecode encoding"@
            },
            CompileErrorV::ClosureUsedAsValue => "closures cannot be used as plain values"@,
            CompileErrorV::CallableUsedAsValue => "callables cannot be used as plain values"@,
            CompileErrorV::NonCallableLocal(slot) => "local slot "@ + decimal(slot as nat)
                + " is not callable"@,
            CompileErrorV::LocalSlotOverflow(slot) => "local slot "@ + decimal(slot as nat)
                + " exceeds the supported bytecode encoding"@,
            CompileErrorV::CallableArityMismatch(expected, got) => {
                "callable arity mismatch: expected "@ + decimal(expected) + ", got "@ + decimal(got)
            },
            CompileErrorV::BreakOutsideLoop => "break used outside of a loop"@,
            CompileErrorV::ContinueOutsideLoop => "continue used outside of a loop"@,
            CompileErrorV::InlineFunctionRecursion(name) => {
                "inline function recursion detected in '"@ + name + "'"@
            },
            CompileErrorV::InlineDepthExceeded => "inline calls are nested without end"@,
            CompileErrorV::IfElseBranchTypeMismatch(e) => e.detail,
            CompileErrorV::CallableArgumentTypeMismatch(e) => e.detail,
            CompileErrorV::BinaryOperandTypeMismatch(e) => e.detail,
            CompileErrorV::FunctionParameterTypeConflict(e) => e.detail,
        }
    }
}

impl CompileError {
    pub open spec fn view(&self) -> CompileErrorV {
        match self {
            CompileError::Assembler(e) => CompileErrorV::Assembler(e@),
            CompileError::CallArityOverflow => CompileErrorV::CallArityOverflow,
            CompileError::ClosureUsedAsValue => CompileErrorV::ClosureUsedAsValue,
            CompileError::CallableUsedAsValue => CompileErrorV::CallableUsedAsValue,
            CompileError::NonCallableLocal(slot) => CompileErrorV::NonCallableLocal(*slot),
            CompileError::LocalSlotOverflow(slot) => CompileErrorV::LocalSlotOverflow(*slot),
            CompileError::CallableArityMismatch { expected, got } => {
                CompileErrorV::CallableArityMismatch(*expected as nat, *got as nat)
            },
            CompileError::BreakOutsideLoop => CompileErrorV::BreakOutsideLoop,
            CompileError::ContinueOutsideLoop => CompileErrorV::ContinueOutsideLoop,
            CompileError::InlineFunctionRecursion(name) => {
                CompileErrorV::InlineFunctionRecursion(name@)
            },
            CompileError::InlineDepthExceeded => CompileErrorV::InlineDepthExceeded,
            CompileError::IfElseBranchTypeMismatch { line, source_name, detail } => {
                CompileErrorV::IfElseBranchTypeMismatch(
                    type_error_view(*line, *source_name, *detail),
                )
            },
            CompileError::CallableArgumentTypeMismatch { line, source_name, detail } => {
                CompileErrorV::CallableArgumentTypeMismatch(
                    type_error_view(*line, *source_name, *detail),
                )
            },
            CompileError::BinaryOperandTypeMismatch { line, source_name, detail } => {
                CompileErrorV::BinaryOperandTypeMismatch(
                    type_error_view(*line, *source_name, *detail),
                )
            },
            CompileError::FunctionParameterTypeConflict { line, source_name, detail } => {
                CompileErrorV::FunctionParameterTypeConflict(
                    type_error_view(*line, *source_name, *detail),
                )
            },
        }
    }

    /// The line of a type error, where it is known.
    pub fn line(&self) -> (r: Option<usize>)
        ensures
            r == match self@.type_error() {
                Some(e) => match e.line {
                    Some(line) => Some(line as usize),
                    None => None,
                },
                None => None,
            },
    {
        match self {
            CompileError::IfElseBranchTypeMismatch { line, .. } => line_number(*line),
            CompileError::CallableArgumentTypeMismatch { line, .. } => line_number(*line),
            CompileError::BinaryOperandTypeMismatch { line, .. } => line_number(*line),
            CompileError::FunctionParameterTypeConflict { line, .. } => line_number(*line),
            _ => None,
        }
    }

    /// The source of a type error, where it is known.
    pub fn source_name(&self) -> (r: Option<&str>)
        ensures
            match self@.type_error() {
                Some(e) => match e.source_name {
                    Some(name) => r is Some && r->0@ == name,
                    None => r is None,
                },
                None => r is None,
            },
    {
        match self {
            CompileError::IfElseBranchTypeMismatch { source_name, .. } => name_of(source_name),
            CompileError::CallableArgumentTypeMismatch { source_name, .. } => name_of(source_name),
            CompileError::BinaryOperandTypeMismatch { source_name, .. } => name_of(source_name),
            CompileError::FunctionParameterTypeConflict { source_name, .. } => {
                name_of(source_name)
            },
            _ => None,
        }
    }

    /// The error in words.
    pub fn diagnostic_message(&self) -> (r: String)
        ensures
            r@ == self@.text(),
    {
        match self {
            CompileError::Assembler(err) => err.message(),
            CompileError::CallArityOverflow => {
                "call arity exceeds the supported bytecode encoding".to_string()
            },
            CompileError::ClosureUsedAsValue => {
                "closures cannot be used as plain values".to_string()
            },
            CompileError::CallableUsedAsValue => {
                "callables cannot be used as plain values".to_string()
            },
            CompileError::NonCallableLocal(slot) => {
                let mut out = "local slot ".to_string();
                push_decimal(&mut out, *slot as u64);
                out.push_str(" is not callable");
                out
            },
            CompileError::LocalSlotOverflow(slot) => {
                let mut out = "local slot ".to_string();
                push_decimal(&mut out, *slot as u64);
                out.push_str(" exceeds the supported bytecode encoding");
                out
            },
            CompileError::CallableArityMismatch { expected, got } => {
                let mut out = "callable arity mismatch: expected ".to_string();
                push_decimal(&mut out, *expected as u64);
                out.push_str(", got ");
                push_decimal(&mut out, *got as u64);
                out
            },
            CompileError::BreakOutsideLoop => "break used outside of a loop".to_string(),
            CompileError::ContinueOutsideLoop => "continue used outside of a loop".to_string(),
            CompileError::InlineFunctionRecursion(name) => {
                let mut out = "inline function recursion detected in '".to_string();
                out.push_str(name.as_str());
                out.push_str("'");
                out
            },
            CompileError::InlineDepthExceeded => "inline calls are nested without end".to_string(),
            CompileError::IfElseBranchTypeMismatch { detail, .. } => detail.clone(),
            CompileError::CallableArgumentTypeMismatch { detail, .. } => detail.clone(),
            CompileError::BinaryOperandTypeMismatch { detail, .. } => detail.clone(),
            CompileError::FunctionParameterTypeConflict { detail, .. } => detail.clone(),
        }
    }
}

fn line_number(line: Option<u32>) -> (r: Option<usize>)
    ensures
        r == match line {
            Some(n) => Some(n as usize),
            None => None,
        },
{
    match line {
        Some(n) => Some(n as usize),
        None => None,
    }
}

fn name_of(name: &Option<String>) -> (r: Option<&str>)
    ensures
        r is Some <==> name is Some,
        r matches Some(s) ==> s@ == name->0@,
{
    match name {
        Some(s) => Some(s.as_str()),
        None => None,
    }
}

/// Why a source text could not be parsed.
#[derive(Debug)]
pub struct ParseError {
    pub line: usize,
    pub message: String,
    pub span: Option<Span>,
    pub code: Option<String>,
}

/// The model of a parse error.
pub struct ParseErrorV {
    pub line: usize,
    pub message: Seq<char>,
    pub span: Option<Span>,
    pub code: Option<Seq<char>>,
}

/// A parse error at a line.
pub open spec fn parse_error(line: usize, message: Seq<char>) -> ParseErrorV {
    ParseErrorV { line, message, span: None, code: None }
}

impl ParseErrorV {
    /// The error in words.
    pub open spec fn text(self) -> Seq<char> {
        match self.span {
            Some(span) => self.message + " (source "@ + decimal(span.source_id as nat) + " ["@
                + decimal(span.lo as nat) + ".."@ + decimal(span.hi as nat) + "])"@,
            None => "line "@ + decimal(self.line as nat) + ": "@ + self.message,
        }
    }
}

impl Clone for ParseError {
    fn clone(&self) -> (r: Self)
        ensures
            r@ == self@,
    {
        ParseError {
            line: self.line,
            message: self.message.clone(),
            span: self.span,
            code: match &self.code {
                Some(c) => Some(c.clone()),
                None => None,
            },
        }
    }
}

impl ParseError {
    pub open spec fn view(&self) -> ParseErrorV {
        ParseErrorV {
            line: self.line,
            message: self.message@,
            span: self.span,
            code: opt_text(self.code),
        }
    }

    pub fn new(message: String) -> (r: Self)
        ensures
            r@ == parse_error(1, message@),
    {
        ParseError { line: 1, message, span: None, code: None }
    }

    pub fn at_line(line: usize, message: String) -> (r: Self)
        ensures
            r@ == parse_error(line, message@),
    {
        ParseError { line, message, span: None, code: None }
    }

    pub fn at_span(span: Span, message: String) -> (r: Self)
        ensures
            r@ == (ParseErrorV { span: Some(span), ..parse_error(1, message@) }),
    {
        ParseError { line: 1, message, span: Some(span), code: None }
    }

    pub fn with_code(self, code: String) -> (r: Self)
        ensures
            r@ == (ParseErrorV { code: Some(code@), ..self@ }),
    {
        ParseError { line: self.line, message: self.message, span: self.span, code: Some(code) }
    }

    /// Gives an error without a position the whole of its line, where the source
    /// has that line.
    pub fn with_line_span_from_source(self, source_map: &SourceMap, source_id: u32) -> (r: Self)
        ensures
            r@ == (ParseErrorV { span: r@.span, ..self@ }),
            self@.span is Some ==> r@.span == self@.span,
            self@.span is None ==> match r@.span {
                Some(span) => source_id < source_map.files@.len() && span.source_id == source_id
                    && exists|lo: int, hi: int|
                    line_at(
                        source_map.files@[source_id as int].text@,
                        self@.line as int,
                        lo,
                        hi,
                    ) && span.lo == byte_offset(
                        source_map.files@[source_id as int].text@,
                        lo,
                    ) && span.hi == byte_offset(source_map.files@[source_id as int].text@, hi),
                None => source_id >= source_map.files@.len() || !exists|lo: int, hi: int|
                    line_at(
                        source_map.files@[source_id as int].text@,
                        self@.line as int,
                        lo,
                        hi,
                    ),
            },
    {
        if self.span.is_some() {
            return self;
        }
        let span = source_map.line_span(source_id, self.line);
        ParseError { line: self.line, message: self.message, span, code: self.code }
    }

    /// The error in words, with its position.
    pub fn display_text(&self) -> (r: String)
        ensures
            r@ == self@.text(),
    {
        match self.span {
            Some(span) => {
                let mut out = self.message.clone();
                out.push_str(" (source ");
                push_decimal(&mut out, span.source_id as u64);
                out.push_str(" [");
                push_decimal(&mut out, span.lo as u64);
                out.push_str("..");
                push_decimal(&mut out, span.hi as u64);
                out.push_str("])");
                out
            },
            None => {
                let mut out = "line ".to_string();
                push_decimal(&mut out, self.line as u64);
                out.push_str(": ");
                out.push_str(self.message.as_str());
                out
            },
        }
    }
}

/// Why a source text could not be compiled.
#[derive(Debug)]
pub enum SourceError {
    Parse(ParseError),
    Compile(CompileError),
}

impl SourceError {
    /// The error in words.
    pub open spec fn text(&self) -> Seq<char> {
        match self {
            SourceError::Parse(err) => err@.text(),
            SourceError::Compile(err) => "compile error: "@ + err@.text(),
        }
    }

    /// The error in words.
    pub fn display_text(&self) -> (r: String)
        ensures
            r@ == self.text(),
    {
        match self {
            SourceError::Parse(err) => err.display_text(),
            SourceError::Compile(err) => {
                let mut out = "compile error: ".to_string();
                out.push_str(err.diagnostic_message().as_str());
                out
            },
        }
    }
}

/// Why a source file could not be compiled. Paths and failures of the file
/// system are held as text.
#[derive(Debug)]
pub enum SourcePathError {
    Io(String),
    MissingExtension,
    UnsupportedExtension(String),
    ImportCycle(String),
    NonRustScriptModule(String),
    ImportWithoutParent(String),
    InvalidImportSyntax { path: String, line: usize, message: String },
    Source(SourceError),
}

impl SourcePathError {
    /// The error in words.
    pub open spec fn text(&self) -> Seq<char> {
        match self {
            SourcePathError::Io(err) => err@,
            SourcePathError::MissingExtension => "source file must have an extension"@,
            SourcePathError::UnsupportedExtension(ext) => "unsupported source extension '."@ + ext@
                + "', expected .rss, .js, .lua, or .scm"@,
            SourcePathError::ImportCycle(path) => "import cycle detected at '"@ + path@ + "'"@,
            SourcePathError::NonRustScriptModule(path) => "module '"@ + path@
                + "' must use .rss extension"@,
            SourcePathError::ImportWithoutParent(path) => "cannot resolve import from '"@ + path@
                + "': missing parent directory"@,
            SourcePathError::InvalidImportSyntax { path, line, message } => {
                "invalid import syntax in '"@ + path@ + "' at line "@ + decimal(*line as nat) + ": "@
                    + message@
            },
            SourcePathError::Source(err) => err.text(),
        }
    }

    /// The error in words.
    pub fn display_text(&self) -> (r: String)
        ensures
            r@ == self.text(),
    {
        match self {
            SourcePathError::Io(err) => err.clone(),
            SourcePathError::MissingExtension => "source file must have an extension".to_string(),
            SourcePathError::UnsupportedExtension(ext) => {
                let mut out = "unsupported source extension '.".to_string();
                out.push_str(ext.as_str());
                out.push_str("', expected .rss, .js, .lua, or .scm");
                out
            },
            SourcePathError::ImportCycle(path) => {
                let mut out = "import cycle detected at '".to_string();
                out.push_str(path.as_str());
                out.push_str("'");
                out
            },
            SourcePathError::NonRustScriptModule(path) => {
                let mut out = "module '".to_string();
                out.push_str(path.as_str());
                out.push_str("' must use .rss extension");
                out
            },
            SourcePathError::ImportWithoutParent(path) => {
                let mut out = "cannot resolve import from '".to_string();
                out.push_str(path.as_str());
                out.push_str("': missing parent directory");
                out
            },
            SourcePathError::InvalidImportSyntax { path, line, message } => {
                let mut out = "invalid import syntax in '".to_string();
                out.push_str(path.as_str());
                out.push_str("' at line ");
                push_decimal(&mut out, *line as u64);
                out.push_str(": ");
                out.push_str(message.as_str());
                out
            },
            SourcePathError::Source(err) => err.display_text(),
        }
    }
}

impl From<SourceError> for SourcePathError {
    fn from(value: SourceError) -> (r: Self) {
        SourcePathError::Source(value)
    }
}

impl vstd::std_specs::convert::FromSpecImpl<SourceError> for SourcePathError {
    open spec fn obeys_from_spec() -> bool {
        true
    }

    open spec fn from_spec(value: SourceError) -> SourcePathError {
        SourcePathError::Source(value)
    }
}

} // verus!
