//! The source text that a program is parsed from, behind what its imports declare.

use vstd::prelude::*;
use crate::errors::{ParseError, ParseErrorV};
use crate::imports::ExportedFunction;
use crate::ir::FunctionDecl;
use crate::options::SourceFlavor;
use crate::text::chars_of;

verus! {

/// The number of lines of a text, as the first `n` of its characters have it: a line
/// feed at the end starts no line of its own.
pub open spec fn line_count(text: Seq<char>, n: int) -> nat
    decreases n,
{
    if n <= 0 {
        0
    } else {
        line_count(text, n - 1) + (if n == 1 || text[n - 2] == '\n' {
            1nat
        } else {
            0nat
        })
    }
}

pub fn count_lines(text: &str) -> (r: usize)
    ensures
        r == line_count(text@, text@.len() as int),
{
    let chars = chars_of(text);
    let mut lines: usize = 0;
    let mut i: usize = 0;
    while i < chars.len()
        invariant
            i <= chars@.len(),
            chars@ == text@,
            lines <= i,
            lines == line_count(text@, i as int),
        decreases chars@.len() - i,
    {
        if i == 0 || chars[i - 1] == '\n' {
            lines += 1;
        }
        i += 1;
    }
    lines
}

/// What stands before a program: the declarations of what it imports, and the import of
/// the machine's own namespace where the program needs one that it has not.
pub open spec fn root_prelude(
    flavor: SourceFlavor,
    declarations: Seq<char>,
    requires_vm_namespace: bool,
    vm_calls_supported: bool,
) -> Seq<char> {
    if flavor == SourceFlavor::Scheme {
        Seq::empty()
    } else if flavor == SourceFlavor::RustScript && requires_vm_namespace && !vm_calls_supported {
        declarations + "use vm;\n"@
    } else {
        declarations
    }
}

/// A source text to be parsed, and the number of lines that are not the program's own.
#[derive(Debug)]
pub struct RootSource {
    pub text: String,
    pub prelude_lines: usize,
}

/// Puts the prelude of a program before its text.
pub fn assemble_root_source(
    flavor: SourceFlavor,
    declarations: &str,
    source: &str,
    requires_vm_namespace: bool,
    vm_calls_supported: bool,
) -> (r: RootSource)
    ensures
        ({
            let prelude = root_prelude(
                flavor,
                declarations@,
                requires_vm_namespace,
                vm_calls_supported,
            );
            &&& r.text@ == prelude + source@
            &&& r.prelude_lines == line_count(prelude, prelude.len() as int)
        }),
{
    let mut text = String::new();
    if flavor != SourceFlavor::Scheme {
        text.push_str(declarations);
        if flavor == SourceFlavor::RustScript && requires_vm_namespace && !vm_calls_supported {
            text.push_str("use vm;\n");
        }
    }
    let ghost prelude = root_prelude(
        flavor,
        declarations@,
        requires_vm_namespace,
        vm_calls_supported,
    );
    assert(text@ =~= prelude);
    let prelude_lines: usize = count_lines(text.as_str());
    text.push_str(source);
    RootSource { text, prelude_lines }
}

/// A parse error of a text behind a prelude, as the text alone has it.
pub open spec fn behind_prelude(e: ParseErrorV, prelude_lines: usize) -> ParseErrorV {
    if prelude_lines == 0 {
        e
    } else {
        ParseErrorV {
            line: if e.line > prelude_lines {
                (e.line - prelude_lines) as usize
            } else {
                1
            },
            span: None,
            ..e
        }
    }
}

pub fn remap_parse_error(error: ParseError, prelude_lines: usize) -> (r: ParseError)
    ensures
        r@ == behind_prelude(error@, prelude_lines),
{
    if prelude_lines == 0 {
        return error;
    }
    let line: usize = if error.line > prelude_lines {
        error.line - prelude_lines
    } else {
        1
    };
    ParseError { line, message: error.message, span: None, code: error.code }
}

/// The functions that a module offers to others, among the first `n`.
pub open spec fn exported_names(functions: Seq<FunctionDecl>, n: int) -> Seq<(Seq<char>, u8)>
    decreases n,
{
    if n <= 0 {
        Seq::empty()
    } else if functions[n - 1].exported {
        exported_names(functions, n - 1).push((functions[n - 1].name@, functions[n - 1].arity))
    } else {
        exported_names(functions, n - 1)
    }
}

/// The names and arities of functions that a module offers.
pub open spec fn offered(list: Seq<ExportedFunction>) -> Seq<(Seq<char>, u8)> {
    Seq::new(list.len(), |i: int| (list[i].name@, list[i].arity))
}

/// The functions that a module offers to others, in the order of their declaration.
pub fn module_exports(functions: &Vec<FunctionDecl>) -> (r: Vec<ExportedFunction>)
    ensures
        offered(r@) == exported_names(functions@, functions@.len() as int),
        forall|i: int| 0 <= i < r@.len() ==> (#[trigger] r@[i]).type_params@.len() == 0,
{
    let mut out: Vec<ExportedFunction> = Vec::new();
    let mut i: usize = 0;
    assert(offered(out@) =~= exported_names(functions@, 0));
    while i < functions.len()
        invariant
            i <= functions@.len(),
            offered(out@) == exported_names(functions@, i as int),
            forall|k: int| 0 <= k < out@.len() ==> (#[trigger] out@[k]).type_params@.len() == 0,
        decreases functions@.len() - i,
    {
        let ghost before = offered(out@);
        if functions[i].exported {
            out.push(
                ExportedFunction {
                    name: functions[i].name.clone(),
                    arity: functions[i].arity,
                    type_params: Vec::new(),
                },
            );
            assert(offered(out@) =~= before.push(
                (functions@[i as int].name@, functions@[i as int].arity),
            ));
        }
        i += 1;
    }
    out
}

/// An error in the program's own text points at the line that the text alone has it on:
/// shifting back what the prelude shifted.
pub proof fn law_errors_point_into_the_program(e: ParseErrorV, prelude_lines: usize)
    requires
        e.line >= 1,
        e.line + prelude_lines <= usize::MAX,
    ensures
        behind_prelude(
            ParseErrorV { line: (e.line + prelude_lines) as usize, ..e },
            prelude_lines,
        ).line == e.line,
{
}

} // verus!
