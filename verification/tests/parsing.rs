use pd_compiler::builtins::BuiltinFunction;
use pd_compiler::compiler::ReplLocalBinding;
use pd_compiler::errors::ParseError;
use pd_compiler::host::{AbiFunction, AbiParamType, AbiValueType, HostFunctions};
use pd_compiler::ir::{Expr, ValueType};
use pd_compiler::lexer::{Dialect, Lexer};
use pd_compiler::namespaces::{BuiltinMember, BuiltinNamespaces};
use pd_compiler::parser::{match_type_pattern_from_ident, ParseConfig, Parser};
use pd_compiler::template::find_template_fault;

fn host() -> HostFunctions {
    HostFunctions {
        callables: Vec::new(),
        table: vec![AbiFunction {
            name: "http::get".to_string(),
            param_names: vec!["url".to_string()],
            param_types: vec![AbiParamType::String],
            return_type: AbiValueType::String,
        }],
    }
}

fn builtins() -> BuiltinNamespaces {
    BuiltinNamespaces {
        members: vec![BuiltinMember {
            namespace: "re".to_string(),
            member: "match".to_string(),
            builtin: BuiltinFunction::ReMatch,
        }],
        hint: "re".to_string(),
    }
}

fn rust() -> Dialect {
    let mut dialect = Dialect::plain();
    dialect.allow_let_mut_binding = true;
    dialect.allow_macro_calls = true;
    dialect
}

fn script() -> Dialect {
    let mut dialect = Dialect::plain();
    dialect.import_keywords.insert("import".to_string());
    dialect.from_keywords.insert("from".to_string());
    dialect.allow_import_stmt = true;
    dialect.allow_return_stmt = true;
    dialect.allow_require_declaration = true;
    dialect.allow_typeof_operator = true;
    dialect.allow_arrow_closure = true;
    dialect.allow_dotted_call = true;
    dialect.allow_namespace_path_separator = false;
    dialect
}

struct Outcome {
    stmts: String,
    functions: Vec<(String, u8, bool, ValueType)>,
    locals: Vec<(String, u16)>,
    local_count: usize,
    schemas: String,
    declared: Vec<(u16, String)>,
    unknown_spans: usize,
    bodies: usize,
}

fn run(source: &str, dialect: &Dialect, externs: bool, lines: bool, strict: bool) -> Result<Outcome, ParseError> {
    let host = host();
    let builtins = builtins();
    let config = ParseConfig {
        dialect,
        host: &host,
        builtins: &builtins,
        allow_implicit_externs: externs,
        allow_implicit_semicolons: lines,
        enforce_mutable_bindings: strict,
    };
    let mut parser = Parser::new(source, 0, config)?;
    let stmts = parser.parse_program()?;
    let functions = parser
        .function_decls()
        .iter()
        .map(|f| (f.name.clone(), f.arity, f.exported, f.return_type))
        .collect();
    Ok(Outcome {
        stmts: format!("{stmts:?}"),
        functions,
        locals: parser.local_bindings(),
        local_count: parser.local_count(),
        schemas: format!("{:?}", parser.struct_schemas()),
        declared: parser.declared_structs().clone(),
        unknown_spans: parser.unknown_type_spans().len(),
        bodies: parser.into_function_impls().len(),
    })
}

fn parsed(source: &str) -> Outcome {
    match run(source, &rust(), false, false, false) {
        Ok(outcome) => outcome,
        Err(e) => panic!("{e:?}"),
    }
}

fn stmts(source: &str) -> String {
    parsed(source).stmts
}

fn refused(source: &str) -> ParseError {
    match run(source, &rust(), false, false, false) {
        Ok(outcome) => panic!("{}", outcome.stmts),
        Err(e) => e,
    }
}

fn scripted(source: &str) -> Outcome {
    match run(source, &script(), false, true, false) {
        Ok(outcome) => outcome,
        Err(e) => panic!("{e:?}"),
    }
}

#[test]
fn products_bind_tighter_than_sums() {
    assert_eq!(
        stmts("let x = 1 + 2 * 3;"),
        "[Let { index: 0, expr: Add(Int(1), Mul(Int(2), Int(3))), line: 1 }]"
    );
}

#[test]
fn operators_group_to_the_left() {
    assert_eq!(
        stmts("let x = 1 - 2 - 3;"),
        "[Let { index: 0, expr: Sub(Sub(Int(1), Int(2)), Int(3)), line: 1 }]"
    );
    assert_eq!(
        stmts("let x = true || false && true;"),
        "[Let { index: 0, expr: Or(Bool(true), And(Bool(false), Bool(true))), line: 1 }]"
    );
}

#[test]
fn non_strict_comparisons_evaluate_each_side_once() {
    assert_eq!(
        stmts("let x = 1 <= 2;"),
        "[Let { index: 2, expr: Block { stmts: [Let { index: 0, expr: Int(1), line: 1 }, \
         Let { index: 1, expr: Int(2), line: 1 }], \
         expr: Or(Lt(Var(0), Var(1)), Eq(Var(0), Var(1))) }, line: 1 }]"
    );
}

#[test]
fn inequality_is_negated_equality() {
    assert_eq!(
        stmts("let x = 1 != 2;"),
        "[Let { index: 0, expr: Not(Eq(Int(1), Int(2))), line: 1 }]"
    );
}

#[test]
fn the_smallest_integer_needs_its_sign() {
    assert_eq!(
        stmts("let x = -9223372036854775808;"),
        "[Let { index: 0, expr: Int(-9223372036854775808), line: 1 }]"
    );
    let error = refused("let x = 9223372036854775808;");
    assert_eq!(
        error.message,
        "integer literal '9223372036854775808' is out of range for i64; \
         write '-9223372036854775808' for i64::MIN"
    );
    assert!(error.span.is_some());
}

#[test]
fn names_must_be_known() {
    assert_eq!(refused("\ny;").message, "unknown local 'y'");
    assert_eq!(refused("\ny;").line, 2);
    assert_eq!(refused("f(1);").message, "unknown function 'f'");
    assert_eq!(refused("m!(1);").message, "unknown macro 'm!'");
}

#[test]
fn a_body_takes_a_local_from_outside_once() {
    assert_eq!(
        stmts("let a = 1; let f = |x| x + a + a;"),
        "[Let { index: 0, expr: Int(1), line: 1 }, Let { index: 3, expr: Closure(ClosureExpr { \
         param_slots: [1], capture_copies: [(0, 2)], \
         body: Add(Add(Var(1), Var(2)), Var(2)) }), line: 1 }]"
    );
}

#[test]
fn conditional_expressions_have_two_branches() {
    assert_eq!(
        stmts("let x = if true => { 1 } else => { 2 };"),
        "[Let { index: 0, expr: IfElse { condition: Bool(true), then_expr: Int(1), \
         else_expr: Int(2) }, line: 1 }]"
    );
    assert_eq!(
        refused("let x = if true => { 1 };").message,
        "if expression requires an else branch"
    );
    assert_eq!(
        refused("let x = if true => { } else => { 2 };").message,
        "if expression branch must end with an expression"
    );
}

#[test]
fn matches_need_a_wildcard() {
    assert_eq!(
        stmts("let x = match 1 { 1 => 2, Some(Int) => 4, _ => 3 };"),
        "[Let { index: 2, expr: Match { value_slot: 0, result_slot: 1, value: Int(1), \
         arms: [(Int(1), Int(2)), (Type(Int), Int(4))], default: Int(3) }, line: 1 }]"
    );
    assert_eq!(
        refused("let x = match 1 { 1 => 2 };").message,
        "match expression requires a wildcard arm '_ => ...'"
    );
    assert_eq!(
        refused("let x = match 1 { _ => 2, _ => 3 };").message,
        "duplicate '_' match arm"
    );
    assert_eq!(
        refused("let x = match 1 { _ => 2, 1 => 3 };").message,
        "non-wildcard match arm cannot appear after '_' arm"
    );
    assert_eq!(
        refused("let x = match 1 { Some(Odd) => 2, _ => 3 };").message,
        "unknown match type pattern; expected one of Int/Float/Number/Bool/String/Array/Map"
    );
}

#[test]
fn type_patterns_have_two_spellings() {
    assert_eq!(
        match_type_pattern_from_ident("Map"),
        match_type_pattern_from_ident("map")
    );
    assert!(match_type_pattern_from_ident("Maps").is_none());
}

#[test]
fn literals_build_containers() {
    let new = BuiltinFunction::ArrayNew.call_index();
    let push = BuiltinFunction::ArrayPush.call_index();
    assert_eq!(
        stmts("[1, 2];"),
        format!(
            "[Expr {{ expr: Call({push}, [Call({push}, [Call({new}, []), Int(1)]), Int(2)]), line: 1 }}]"
        )
    );
    let map = BuiltinFunction::MapNew.call_index();
    let set = BuiltinFunction::SetAt.call_index();
    assert_eq!(
        stmts("{a: 1, 2};"),
        format!(
            "[Expr {{ expr: Call({set}, [Call({set}, [Call({map}, []), String(\"a\"), Int(1)]), Int(0), Int(2)]), line: 1 }}]"
        )
    );
    assert_eq!(stmts("{1, 2};"), stmts("[1, 2];"));
}

#[test]
fn accesses_become_calls() {
    let get = BuiltinFunction::Get.call_index();
    let len = BuiltinFunction::Len.call_index();
    assert_eq!(
        stmts("let a = [1]; a[0]; a.x; a.length; a.copy();"),
        format!(
            "{}, Expr {{ expr: Call({get}, [Var(0), Int(0)]), line: 1 }}, \
             Expr {{ expr: Call({get}, [Var(0), String(\"x\")]), line: 1 }}, \
             Expr {{ expr: Call({len}, [Var(0)]), line: 1 }}, \
             Expr {{ expr: ToOwned(Var(0)), line: 1 }}]",
            stmts("let a = [1];").trim_end_matches(']')
        )
    );
}

#[test]
fn a_slice_of_a_local_binds_its_start() {
    let slice = BuiltinFunction::Slice.call_index();
    let len = BuiltinFunction::Len.call_index();
    assert_eq!(
        stmts("let a = 1; a[2:];"),
        format!(
            "[Let {{ index: 0, expr: Int(1), line: 1 }}, Expr {{ expr: Match {{ value_slot: 1, \
             result_slot: 2, value: Int(2), arms: [], default: Call({slice}, [Var(0), Var(1), \
             Sub(Call({len}, [Var(0)]), Var(1))]) }}, line: 1 }}]"
        )
    );
}

#[test]
fn an_optional_access_guards_its_container() {
    let type_of = BuiltinFunction::TypeOf.call_index();
    let text = stmts("let a = 1; a?.x;");
    assert!(text.contains(&format!(
        "condition: Eq(Call({type_of}, [Var(1)]), String(\"null\")), then_expr: Null"
    )));
}

#[test]
fn functions_are_declared_and_called() {
    let outcome = parsed("fn add(a, b) -> int { a + b } add(1, 2);");
    assert_eq!(
        outcome.stmts,
        "[FuncDecl { name: \"add\", index: 0, arity: 2, args: [\"a\", \"b\"], exported: false, \
         line: 1 }, Expr { expr: Call(0, [Int(1), Int(2)]), line: 1 }]"
    );
    assert_eq!(
        outcome.functions,
        vec![("add".to_string(), 2, false, ValueType::Int)]
    );
    assert_eq!(outcome.bodies, 1);
    assert_eq!(
        refused("fn add(a, b) = a + b; add(1);").message,
        "function 'add' expects 2 arguments"
    );
    assert_eq!(refused("fn f() = 1; fn f() = 2;").message, "duplicate function 'f'");
    assert_eq!(
        refused("fn f(a, a) = 1;").message,
        "duplicate function parameter 'a'"
    );
    assert_eq!(
        refused("let f = 1; fn f() = 1;").message,
        "name 'f' already used by a local binding"
    );
    assert_eq!(
        refused("fn f() { let a = 1; }").message,
        "function body must end with an expression statement"
    );
    assert_eq!(
        refused("fn f() -> odd = 1;").message,
        "unknown declared return type 'odd', expected unknown/null/int/float/bool/string/array/map"
    );
}

#[test]
fn undeclared_functions_can_be_taken_for_granted() {
    let outcome = match run("f(1, 2); f(3, 4);", &rust(), true, false, false) {
        Ok(outcome) => outcome,
        Err(e) => panic!("{e:?}"),
    };
    assert_eq!(
        outcome.functions,
        vec![("f".to_string(), 2, true, ValueType::Unknown)]
    );
    let error = run("f(1, 2); f(3);", &rust(), true, false, false);
    assert!(matches!(error, Err(ref e) if e.message == "function 'f' expects 2 arguments"));
}

#[test]
fn printing_declares_print_once() {
    let outcome = parsed("print(1); print(2);");
    assert_eq!(outcome.functions.len(), 1);
    assert_eq!(outcome.functions[0].0, "print");
    assert_eq!(
        outcome.stmts,
        "[Expr { expr: Call(0, [Int(1)]), line: 1 }, Expr { expr: Call(0, [Int(2)]), line: 1 }]"
    );
}

#[test]
fn templates_are_checked_against_their_arguments() {
    let template = BuiltinFunction::FormatTemplate.call_index();
    assert!(stmts("print(\"{} {}\", 1, 2);").contains(&format!("Call({template}, [String(\"{{}} {{}}\")")));
    assert_eq!(
        refused("print(\"{} {}\", 1);").message,
        "print format string is invalid near byte 3"
    );
    assert_eq!(
        refused("println(\"{\", 1);").message,
        "println format string is invalid near byte 0"
    );
    assert_eq!(
        refused("print(1, 2);").message,
        "print formatting requires a string literal as the first argument"
    );
    assert_eq!(refused("print();").message, "print expects at least one argument");
}

#[test]
fn templates_name_the_byte_that_is_wrong() {
    assert_eq!(find_template_fault("plain", 0), None);
    assert_eq!(find_template_fault("{{}}", 0), None);
    assert_eq!(find_template_fault("{:>8}", 1), None);
    assert_eq!(find_template_fault("{1}", 2), None);
    assert_eq!(find_template_fault("{1}", 1), Some(0));
    assert_eq!(find_template_fault("ab{x}", 1), Some(2));
    assert_eq!(find_template_fault("{:.*}", 2), None);
    assert_eq!(find_template_fault("{:.*}", 1), Some(0));
}

#[test]
fn a_template_fault_becomes_a_parse_error() {
    let dialect = rust();
    let host = host();
    let builtins = builtins();
    let config = ParseConfig {
        dialect: &dialect,
        host: &host,
        builtins: &builtins,
        allow_implicit_externs: false,
        allow_implicit_semicolons: false,
        enforce_mutable_bindings: false,
    };
    let parser = Parser::new("", 0, config).expect("empty source");
    let wrong = parser.build_template_call_expr("print", "x".to_string(), Vec::new(), Some(7));
    assert!(matches!(wrong, Err(ref e) if e.message == "print format string is invalid near byte 7"));
    let right = parser.build_template_call_expr("print", "x".to_string(), vec![Expr::Int(1)], None);
    let template = BuiltinFunction::FormatTemplate.call_index();
    let push = BuiltinFunction::ArrayPush.call_index();
    let new = BuiltinFunction::ArrayNew.call_index();
    assert_eq!(
        format!("{:?}", right.expect("call")),
        format!("Call({template}, [String(\"x\"), Call({push}, [Call({new}, []), Int(1)])])")
    );
}

#[test]
fn plain_printing_joins_with_spaces() {
    let to_string = BuiltinFunction::ToString.call_index();
    assert_eq!(
        scripted("console.log(1, 2)").stmts,
        format!(
            "[Expr {{ expr: Call(0, [Add(Add(Call({to_string}, [Int(1)]), String(\" \")), Call({to_string}, [Int(2)]))]), line: 1 }}]"
        )
    );
}

#[test]
fn immutable_locals_are_not_changed() {
    let strict = |source: &str| run(source, &rust(), false, false, true);
    let error = match strict("let x = 1;\nx = 2;") {
        Err(e) => e,
        Ok(outcome) => panic!("{}", outcome.stmts),
    };
    assert_eq!(error.code, Some("E_IMMUTABLE_LOCAL".to_string()));
    assert_eq!(error.line, 2);
    assert_eq!(
        error.message,
        "cannot assign to immutable local 'x'; declare it as 'let mut x = ...'"
    );
    assert!(strict("let mut x = 1; x = 2;").is_ok());
    assert!(run("let x = 1; x = 2;", &rust(), false, false, false).is_ok());
    let borrowed = match strict("let x = 1; let y = &mut x;") {
        Err(e) => e,
        Ok(outcome) => panic!("{}", outcome.stmts),
    };
    assert_eq!(
        borrowed.message,
        "cannot take a mutable borrow of immutable local 'x'; declare it as 'let mut x = ...'"
    );
    let mutated = match strict("let x = [1]; x[0] = 2;") {
        Err(e) => e,
        Ok(outcome) => panic!("{}", outcome.stmts),
    };
    assert_eq!(
        mutated.message,
        "cannot mutate immutable local 'x'; declare it as 'let mut x = ...'"
    );
}

#[test]
fn only_places_can_be_borrowed_for_change() {
    assert_eq!(
        refused("&mut 1;").message,
        "mutable borrow target must be a local, local field, or local index"
    );
    assert_eq!(
        stmts("let x = 1; &mut x;"),
        "[Let { index: 0, expr: Int(1), line: 1 }, Expr { expr: BorrowMut(Var(0)), line: 1 }]"
    );
}

#[test]
fn namespaces_are_imported_before_they_are_called() {
    let matches_index = BuiltinFunction::ReMatch.call_index();
    assert!(stmts("use re; re::match(\"a\", \"b\");")
        .contains(&format!("Call({matches_index}, [String(\"a\"), String(\"b\")])")));
    let concat = BuiltinFunction::Concat.call_index();
    assert!(stmts("use re as r; r::match(\"a\", \"b\", \"i\");").contains(&format!(
        "Call({matches_index}, [Call({concat}, [Call({concat}, [Call({concat}, [String(\"(?\"), String(\"i\")]), String(\")\")]), String(\"a\")]), String(\"b\")])"
    )));
    assert_eq!(
        refused("use re; re::nope(1);").message,
        "unknown builtin function 're::nope'"
    );
    assert_eq!(
        refused("re::match(1, 2);").message,
        "unknown namespace call 're::match'; import builtin namespaces first (re), and for host \
         calls import the matching host namespace or alias"
    );
    assert_eq!(
        refused("use re::{match};").message,
        "unsupported use list for builtin namespace 're'; import the namespace and call members \
         through it"
    );
}

#[test]
fn host_functions_are_declared_by_their_calls() {
    let outcome = parsed("use http; http::get(1);");
    assert_eq!(
        outcome.functions,
        vec![("http::get".to_string(), 1, false, ValueType::String)]
    );
    let direct = parsed("use http::{get as fetch}; fetch(1);");
    assert_eq!(direct.functions, outcome.functions);
    let wildcard = parsed("use http::*; get(1);");
    assert_eq!(wildcard.functions, outcome.functions);
    assert_eq!(
        refused("use a::{f}; use b::{f};").message,
        "host import alias 'f' already maps to 'a::f', cannot remap to 'b::f'"
    );
    assert_eq!(
        refused("use a = 1;").message,
        "unsupported use syntax for host namespace 'a'; expected ';', 'as <alias>', or '::{...}'"
    );
}

#[test]
fn scripts_import_and_require() {
    let imported = scripted("import { get as fetch } from \"http\"\nfetch(1)\n");
    assert_eq!(imported.functions[0].0, "http::get");
    let whole = scripted("import * as web from \"http\"\nweb.get(1)\n");
    assert_eq!(whole.functions[0].0, "http::get");
    let required = scripted("let web = require(\"http\")\nweb.get(1)\n");
    assert_eq!(required.functions[0].0, "http::get");
    let file = scripted("import \"./side.js\"\n");
    assert_eq!(file.stmts, "[Noop { line: 1 }]");
    let path = run("a::b(1)", &script(), false, true, false);
    assert!(matches!(path, Err(ref e) if e.message
        == "namespace calls use '.' in this language (for example 'json.encode(...)'), not '::'"));
}

#[test]
fn scripts_have_arrow_closures() {
    assert_eq!(
        scripted("let f = (x, y) => x + y").stmts,
        "[Let { index: 2, expr: Closure(ClosureExpr { param_slots: [0, 1], capture_copies: [], \
         body: Add(Var(0), Var(1)) }), line: 1 }]"
    );
    assert_eq!(
        scripted("let f = x => x").stmts,
        "[Let { index: 1, expr: Closure(ClosureExpr { param_slots: [0], capture_copies: [], \
         body: Var(0) }), line: 1 }]"
    );
    let block = run("let f = x => { x }", &script(), false, true, false);
    assert!(matches!(block, Err(ref e) if e.message
        == "arrow closures with block bodies are not supported in this subset"));
}

#[test]
fn returns_stand_in_functions() {
    let outcome = scripted("fn f(a) { return a }");
    assert_eq!(outcome.bodies, 1);
    let error = run("return 1", &script(), false, true, false);
    assert!(matches!(error, Err(ref e) if e.message == "'return' is only valid inside function bodies"));
}

#[test]
fn types_are_asked_for() {
    let type_of = BuiltinFunction::TypeOf.call_index();
    assert_eq!(
        scripted("typeof 1").stmts,
        format!("[Expr {{ expr: Call({type_of}, [Int(1)]), line: 1 }}]")
    );
    assert_eq!(refused("type(1, 2);").message, "type expects exactly one argument");
}

#[test]
fn loops_may_be_left() {
    assert_eq!(
        stmts("while true { break; }"),
        "[While { condition: Bool(true), body: [Break { line: 1 }], line: 1 }]"
    );
    assert_eq!(
        stmts("for (let i = 0; i < 3; i = i + 1) { continue; }"),
        "[For { init: Let { index: 0, expr: Int(0), line: 1 }, condition: Lt(Var(0), Int(3)), \
         post: Assign { index: 0, expr: Add(Var(0), Int(1)), line: 1 }, \
         body: [Continue { line: 1 }], line: 1 }]"
    );
    assert_eq!(refused("break;").message, "'break' is only allowed inside loops");
    assert_eq!(refused("continue;").message, "'continue' is only allowed inside loops");
}

#[test]
fn branches_chain() {
    assert_eq!(
        stmts("if true { 1; } else if false { 2; } else { 3; }"),
        "[IfElse { condition: Bool(true), then_branch: [Expr { expr: Int(1), line: 1 }], \
         else_branch: [IfElse { condition: Bool(false), then_branch: [Expr { expr: Int(2), line: 1 }], \
         else_branch: [Expr { expr: Int(3), line: 1 }], line: 1 }], line: 1 }]"
    );
}

#[test]
fn statements_end_with_a_semicolon_or_a_line() {
    assert_eq!(refused("let x = 1").message, "expected ';' after let");
    let outcome = scripted("let x = 1\nlet y = 2\n");
    assert_eq!(
        outcome.locals,
        vec![("x".to_string(), 0), ("y".to_string(), 1)]
    );
    let error = run("let x = 1 let y = 2", &script(), false, true, false);
    assert!(matches!(error, Err(ref e) if e.message == "expected ';' after let"));
}

#[test]
fn structures_are_declared_before_the_program_ends() {
    let outcome = parsed("struct P { x: int, y: [string], x: unknown } let p: P = {};");
    assert_eq!(
        outcome.schemas,
        "[(\"P\", Object([(\"x\", Unknown), (\"y\", Array(String))]))]"
    );
    assert_eq!(outcome.declared, vec![(0, "P".to_string())]);
    assert_eq!(outcome.unknown_spans, 1);
    let error = refused("let p: Q = 1;");
    assert_eq!(error.message, "unknown struct schema 'Q'");
    assert!(error.span.is_some());
    assert_eq!(
        refused("struct P { } struct P { }").message,
        "duplicate struct schema 'P'"
    );
}

#[test]
fn sessions_keep_their_locals() {
    let dialect = rust();
    let host = host();
    let builtins = builtins();
    let locals = vec![
        ReplLocalBinding { name: "a".to_string(), mutable: false },
        ReplLocalBinding { name: "b".to_string(), mutable: true },
    ];
    let mut parser = Parser::new_with_predeclared_locals(
        "b = a; let c = 1;",
        0,
        ParseConfig {
            dialect: &dialect,
            host: &host,
            builtins: &builtins,
            allow_implicit_externs: false,
            allow_implicit_semicolons: false,
            enforce_mutable_bindings: true,
        },
        &locals,
    )
    .expect("names are distinct");
    assert_eq!(
        parser.local_bindings(),
        vec![("a".to_string(), 0), ("b".to_string(), 1)]
    );
    assert_eq!(parser.local_count(), 2);
    let given: Vec<bool> =
        parser.local_bindings_with_mutability().iter().map(|b| b.mutable).collect();
    assert_eq!(given, vec![false, true]);
    let stmts = parser.parse_program().expect("a program");
    assert_eq!(
        format!("{stmts:?}"),
        "[Assign { index: 1, expr: Var(0), line: 1 }, Let { index: 2, expr: Int(1), line: 1 }]"
    );
    let bindings: Vec<(String, bool)> = parser
        .local_bindings_with_mutability()
        .iter()
        .map(|b| (b.name.clone(), b.mutable))
        .collect();
    assert_eq!(
        bindings,
        vec![
            ("a".to_string(), false),
            ("b".to_string(), true),
            ("c".to_string(), false)
        ]
    );
    let twice = vec![
        ReplLocalBinding { name: "a".to_string(), mutable: false },
        ReplLocalBinding { name: "a".to_string(), mutable: true },
    ];
    let error = Parser::new_with_predeclared_locals(
        "",
        0,
        ParseConfig {
            dialect: &dialect,
            host: &host,
            builtins: &builtins,
            allow_implicit_externs: false,
            allow_implicit_semicolons: false,
            enforce_mutable_bindings: true,
        },
        &twice,
    );
    assert!(matches!(error, Err(ref e) if e.message == "duplicate repl local 'a'" && e.line == 1));
}

#[test]
fn hidden_slots_are_counted_but_not_named() {
    let outcome = parsed("let x = 1 <= 2;");
    assert_eq!(outcome.local_count, 3);
    assert_eq!(outcome.locals, vec![("x".to_string(), 2)]);
}

#[test]
fn nesting_has_to_be_closed() {
    assert_eq!(refused("(1;").message, "expected ')' after expression");
    assert_eq!(refused("[1;").message, "expected ']' after array literal");
    assert_eq!(refused("while true { 1;").message, "unexpected end of input in block");
    assert_eq!(refused("fn f() { 1;").message, "unexpected end of input in function body");
    assert_eq!(refused(";").message, "expected expression");
}

#[test]
fn tokens_come_in_turn() {
    let dialect = rust();
    let source = "a /* b */ é";
    let mut lexer = Lexer::new("a // b\n  /* c */ +", 3, &dialect);
    let first = lexer.next_token().expect("token");
    let second = lexer.next_token().expect("token");
    let end = lexer.next_token().expect("token");
    let again = lexer.next_token().expect("token");
    assert_eq!((first.span.lo, first.span.hi, first.line), (0, 1, 1));
    assert_eq!((second.span.lo, second.span.hi, second.line), (17, 18, 2));
    assert_eq!(format!("{end:?}"), format!("{again:?}"));
    let mut refused = Lexer::new(source, 0, &dialect);
    assert!(refused.next_token().is_ok());
    assert!(refused.next_token().is_err());
    assert!(refused.next_token().is_err());
}
