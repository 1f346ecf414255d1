use std::collections::HashMap;

use pd_compiler::assembler::{Assembler, AssemblerError, DebugInfo, Instr, Program, Value};
use pd_compiler::builtins::BuiltinFunction;
use pd_compiler::codegen::{local_slot_operand, CodeGen, GenEnv};
use pd_compiler::compiler::Compiler;
use pd_compiler::errors::{CompileError, ParseError};
use pd_compiler::host::{
    build_function_names, build_host_import_return_types, build_host_import_signatures,
    HostFunctions,
};
use pd_compiler::infer::{infer_binary_type, infer_unary_type, merge_observed_function_param_type};
use pd_compiler::ir::{Expr, FrontendIr, FunctionImpl, Stmt, ValueType};
use pd_compiler::legalize::{infer_expr_type, infer_static_len};
use pd_compiler::lexer::Dialect;
use pd_compiler::namespaces::BuiltinNamespaces;
use pd_compiler::parser::{ParseConfig, Parser};
use pd_compiler::schema::TypeSchema;
use pd_compiler::shapes::{
    bound_type_from_schema, collapse_object_field_schema, infer_access_schema,
    infer_builtin_call_schema, infer_set_schema, is_same_schema, merge_array_schema,
    merge_branch_schemas, merge_match_schemas, merge_observed_function_param_schema,
    resolve_schema, schema_from_bound_type, schema_label, ArgShape,
};
use pd_compiler::types::{
    are_compatible_bound_types, bound_type_label, merge_bound_types, BoundType, LocalTypeState,
    SimpleType,
};
use pd_compiler::typing::{
    infer_types, legalize_builtins_and_bind_types, validate_if_else_type_consistency,
};

fn host() -> HostFunctions {
    HostFunctions { callables: Vec::new(), table: Vec::new() }
}

fn parse(source: &str) -> Result<FrontendIr, ParseError> {
    let dialect = Dialect::plain();
    let host = host();
    let builtins = BuiltinNamespaces { members: Vec::new(), hint: String::new() };
    let mut parser = Parser::new(
        source,
        0,
        ParseConfig {
            dialect: &dialect,
            host: &host,
            builtins: &builtins,
            allow_implicit_externs: true,
            allow_implicit_semicolons: false,
            enforce_mutable_bindings: false,
        },
    )?;
    let stmts = parser.parse_program()?;
    let locals = parser.local_count();
    let functions = parser.function_decls();
    let sources = stmts.iter().map(|_| None).collect();
    Ok(FrontendIr {
        stmts,
        locals,
        functions,
        function_impls: parser.into_function_impls(),
        stmt_sources: sources,
        function_sources: HashMap::new(),
    })
}

fn front(source: &str) -> FrontendIr {
    match parse(source) {
        Ok(ir) => ir,
        Err(e) => panic!("{e:?}"),
    }
}

fn compile(source: &str) -> Result<Program, CompileError> {
    let ir = front(source);
    let mut compiler = Compiler::new();
    compiler.set_function_impls(ir.function_impls);
    compiler.compile_program(&ir.stmts)
}

fn code(source: &str) -> String {
    match compile(source) {
        Ok(program) => format!("{:?}", program.code),
        Err(e) => panic!("{e:?}"),
    }
}

#[test]
fn powers_of_two_multiply_by_shifting() {
    assert_eq!(
        code("let x = 3; x * 8;"),
        "[Const(Int(3)), Stloc(0), Ldloc(0), Dup, Stloc(0), Const(Int(3)), Shl, Ret]"
    );
}

#[test]
fn loops_branch_to_resolved_positions() {
    let program = compile("let x = 0; while x < 3 { x = x + 1; }").expect("program");
    let targets: Vec<usize> = program
        .code
        .iter()
        .filter_map(|i| match i {
            Instr::Br(t) => Some(*t),
            Instr::BrFalse(t) => Some(*t),
            _ => None,
        })
        .collect();
    assert_eq!(targets.len(), 2);
    for t in targets {
        assert!(t < program.code.len());
    }
}

#[test]
fn functions_are_put_in_place_of_their_calls() {
    let text = code("fn add(a, b) { a + b } add(1, 2);");
    assert!(text.contains("Add"));
    assert!(!text.contains("Call("));
}

#[test]
fn functions_do_not_call_themselves_in_place() {
    let error = compile("fn f(a) { f(a) } f(1);");
    assert!(matches!(error, Err(CompileError::InlineFunctionRecursion(_))));
}

#[test]
fn strings_are_joined_by_adding() {
    assert_eq!(
        code("\"a\" + 1;"),
        "[Const(Str(\"a\")), Const(Str(\"1\")), Add, Ret]"
    );
}

#[test]
fn callables_are_no_values() {
    assert!(matches!(
        compile("let f = |x| x; f;"),
        Err(CompileError::CallableUsedAsValue)
    ));
    let mut compiler = Compiler::new();
    compiler.set_enable_local_move_semantics(true);
    assert!(matches!(
        compiler.compile_program(&[Stmt::Expr {
            expr: Expr::LocalCall(3, Vec::new()),
            line: 1
        }]),
        Err(CompileError::NonCallableLocal(3))
    ));
}

#[test]
fn closures_check_their_arguments() {
    assert!(matches!(
        compile("let f = |x| x; f(1, 2);"),
        Err(CompileError::CallableArityMismatch { expected: 1, got: 2 })
    ));
}

#[test]
fn loop_control_needs_a_loop() {
    assert!(matches!(
        Compiler::new().compile_program(&[Stmt::Break { line: 1 }]),
        Err(CompileError::BreakOutsideLoop)
    ));
    assert!(matches!(
        Compiler::new().compile_program(&[Stmt::Continue { line: 1 }]),
        Err(CompileError::ContinueOutsideLoop)
    ));
}

#[test]
fn slots_and_arguments_fit_their_operands() {
    assert!(matches!(local_slot_operand(255), Ok(255)));
    assert!(matches!(
        local_slot_operand(256),
        Err(CompileError::LocalSlotOverflow(256))
    ));
    let args: Vec<Expr> = (0..256).map(|_| Expr::Null).collect();
    assert!(matches!(
        Compiler::new().compile_program(&[Stmt::Expr { expr: Expr::Call(9, args), line: 1 }]),
        Err(CompileError::CallArityOverflow)
    ));
}

#[test]
fn call_indices_are_remapped() {
    let mut remap = HashMap::new();
    remap.insert(9u16, 2u16);
    let mut compiler = Compiler::new();
    compiler.set_call_index_remap(remap);
    let program = compiler
        .compile_program(&[Stmt::Expr { expr: Expr::Call(9, Vec::new()), line: 1 }])
        .expect("program");
    assert_eq!(format!("{:?}", program.code), "[Call(2, 0), Ret]");
    assert_eq!(program.lines, vec![(0, 1)]);
}

#[test]
fn programs_carry_their_names() {
    let mut compiler = Compiler::default();
    compiler.set_source("src".to_string());
    compiler
        .add_local_debug("x".to_string(), 7, Some(1), Some(2))
        .expect("slot fits");
    assert!(matches!(
        compiler.add_local_debug("y".to_string(), 256, None, None),
        Err(CompileError::LocalSlotOverflow(256))
    ));
    let ir = front("fn f(a) = a;");
    compiler.add_function_debug(&ir.functions[0]);
    let program = compiler.compile_program(&[]).expect("program");
    assert_eq!(program.debug.source, Some("src".to_string()));
    assert_eq!(program.debug.locals[0].slot, 7);
    assert_eq!(program.debug.functions[0].name, "f");
    assert_eq!(program.debug.functions[0].args, vec!["a".to_string()]);
}

#[test]
fn labels_are_unique_and_defined() {
    let mut assembler = Assembler::new();
    assembler.label("a").expect("first");
    assert!(matches!(
        assembler.label("a"),
        Err(AssemblerError::DuplicateLabel(ref l)) if l == "a"
    ));
    assembler.emit(Instr::Br("a".to_string()));
    assembler.emit(Instr::Const(Value::Int(1)));
    assert_eq!(assembler.position(), 2);
    let program = assembler.finish_program(DebugInfo::new()).expect("program");
    assert_eq!(format!("{:?}", program.code), "[Br(0), Const(Int(1))]");
    let mut dangling = Assembler::new();
    dangling.emit(Instr::BrFalse("b".to_string()));
    assert!(matches!(
        dangling.finish_program(DebugInfo::new()),
        Err(AssemblerError::UndefinedLabel(ref l)) if l == "b"
    ));
}

#[test]
fn types_of_locals_are_inferred() {
    let ir = front("let a = 1; let b = \"x\"; let c = [1]; let d = a + 2;");
    let types = infer_types(&ir, &host());
    assert_eq!(
        types.local_types,
        vec![ValueType::Int, ValueType::String, ValueType::Array, ValueType::Int]
    );
}

#[test]
fn branches_agree_on_types() {
    let ir = front("let c = 1 < 2; let x = if c => { 1 } else => { \"a\" };");
    let error = validate_if_else_type_consistency(&ir, &host());
    assert!(matches!(
        error,
        Err(CompileError::IfElseBranchTypeMismatch { ref detail, .. }) if detail
            == "if/else branches produced incompatible expression result: int vs string"
    ));
    let agreed = front("let c = 1 < 2; let x = if c => { 1 } else => { 2 };");
    assert!(validate_if_else_type_consistency(&agreed, &host()).is_ok());
    let settled = front("let x = if 1.0 == 2.5 => { 1 } else => { \"a\" };");
    assert!(validate_if_else_type_consistency(&settled, &host()).is_ok());
    let assigned = front("let x = 1; let c = 1 < 2; if c { x = 2; } else { x = \"a\"; }");
    assert!(matches!(
        validate_if_else_type_consistency(&assigned, &host()),
        Err(CompileError::IfElseBranchTypeMismatch { ref detail, .. }) if detail
            == "if/else branches assign incompatible types to local slot 0: int vs string"
    ));
}

#[test]
fn builtins_check_the_types_of_arguments() {
    let mut ir = front("");
    ir.stmts.push(Stmt::Expr {
        expr: Expr::Call(
            BuiltinFunction::MathAbs.call_index(),
            vec![Expr::String("a".to_string())],
        ),
        line: 3,
    });
    ir.stmt_sources.push(None);
    let error = validate_if_else_type_consistency(&ir, &host());
    match error {
        Err(CompileError::CallableArgumentTypeMismatch { line, detail, .. }) => {
            assert_eq!(line, Some(3));
            assert!(detail.contains("does not accept argument types (string)"));
        }
        other => panic!("{other:?}"),
    }
}

#[test]
fn sums_of_parameters_need_known_types() {
    let ir = front("fn add(a, b) { a + b } add(1, 2); add(\"a\", 3);");
    match validate_if_else_type_consistency(&ir, &host()) {
        Err(CompileError::FunctionParameterTypeConflict { detail, .. }) => {
            assert!(detail.contains("conflicting inferred types for arg1: int vs string"));
        }
        other => panic!("{other:?}"),
    }
}

#[test]
fn known_results_take_the_place_of_calls() {
    let ir = front("(\"abc\").length; type(1); [1, 2].length;");
    let legal = legalize_builtins_and_bind_types(ir, &host());
    assert_eq!(
        format!("{:?}", legal.stmts),
        "[Expr { expr: Int(3), line: 1 }, Expr { expr: String(\"int\"), line: 1 }, \
         Expr { expr: Int(2), line: 1 }]"
    );
}

#[test]
fn lengths_of_literals_are_known() {
    assert_eq!(infer_static_len(&Expr::String("abcd".to_string())), Some(4));
    assert_eq!(infer_static_len(&Expr::Int(1)), None);
    assert_eq!(
        infer_expr_type(&Expr::Not(Box::new(Expr::Bool(true))), &LocalTypeState::new()),
        BoundType::Bool
    );
}

#[test]
fn merging_types_joins_them() {
    let array = BoundType::ArrayOf(Some(SimpleType::Int));
    assert_eq!(merge_bound_types(BoundType::Int, BoundType::Int), BoundType::Int);
    assert_eq!(
        merge_bound_types(BoundType::Int, BoundType::String),
        BoundType::Unknown
    );
    assert_eq!(
        merge_bound_types(array, BoundType::ArrayOf(Some(SimpleType::String))),
        merge_bound_types(BoundType::ArrayOf(Some(SimpleType::String)), array)
    );
    assert!(are_compatible_bound_types(BoundType::Unknown, BoundType::Int));
    assert_eq!(
        are_compatible_bound_types(BoundType::Int, BoundType::Bool),
        are_compatible_bound_types(BoundType::Bool, BoundType::Int)
    );
    assert_eq!(bound_type_label(BoundType::Unknown), "unknown");
    assert_eq!(bound_type_label(array), "array");
}

#[test]
fn branch_states_keep_what_both_know() {
    let mut left = LocalTypeState::new();
    left.set(0, BoundType::Int);
    left.set(1, BoundType::Int);
    let mut right = LocalTypeState::new();
    right.set(0, BoundType::Int);
    right.set(1, BoundType::String);
    let mut state = LocalTypeState::new();
    state.merge_from_branches(&left, &right);
    assert_eq!(state.get(0), BoundType::Int);
    assert_eq!(state.get(1), BoundType::Unknown);
}

#[test]
fn operators_have_types() {
    let sum = Expr::Add(Box::new(Expr::Null), Box::new(Expr::Null));
    assert_eq!(infer_binary_type(&sum, BoundType::Int, BoundType::Int), BoundType::Int);
    assert_eq!(
        infer_binary_type(&sum, BoundType::String, BoundType::Int),
        BoundType::String
    );
    let equal = Expr::Eq(Box::new(Expr::Null), Box::new(Expr::Null));
    assert_eq!(
        infer_binary_type(&equal, BoundType::Int, BoundType::String),
        BoundType::Bool
    );
    let negated = Expr::Neg(Box::new(Expr::Null));
    assert_eq!(infer_unary_type(&negated, BoundType::Float), BoundType::Float);
}

#[test]
fn observed_parameters_conflict_on_different_types() {
    assert_eq!(
        merge_observed_function_param_type(BoundType::Unknown, BoundType::Int),
        Ok(BoundType::Int)
    );
    assert_eq!(
        merge_observed_function_param_type(BoundType::Int, BoundType::String),
        Err((BoundType::Int, BoundType::String))
    );
}

#[test]
fn programs_know_the_functions_around_them() {
    let ir = front("fn own(a) = a; other(1);");
    let names = build_function_names(&ir.functions);
    assert_eq!(names[&0], "own");
    assert_eq!(names[&1], "other");
    let types = build_host_import_return_types(&ir.functions, &ir.function_impls);
    assert!(!types.contains_key(&0));
    let signatures = build_host_import_signatures(&ir.functions, &ir.function_impls, &host());
    assert!(signatures.is_empty());
}

fn object(fields: &[(&str, TypeSchema)]) -> TypeSchema {
    let mut list = Vec::new();
    for (name, schema) in fields {
        list.push((name.to_string(), pd_compiler::shapes::clone_schema(schema)));
    }
    TypeSchema::Object(list)
}

#[test]
fn shapes_are_compared_without_order() {
    let a = object(&[("x", TypeSchema::Int), ("y", TypeSchema::String)]);
    let b = object(&[("y", TypeSchema::String), ("x", TypeSchema::Int)]);
    let c = object(&[("x", TypeSchema::Int), ("y", TypeSchema::Int)]);
    assert!(is_same_schema(&a, &b));
    assert!(!is_same_schema(&a, &c));
    assert!(is_same_schema(
        &TypeSchema::Array(Box::new(TypeSchema::Int)),
        &TypeSchema::Array(Box::new(TypeSchema::Int))
    ));
    assert!(!is_same_schema(&TypeSchema::Int, &TypeSchema::Float));
}

#[test]
fn shapes_and_types_stand_for_each_other() {
    assert_eq!(bound_type_from_schema(&TypeSchema::Named("P".to_string())), BoundType::Mapping);
    assert_eq!(schema_label(&TypeSchema::Named("P".to_string())), "map");
    let back = schema_from_bound_type(BoundType::Bool).expect("known");
    assert_eq!(bound_type_from_schema(&back), BoundType::Bool);
    assert!(schema_from_bound_type(BoundType::Unknown).is_none());
}

#[test]
fn shapes_of_containers_grow() {
    let grown = merge_array_schema(None, Some(TypeSchema::Int));
    assert_eq!(format!("{grown:?}"), "Array(Int)");
    let mixed = merge_array_schema(Some(grown), Some(TypeSchema::String));
    assert_eq!(format!("{mixed:?}"), "Array(Unknown)");
    let set = infer_set_schema(None, &Expr::String("x".to_string()), Some(TypeSchema::Int));
    assert_eq!(format!("{set:?}"), "Object([(\"x\", Int)])");
    let again = infer_set_schema(Some(set), &Expr::String("x".to_string()), Some(TypeSchema::Bool));
    assert_eq!(format!("{again:?}"), "Object([(\"x\", Bool)])");
    let found = infer_access_schema(
        &Vec::new(),
        &again,
        &Expr::String("x".to_string()),
        BoundType::String,
    );
    assert!(matches!(found, Ok(TypeSchema::Bool)));
}

#[test]
fn observed_shapes_agree_or_are_forgotten() {
    assert!(matches!(
        merge_observed_function_param_schema(None, Some(TypeSchema::Int)),
        Some(TypeSchema::Int)
    ));
    assert!(matches!(
        merge_observed_function_param_schema(Some(TypeSchema::Int), Some(TypeSchema::Int)),
        Some(TypeSchema::Int)
    ));
    assert!(
        merge_observed_function_param_schema(Some(TypeSchema::Int), Some(TypeSchema::Bool)).is_none()
    );
}

#[test]
fn accesses_follow_declared_shapes() {
    let structs = vec![("P".to_string(), object(&[("x", TypeSchema::Int), ("y", TypeSchema::Int)]))];
    let named = TypeSchema::Named("P".to_string());
    assert!(matches!(resolve_schema(&structs, &named), TypeSchema::Object(_)));
    assert!(matches!(
        infer_access_schema(&structs, &named, &Expr::String("x".to_string()), BoundType::String),
        Ok(TypeSchema::Int)
    ));
    assert!(matches!(
        infer_access_schema(&structs, &named, &Expr::Var(0), BoundType::Unknown),
        Ok(TypeSchema::Int)
    ));
    let message = |schema: &TypeSchema, key: &Expr, ty: BoundType| {
        infer_access_schema(&structs, schema, key, ty).expect_err("refused")
    };
    assert_eq!(
        message(&named, &Expr::String("z".to_string()), BoundType::String),
        "field 'z' is not declared in the object schema"
    );
    assert_eq!(
        message(&named, &Expr::Int(1), BoundType::Int),
        "schema-typed object access requires a string field name, got int"
    );
    assert_eq!(
        message(&TypeSchema::Array(Box::new(TypeSchema::Int)), &Expr::Null, BoundType::Bool),
        "schema-typed array access requires an int index, got bool"
    );
    assert_eq!(
        message(&TypeSchema::Int, &Expr::Null, BoundType::Bool),
        "cannot access fields on schema type 'int'"
    );
    assert_eq!(
        message(&TypeSchema::Named("Q".to_string()), &Expr::Null, BoundType::Bool),
        "unknown struct schema 'Q'"
    );
    let mixed = vec![
        ("a".to_string(), TypeSchema::Int),
        ("b".to_string(), TypeSchema::Bool),
    ];
    assert!(matches!(collapse_object_field_schema(&mixed), TypeSchema::Unknown));
}

#[test]
fn bodies_are_looked_up_by_index() {
    let ir = front("fn f(a) = a;");
    let body: Option<&FunctionImpl> = ir.function_impls.get(&0);
    assert_eq!(body.expect("body").param_slots, vec![0]);
}

fn shape_of_call(builtin: BuiltinFunction, args: Vec<(Expr, Option<TypeSchema>, BoundType)>) -> String {
    let structs = vec![("P".to_string(), object(&[("x", TypeSchema::Int)]))];
    let exprs: Vec<_> = args.iter().map(|a| &a.0).collect();
    let shapes = args
        .iter()
        .zip(exprs)
        .map(|(a, expr)| ArgShape {
            expr,
            schema: a.1.as_ref().map(pd_compiler::shapes::clone_schema),
            ty: a.2,
        })
        .collect();
    format!("{:?}", infer_builtin_call_schema(&structs, builtin, &shapes))
}

#[test]
fn calls_have_shapes() {
    let name = || (Expr::String("x".to_string()), None, BoundType::String);
    let one = || (Expr::Int(1), None, BoundType::Int);
    let point = || (Expr::Var(0), Some(TypeSchema::Named("P".to_string())), BoundType::Mapping);
    assert_eq!(shape_of_call(BuiltinFunction::ArrayNew, vec![]), "Some(Array(Unknown))");
    assert_eq!(shape_of_call(BuiltinFunction::MapNew, vec![]), "Some(Object([]))");
    assert_eq!(shape_of_call(BuiltinFunction::Get, vec![point(), name()]), "Some(Int)");
    assert_eq!(shape_of_call(BuiltinFunction::Get, vec![one(), name()]), "None");
    let list = (Expr::Var(1), Some(TypeSchema::Array(Box::new(TypeSchema::Unknown))), BoundType::Array);
    assert_eq!(
        shape_of_call(BuiltinFunction::ArrayPush, vec![list, one()]),
        "Some(Array(Int))"
    );
    assert_eq!(
        shape_of_call(
            BuiltinFunction::SetAt,
            vec![(Expr::Null, None, BoundType::Unknown), name(), one()]
        ),
        "Some(Object([(\"x\", Int)]))"
    );
    let text = (Expr::Var(2), Some(TypeSchema::String), BoundType::String);
    assert_eq!(
        shape_of_call(BuiltinFunction::Slice, vec![text, one(), one()]),
        "Some(String)"
    );
    assert_eq!(shape_of_call(BuiltinFunction::Len, vec![point()]), "None");
}

#[test]
fn branches_and_matches_have_shapes() {
    let both = merge_branch_schemas(Some(TypeSchema::Null), Some(TypeSchema::Int));
    assert!(matches!(both, Some(TypeSchema::Int)));
    let both = merge_branch_schemas(Some(TypeSchema::Int), Some(TypeSchema::Null));
    assert!(matches!(both, Some(TypeSchema::Int)));
    assert!(merge_branch_schemas(Some(TypeSchema::Int), Some(TypeSchema::Bool)).is_none());
    assert!(merge_branch_schemas(None, Some(TypeSchema::Bool)).is_none());
    let arms = vec![None, Some(TypeSchema::Int), Some(TypeSchema::Int)];
    assert!(matches!(merge_match_schemas(&arms, Some(TypeSchema::Int)), Some(TypeSchema::Int)));
    assert!(merge_match_schemas(&arms, Some(TypeSchema::Bool)).is_none());
    let arms = vec![Some(TypeSchema::Int), None];
    assert!(merge_match_schemas(&arms, Some(TypeSchema::Int)).is_none());
    assert!(matches!(merge_match_schemas(&Vec::new(), Some(TypeSchema::Bool)), Some(TypeSchema::Bool)));
}

#[test]
fn dropping_compiles_as_assigning_null() {
    let compiled = |stmt: Stmt| {
        let program = Compiler::new().compile_program(&[stmt]).expect("program");
        format!("{:?}", program)
    };
    assert_eq!(
        compiled(Stmt::Drop { index: 3, line: 7 }),
        compiled(Stmt::Assign { index: 3, expr: Expr::Null, line: 7 })
    );
}

#[test]
fn refused_expressions_emit_nothing() {
    let env = GenEnv {
        function_impls: HashMap::new(),
        host_import_return_types: HashMap::new(),
        host_import_signatures: HashMap::new(),
        call_index_remap: HashMap::new(),
        enable_local_move_semantics: false,
    };
    let mut gen = CodeGen::new();
    let call = Stmt::Expr { expr: Expr::LocalCall(4, vec![Expr::Int(1)]), line: 2 };
    assert!(matches!(
        gen.compile_all(&env, &[call]),
        Err(CompileError::NonCallableLocal(4))
    ));
    let program = gen.finish(DebugInfo::new()).expect("program");
    assert_eq!(format!("{:?}", program.0.code), "[Ret]");
}
