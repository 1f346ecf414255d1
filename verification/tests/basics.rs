use pd_compiler::builtins::BuiltinFunction;
use pd_compiler::captures::{
    closure_capture_mode_for_slot, function_capture_mode_for_slot, CaptureBindingMode,
};
use pd_compiler::consts::{
    eval_const_int_expr, int_to_string, is_definitely_string_expr, shift_amount_for_power_of_two,
};
use pd_compiler::errors::{CompileError, ParseError, SourceError, SourcePathError};
use pd_compiler::assembler::AssemblerError;
use pd_compiler::fractions::equal_fractions;
use pd_compiler::host::{
    abi_value_type_to_value_type, callable_param_type_from_abi, known_host_accepts_arity,
    known_host_return_type, known_host_signature, AbiFunction, AbiParamType, AbiValueType,
    HostFunctions,
};
use pd_compiler::builtins::{CallableParam, CallableParamType};
use pd_compiler::types::HostCallableSignature;
use pd_compiler::ir::{ClosureExpr, Expr, FunctionImpl, Stmt, ValueType};
use pd_compiler::lexer::{lex_tokens, Dialect, TokenKind};
use pd_compiler::names::{Aliases, Names, Scope};
use pd_compiler::namespaces::{is_virtual_host_namespace_spec, HostNames};
use pd_compiler::slots::{
    collect_closure_frame_slots, collect_function_frame_slots, SlotSet,
};
use pd_compiler::source_map::{SourceMap, Span};

fn kinds(source: &str, dialect: &Dialect) -> Vec<TokenKind> {
    lex_tokens(source, 0, dialect)
        .expect("tokens")
        .iter()
        .map(|t| t.kind)
        .collect()
}

#[test]
fn tokens_are_read_in_order() {
    let tokens = lex_tokens("let x = 10; // ten\nx", 3, &Dialect::plain()).expect("tokens");
    let found: Vec<TokenKind> = tokens.iter().map(|t| t.kind).collect();
    assert_eq!(
        found,
        vec![
            TokenKind::Let,
            TokenKind::Ident,
            TokenKind::Equal,
            TokenKind::Int,
            TokenKind::Semicolon,
            TokenKind::Ident,
            TokenKind::Eof
        ]
    );
    assert_eq!(tokens[3].number, 10);
    assert_eq!(tokens[3].span, Span::new(3, 8, 10));
    assert_eq!(tokens[5].line, 2);
    for pair in tokens.windows(2) {
        assert!(pair[0].end <= pair[1].start);
        assert!(pair[0].span.hi <= pair[1].span.lo);
    }
}

#[test]
fn spans_count_bytes() {
    let tokens = lex_tokens("\"\u{e9}\" x", 0, &Dialect::plain()).expect("tokens");
    assert_eq!(tokens[0].text, "\u{e9}");
    assert_eq!(tokens[0].span, Span::new(0, 0, 4));
    assert_eq!((tokens[0].start, tokens[0].end), (0, 3));
    assert_eq!(tokens[1].span, Span::new(0, 5, 6));
}

#[test]
fn languages_have_words_of_their_own() {
    let mut dialect = Dialect::plain();
    assert_eq!(
        kinds("function import", &dialect),
        vec![TokenKind::Ident, TokenKind::Ident, TokenKind::Eof]
    );
    dialect.fn_alias_keywords.insert("function".to_string());
    dialect.import_keywords.insert("import".to_string());
    assert_eq!(
        kinds("function import", &dialect),
        vec![TokenKind::Fn, TokenKind::Import, TokenKind::Eof]
    );
}

#[test]
fn unreadable_texts_are_reported() {
    let error = lex_tokens("\n\"open", 0, &Dialect::plain());
    assert!(error.is_err());
    assert!(lex_tokens("@", 0, &Dialect::plain()).is_err());
}

#[test]
fn call_indices_lead_back() {
    let b = BuiltinFunction::ReSplit;
    assert_eq!(BuiltinFunction::from_call_index(b.call_index()), Some(b));
    assert_eq!(BuiltinFunction::from_call_index(0), None);
    assert!(b.accepts_arity(2));
    assert!(!b.accepts_arity(3));
    for signature in b.callable_signatures() {
        assert_eq!(signature.params.len(), b.arity() as usize);
    }
    assert_eq!(BuiltinFunction::Len.static_return_type(), ValueType::Int);
}

#[test]
fn constants_are_folded_without_overflow() {
    let one = || Box::new(Expr::Int(1));
    assert_eq!(eval_const_int_expr(&Expr::Add(one(), one())), Some(2));
    assert_eq!(
        eval_const_int_expr(&Expr::Add(Box::new(Expr::Int(i64::MAX)), one())),
        None
    );
    assert_eq!(
        eval_const_int_expr(&Expr::Div(one(), Box::new(Expr::Int(0)))),
        None
    );
    assert_eq!(eval_const_int_expr(&Expr::Null), None);
}

#[test]
fn strings_are_known_for_certain() {
    assert!(is_definitely_string_expr(&Expr::String("a".to_string())));
    assert!(!is_definitely_string_expr(&Expr::Int(1)));
    assert_eq!(eval_const_int_expr(&Expr::String("1".to_string())), None);
}

#[test]
fn powers_of_two_are_shifts() {
    assert_eq!(shift_amount_for_power_of_two(8), Some(3));
    assert_eq!(shift_amount_for_power_of_two(1), Some(0));
    assert_eq!(shift_amount_for_power_of_two(6), None);
    assert_eq!(shift_amount_for_power_of_two(0), None);
    assert_eq!(shift_amount_for_power_of_two(-8), None);
}

#[test]
fn integers_are_written_in_decimal() {
    assert_eq!(int_to_string(0), "0");
    assert_eq!(int_to_string(-120), "-120");
    assert_eq!(int_to_string(i64::MIN), "-9223372036854775808");
}

#[test]
fn errors_say_what_is_wrong() {
    assert_eq!(
        CompileError::CallableArityMismatch { expected: 2, got: 3 }.diagnostic_message(),
        "callable arity mismatch: expected 2, got 3"
    );
    assert_eq!(
        CompileError::Assembler(AssemblerError::UndefinedLabel("end_1".to_string())).diagnostic_message(),
        "undefined label 'end_1'"
    );
    assert_eq!(
        CompileError::NonCallableLocal(7).diagnostic_message(),
        "local slot 7 is not callable"
    );
    assert_eq!(
        CompileError::LocalSlotOverflow(300).diagnostic_message(),
        "local slot 300 exceeds the supported bytecode encoding"
    );
    assert_eq!(
        CompileError::CallArityOverflow.diagnostic_message(),
        "call arity exceeds the supported bytecode encoding"
    );
    assert_eq!(
        CompileError::ClosureUsedAsValue.diagnostic_message(),
        "closures cannot be used as plain values"
    );
    assert_eq!(
        CompileError::InlineFunctionRecursion("f".to_string()).diagnostic_message(),
        "inline function recursion detected in 'f'"
    );
    let typed = CompileError::BinaryOperandTypeMismatch {
        line: Some(3),
        source_name: Some("main.rss".to_string()),
        detail: "odd".to_string(),
    };
    assert_eq!(typed.line(), Some(3));
    assert_eq!(typed.source_name(), Some("main.rss"));
    assert_eq!(typed.diagnostic_message(), "odd");
    assert_eq!(CompileError::BreakOutsideLoop.line(), None);
    assert_eq!(CompileError::BreakOutsideLoop.source_name(), None);
}

#[test]
fn parse_errors_carry_their_place() {
    let error = ParseError::new("bad".to_string()).with_code("E1".to_string());
    assert_eq!(error.line, 1);
    assert_eq!(error.code, Some("E1".to_string()));
    assert_eq!(error.display_text(), "line 1: bad");
    let mut sources = SourceMap::new();
    let id = sources.add_source("a".to_string(), "one\ntwo\n".to_string());
    let placed = ParseError::at_line(2, "bad".to_string()).with_line_span_from_source(&sources, id);
    assert_eq!(placed.span, Some(Span::new(0, 4, 7)));
    assert_eq!(placed.display_text(), "bad (source 0 [4..7])");
    let kept = ParseError::at_span(Span::new(9, 1, 2), "bad".to_string())
        .with_line_span_from_source(&sources, id);
    assert_eq!(kept.span, Some(Span::new(9, 1, 2)));
    let outside = ParseError::at_line(9, "bad".to_string()).with_line_span_from_source(&sources, id);
    assert_eq!(outside.span, None);
}

#[test]
fn source_errors_name_their_kind() {
    assert_eq!(
        SourceError::Compile(CompileError::BreakOutsideLoop).display_text(),
        "compile error: break used outside of a loop"
    );
    assert_eq!(
        SourcePathError::UnsupportedExtension("txt".to_string()).display_text(),
        "unsupported source extension '.txt', expected .rss, .js, .lua, or .scm"
    );
    assert_eq!(
        SourcePathError::ImportCycle("a.rss".to_string()).display_text(),
        "import cycle detected at 'a.rss'"
    );
    assert_eq!(
        SourcePathError::InvalidImportSyntax {
            path: "a.rss".to_string(),
            line: 2,
            message: "odd".to_string()
        }
        .display_text(),
        "invalid import syntax in 'a.rss' at line 2: odd"
    );
    let wrapped: SourcePathError = SourceError::Parse(ParseError::new("bad".to_string())).into();
    assert_eq!(wrapped.display_text(), "line 1: bad");
}

#[test]
fn lines_have_spans() {
    let mut sources = SourceMap::new();
    let first = sources.add_source("a".to_string(), "x\n\u{e9}y\n".to_string());
    let second = sources.add_source("b".to_string(), "z".to_string());
    assert_eq!(sources.line_span(first, 1), Some(Span::new(0, 0, 1)));
    assert_eq!(sources.line_span(first, 2), Some(Span::new(0, 2, 5)));
    assert_eq!(sources.line_span(second, 1), Some(Span::new(1, 0, 1)));
    assert_eq!(sources.line_span(second, 2), None);
    assert_eq!(sources.line_span(7, 1), None);
}

#[test]
fn frames_are_cleared_from_the_top_and_spare_captures() {
    let closure = ClosureExpr {
        param_slots: vec![3],
        capture_copies: vec![(0, 4)],
        body: Box::new(Expr::Add(Box::new(Expr::Var(3)), Box::new(Expr::Var(4)))),
    };
    assert_eq!(collect_closure_frame_slots(&closure), vec![3]);
    let function = FunctionImpl {
        param_slots: vec![1],
        capture_copies: Vec::new(),
        body_stmts: vec![Stmt::Let { index: 5, expr: Expr::Var(1), line: 1 }],
        body_expr: Expr::Var(5),
    };
    assert_eq!(collect_function_frame_slots(&function), vec![5, 1]);
    let mut set = SlotSet::new();
    set.insert(2);
    set.insert(9);
    set.insert(2);
    assert_eq!(set.to_descending(), vec![9, 2]);
    set.remove(9);
    assert!(!set.contains(9));
}

#[test]
fn captures_are_taken_in_the_strongest_way() {
    let closure = |body: Expr| ClosureExpr {
        param_slots: Vec::new(),
        capture_copies: vec![(0, 1)],
        body: Box::new(body),
    };
    assert_eq!(
        closure_capture_mode_for_slot(&closure(Expr::MoveVar(1)), 1),
        CaptureBindingMode::Move
    );
    assert_eq!(
        closure_capture_mode_for_slot(&closure(Expr::ToOwned(Box::new(Expr::Var(1)))), 1),
        CaptureBindingMode::Copy
    );
    let function = FunctionImpl {
        param_slots: Vec::new(),
        capture_copies: vec![(0, 1)],
        body_stmts: Vec::new(),
        body_expr: Expr::BorrowMut(Box::new(Expr::Var(1))),
    };
    assert_eq!(
        function_capture_mode_for_slot(&function, 1),
        CaptureBindingMode::BorrowMut
    );
}

#[test]
fn hosts_describe_their_functions() {
    let host = HostFunctions {
        callables: vec![HostCallableSignature {
            name: "log".to_string(),
            params: vec![
                CallableParam {
                    name: "text".to_string(),
                    ty: CallableParamType::String,
                    optional: false,
                },
                CallableParam {
                    name: "level".to_string(),
                    ty: CallableParamType::Int,
                    optional: true,
                },
            ],
        }],
        table: vec![AbiFunction {
            name: "now".to_string(),
            param_names: vec!["zone".to_string()],
            param_types: vec![AbiParamType::String],
            return_type: AbiValueType::Int,
        }],
    };
    assert!(!known_host_accepts_arity(&host, "log", 0));
    assert!(known_host_accepts_arity(&host, "log", 1));
    assert!(known_host_accepts_arity(&host, "log", 2));
    assert!(!known_host_accepts_arity(&host, "log", 3));
    assert!(known_host_accepts_arity(&host, "now", 1));
    assert!(!known_host_accepts_arity(&host, "now", 2));
    assert!(!known_host_accepts_arity(&host, "gone", 0));
    assert_eq!(known_host_return_type(&host, "now"), ValueType::Int);
    assert_eq!(known_host_return_type(&host, "log"), ValueType::Unknown);
    assert_eq!(known_host_signature(&host, "now").expect("known").params.len(), 1);
    assert!(known_host_signature(&host, "gone").is_none());
    assert_eq!(abi_value_type_to_value_type(AbiValueType::Mapping), ValueType::Mapping);
    assert_eq!(
        callable_param_type_from_abi(AbiParamType::Number),
        CallableParamType::Number
    );
}

#[test]
fn scopes_bind_names_to_slots() {
    let mut scope = Scope::new();
    scope.bind("b".to_string(), 4);
    scope.bind("a".to_string(), 2);
    assert_eq!(scope.get("a"), Some(2));
    assert_eq!(scope.get("c"), None);
    assert_eq!(scope.name_at(4), Some("b".to_string()));
    assert_eq!(
        scope.sorted(5),
        vec![("a".to_string(), 2), ("b".to_string(), 4)]
    );
    assert_eq!(scope.sorted(4), vec![("a".to_string(), 2)]);
}

#[test]
fn later_aliases_count() {
    let mut aliases = Aliases::new();
    aliases.insert("a".to_string(), "x".to_string());
    aliases.insert("a".to_string(), "y".to_string());
    assert_eq!(aliases.get("a"), Some("y".to_string()));
    assert_eq!(aliases.get("b"), None);
}

#[test]
fn slots_run_out() {
    let mut names = Names::new();
    assert_eq!(names.allocate(), Some(0));
    assert!(names.is_mutable(0));
    names.set_mutable(0, false);
    assert!(!names.is_mutable(0));
    names.set_mutable(5, false);
    assert!(names.is_mutable(4));
    assert!(!names.is_mutable(5));
    names.next_local = 0xFFFF;
    assert_eq!(names.allocate(), None);
}

#[test]
fn namespaces_of_the_host_are_identifiers() {
    assert!(is_virtual_host_namespace_spec("http"));
    assert!(!is_virtual_host_namespace_spec("./http"));
    assert!(!is_virtual_host_namespace_spec("http.rss"));
    assert!(!is_virtual_host_namespace_spec(""));
    let mut names = HostNames::new();
    names.add_wildcard("http".to_string());
    names.add_wildcard("http".to_string());
    assert_eq!(
        names.resolve_direct_host_call_target("get"),
        Some("http::get".to_string())
    );
    names.add_wildcard("io".to_string());
    assert_eq!(names.resolve_direct_host_call_target("get"), None);
    names
        .host_namespace_aliases
        .insert("web".to_string(), "http".to_string());
    assert_eq!(
        names.resolve_host_namespace_call_target(
            "web",
            &vec!["a".to_string(), "b".to_string(), "c".to_string()]
        ),
        Some("http::a::b::c".to_string())
    );
}

#[test]
fn fractions_are_compared_as_they_are_stored() {
    assert_eq!(equal_fractions("1.0", "1.00"), Some(true));
    assert_eq!(equal_fractions("0.10", "00.1"), Some(true));
    assert_eq!(equal_fractions("1.0", "2.0"), Some(false));
    assert_eq!(equal_fractions("1", "1.0"), None);
    assert_eq!(equal_fractions("a", "a"), Some(true));
    let zeros = "0".repeat(320);
    let nines = "9".repeat(308);
    let literals = [
        "0.0".to_string(),
        "0.1".to_string(),
        "0.1000000000000000".to_string(),
        "0.1000000000000000055511151231257827021181583404541015625".to_string(),
        "0.10000000000000001".to_string(),
        "0.10000000000000002".to_string(),
        "0.3".to_string(),
        "0.30000000000000004".to_string(),
        "9007199254740991.0".to_string(),
        "9007199254740992.0".to_string(),
        "9007199254740993.0".to_string(),
        "9007199254740993.00000000000000000001".to_string(),
        "9007199254740994.0".to_string(),
        "9007199254740995.0".to_string(),
        "9007199254740996.0".to_string(),
        "18014398509481983.5".to_string(),
        "18014398509481984.0".to_string(),
        "2.2250738585072011".to_string(),
        "2.2250738585072014".to_string(),
        format!("0.{zeros}0005"),
        format!("0.{zeros}00049"),
        format!("0.{zeros}0002"),
        format!("0.{zeros}0003"),
        format!("0.{zeros}0000"),
        format!("{:.1100}", f64::MIN_POSITIVE),
        format!("{:.1}", f64::MAX),
        format!("{nines}.0"),
        format!("1{nines}.0"),
        format!("17976931348623158079{}.0", "0".repeat(289)),
        format!("17976931348623158080{}.0", "0".repeat(289)),
        format!("9{nines}9.0"),
        format!("{}.5", "1".repeat(400)),
    ];
    for (i, a) in literals.iter().enumerate() {
        for b in literals.iter().skip(i).take(4) {
            let x: f64 = a.parse().expect("number");
            let y: f64 = b.parse().expect("number");
            assert_eq!(equal_fractions(a, b), Some(x == y), "{a} {b}");
        }
    }
}
