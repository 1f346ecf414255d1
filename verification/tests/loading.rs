use std::collections::HashMap;

use pd_compiler::errors::{ParseError, SourcePathError};
use pd_compiler::imports::{
    module_default_namespace, rewrite_imported_call_sites, ExportedFunction, ImportClause,
    ImportResolution, ModuleImport, NamedImport,
};
use pd_compiler::ir::{Expr, FrontendIr, FunctionDecl, FunctionImpl, Stmt, ValueType};
use pd_compiler::lexer::Dialect;
use pd_compiler::line_map::{
    remap_expr_line_numbers, remap_frontend_ir_line_numbers, remap_stmt_line_numbers,
};
use pd_compiler::lint::lint_trailing_function_return_semicolons;
use pd_compiler::loader::{assemble_root_source, count_lines, module_exports, remap_parse_error};
use pd_compiler::modules::{
    build_rustscript_import_prelude, collect_imported_module_functions, module_source_override,
    ImportAction, ImportFacts, ModuleGraph,
};
use pd_compiler::options::{CompileSourceFileOptions, SourceFlavor};
use pd_compiler::paths::{extension, file_stem};
use pd_compiler::rewrite::{
    rewrite_function_call_paths, rewrite_host_namespace_call_paths, rewrite_scheme_call_heads,
};
use pd_compiler::source_map::Span;
use pd_compiler::tables::{StrMap, StrSet};
use pd_compiler::walk::{ModuleWalk, WalkStep};

fn import(spec: &str, clause: ImportClause) -> ModuleImport {
    ModuleImport { spec: spec.to_string(), clause, line: 4 }
}

fn export(name: &str, arity: u8, type_params: &[&str]) -> ExportedFunction {
    ExportedFunction {
        name: name.to_string(),
        arity,
        type_params: type_params.iter().map(|p| p.to_string()).collect(),
    }
}

fn named(imported: &str, local: &str) -> ImportClause {
    ImportClause::Named(vec![NamedImport {
        imported: imported.to_string(),
        local: local.to_string(),
    }])
}

#[test]
fn extensions_choose_the_language() {
    assert_eq!(SourceFlavor::from_extension("rss"), Some(SourceFlavor::RustScript));
    assert_eq!(SourceFlavor::from_extension("JS"), Some(SourceFlavor::JavaScript));
    assert_eq!(SourceFlavor::from_extension("Lua"), Some(SourceFlavor::Lua));
    assert_eq!(SourceFlavor::from_extension("scm"), Some(SourceFlavor::Scheme));
    assert_eq!(SourceFlavor::from_extension("rs"), None);
    assert!(matches!(SourceFlavor::from_path("a/b.lua"), Ok(SourceFlavor::Lua)));
    assert!(matches!(
        SourceFlavor::from_path("a/b"),
        Err(SourcePathError::MissingExtension)
    ));
    assert!(matches!(
        SourceFlavor::from_path("a/b.txt"),
        Err(SourcePathError::UnsupportedExtension(ref ext)) if ext == "txt"
    ));
}

#[test]
fn paths_have_stems_and_extensions() {
    assert_eq!(file_stem("a/b.c.rss"), Some("b.c".to_string()));
    assert_eq!(extension("a/b.c.rss"), Some("rss".to_string()));
    assert_eq!(extension("a.b/c"), None);
    assert_eq!(file_stem("a/b/"), Some("b".to_string()));
    assert_eq!(file_stem(".."), None);
    assert_eq!(extension(".rss"), None);
    assert_eq!(file_stem(".rss"), Some(".rss".to_string()));
}

#[test]
fn overrides_are_found_in_either_spelling() {
    let options = CompileSourceFileOptions::new()
        .with_module_override_source("a\\b.rss", "one".to_string())
        .with_module_override_path("./c.rss", "lib/c.rss".to_string());
    assert_eq!(options.module_override_source("a/b.rss"), Some("one"));
    assert_eq!(options.module_override_source("a\\b.rss"), Some("one"));
    assert_eq!(options.module_override_path("./c.rss"), Some("lib/c.rss"));
    assert_eq!(options.module_override_path("c.rss"), None);
    assert!(options.has_module_overrides());
    assert!(!CompileSourceFileOptions::new().has_module_overrides());
}

#[test]
fn a_module_is_overridden_by_what_names_it_or_by_its_path() {
    let mut options = CompileSourceFileOptions::new();
    options.set_module_override_source("./math.rss", "by name".to_string());
    options.set_module_override_source("lib/text.rss", "by path".to_string());
    options.set_module_override_path("x", "y".to_string());
    assert_eq!(
        module_source_override(&options, "./math.rss", "lib/text.rss"),
        Some("by name")
    );
    assert_eq!(
        module_source_override(&options, "./text.rss", "lib/text.rss"),
        Some("by path")
    );
    assert_eq!(module_source_override(&options, "./z.rss", "lib/z.rss"), None);
}

#[test]
fn modules_are_loaded_once() {
    let facts = ImportFacts { is_builtin: false, is_module: true, is_virtual: false };
    let mut graph = ModuleGraph::new("main.rss".to_string());
    assert_eq!(graph.action("main.rss", "a.rss", facts), ImportAction::Load);
    graph.enter("a.rss".to_string());
    assert_eq!(graph.action("a.rss", "a.rss", facts), ImportAction::Cycle);
    assert_eq!(graph.action("a.rss", "main.rss", facts), ImportAction::Cycle);
    graph.leave("a.rss".to_string());
    assert_eq!(graph.action("main.rss", "a.rss", facts), ImportAction::Skip);
    let own_name = ImportFacts { is_builtin: false, is_module: true, is_virtual: true };
    assert_eq!(graph.action("io.rss", "io.rss", own_name), ImportAction::Skip);
    let builtin = ImportFacts { is_builtin: true, is_module: true, is_virtual: false };
    assert_eq!(graph.action("main.rss", "b.rss", builtin), ImportAction::Skip);
    let other = ImportFacts { is_builtin: false, is_module: false, is_virtual: false };
    assert_eq!(graph.action("main.rss", "b.rss", other), ImportAction::Skip);
}

#[test]
fn namespaces_are_named_after_files() {
    assert_eq!(module_default_namespace("./lib/math.rss"), Some("math".to_string()));
    assert_eq!(module_default_namespace("./lib/my-math.rss"), None);
}

#[test]
fn imported_functions_are_declared_by_name() {
    let imports = vec![
        import("./b.rss", ImportClause::AllPublic),
        import("./a.rss", named("first", "one")),
    ];
    let resolutions = vec![
        ImportResolution::Loaded(vec![export("zip", 2, &["T", "U"]), export("add", 1, &[])]),
        ImportResolution::Loaded(vec![export("first", 1, &[]), export("second", 1, &[])]),
    ];
    assert_eq!(
        build_rustscript_import_prelude("main.rss", &imports, &resolutions).expect("prelude"),
        "pub fn add(arg0);\npub fn first(arg0);\npub fn zip<T, U>(arg0, arg1);\n"
    );
}

#[test]
fn equal_names_are_merged() {
    let imports = vec![
        import("./a.rss", ImportClause::AllPublic),
        import("./b.rss", ImportClause::AllPublic),
    ];
    let resolutions = vec![
        ImportResolution::Loaded(vec![export("f", 1, &[])]),
        ImportResolution::Loaded(vec![export("f", 3, &["T"])]),
    ];
    let merged =
        collect_imported_module_functions("main.rss", &imports, &resolutions).expect("merged");
    assert_eq!(merged.len(), 1);
    assert_eq!(merged[0].arity, 3);
    assert_eq!(merged[0].type_params, vec!["T".to_string()]);
    let conflicting = vec![
        ImportResolution::Loaded(vec![export("f", 1, &["A"])]),
        ImportResolution::Loaded(vec![export("f", 1, &["B"])]),
    ];
    let error = collect_imported_module_functions("main.rss", &imports, &conflicting);
    assert!(matches!(
        error,
        Err(SourcePathError::InvalidImportSyntax { ref message, .. }) if message
            == "function 'f' declared with conflicting type parameters across imported modules"
    ));
}

#[test]
fn modules_that_lack_something_are_reported() {
    let imports = vec![import("./a.rss", named("gone", "gone"))];
    let resolutions = vec![ImportResolution::Loaded(vec![export("here", 0, &[])])];
    let error = collect_imported_module_functions("main.rss", &imports, &resolutions);
    assert!(matches!(
        error,
        Err(SourcePathError::InvalidImportSyntax { ref path, line: 4, ref message })
            if path == "main.rss" && message == "module './a.rss' has no public function 'gone'"
    ));
    let missing = vec![ImportResolution::Missing];
    let error = collect_imported_module_functions("main.rss", &imports, &missing);
    assert!(matches!(
        error,
        Err(SourcePathError::InvalidImportSyntax { ref message, .. })
            if message == "module './a.rss' did not load"
    ));
}

#[test]
fn calls_are_rewritten_by_imports() {
    let imports = vec![import("./math.rss", ImportClause::AllPublic)];
    let resolutions = vec![ImportResolution::Loaded(vec![export("inc", 1, &[])])];
    let result = rewrite_imported_call_sites(
        "math::inc(1); math::dec(1); // math::inc(2)\n",
        SourceFlavor::RustScript,
        "main.rss",
        &imports,
        &resolutions,
    )
    .expect("rewritten");
    assert_eq!(result.source, "inc(1); math::dec(1); // math::inc(2)\n");
    assert!(!result.requires_vm_namespace);
    let aliased = rewrite_imported_call_sites(
        "one(1); one;",
        SourceFlavor::RustScript,
        "main.rss",
        &vec![import("./a.rss", named("first", "one"))],
        &vec![ImportResolution::Loaded(vec![export("first", 1, &[])])],
    )
    .expect("rewritten");
    assert_eq!(aliased.source, "first(1); one;");
}

#[test]
fn namespaces_of_the_host_lead_to_the_machine() {
    let result = rewrite_imported_call_sites(
        "http::get(1);",
        SourceFlavor::RustScript,
        "main.rss",
        &vec![import("http", ImportClause::AllPublic)],
        &vec![ImportResolution::Virtual(Some("http".to_string()))],
    )
    .expect("rewritten");
    assert_eq!(result.source, "vm::http::get(1);");
    assert!(result.requires_vm_namespace);
}

#[test]
fn without_imports_a_text_is_left_alone() {
    let source = "let a = b::c(1); \"math::inc(1)\";";
    let result = rewrite_imported_call_sites(
        source,
        SourceFlavor::RustScript,
        "main.rss",
        &Vec::new(),
        &Vec::new(),
    )
    .expect("rewritten");
    assert_eq!(result.source, source);
}

#[test]
fn namespace_roots_are_put_before_called_paths() {
    let mut roots: StrMap<String> = StrMap::new();
    roots.insert("io".to_string(), "vm::io".to_string());
    assert_eq!(
        rewrite_host_namespace_call_paths("io::read(1); io; \"io::x()\"", SourceFlavor::RustScript, &roots),
        "vm::io::read(1); io; \"io::x()\""
    );
    assert_eq!(
        rewrite_host_namespace_call_paths("io.read(1)", SourceFlavor::Lua, &roots),
        "vm::io.read(1)"
    );
}

#[test]
fn prefixes_and_wildcards_are_stripped() {
    let aliases: StrMap<String> = StrMap::new();
    let namespaces: StrMap<StrSet> = StrMap::new();
    let mut wildcards = StrSet::new();
    wildcards.insert("m".to_string());
    let prefixes = vec!["p_".to_string()];
    assert_eq!(
        rewrite_function_call_paths(
            "m::f(1); p_g(2); p_h; p_1(3);",
            SourceFlavor::RustScript,
            &aliases,
            &namespaces,
            &wildcards,
            &prefixes
        ),
        "f(1); g(2); p_h; p_1(3);"
    );
}

#[test]
fn scheme_heads_are_rewritten() {
    let mut aliases: StrMap<String> = StrMap::new();
    aliases.insert("say".to_string(), "print".to_string());
    let namespaces: StrMap<StrSet> = StrMap::new();
    assert_eq!(
        rewrite_scheme_call_heads(
            "(say \"say\") ; (say 1)\n",
            &aliases,
            &namespaces,
            &StrSet::new(),
            &Vec::new()
        ),
        "(print \"say\") ; (say 1)\n"
    );
}

#[test]
fn preludes_are_counted_in_lines() {
    assert_eq!(count_lines(""), 0);
    assert_eq!(count_lines("a"), 1);
    assert_eq!(count_lines("a\n"), 1);
    assert_eq!(count_lines("a\n\nb"), 3);
    let root = assemble_root_source(SourceFlavor::RustScript, "pub fn f();\n", "f();", true, false);
    assert_eq!(root.text, "pub fn f();\nuse vm;\nf();");
    assert_eq!(root.prelude_lines, 2);
    let supported = assemble_root_source(SourceFlavor::RustScript, "", "f();", true, true);
    assert_eq!(supported.text, "f();");
    assert_eq!(supported.prelude_lines, 0);
    let lua = assemble_root_source(SourceFlavor::Lua, "pub fn f();\n", "f()", true, false);
    assert_eq!(lua.text, "pub fn f();\nf()");
    let scheme = assemble_root_source(SourceFlavor::Scheme, "pub fn f();\n", "(f)", true, false);
    assert_eq!(scheme.text, "(f)");
    assert_eq!(scheme.prelude_lines, 0);
}

#[test]
fn errors_behind_a_prelude_point_into_the_program() {
    let error = ParseError::at_span(Span::new(0, 1, 2), "bad".to_string());
    let kept = remap_parse_error(error, 0);
    assert!(kept.span.is_some());
    let shifted = remap_parse_error(ParseError::at_line(7, "bad".to_string()), 2);
    assert_eq!(shifted.line, 5);
    let first = remap_parse_error(ParseError::at_line(2, "bad".to_string()), 2);
    assert_eq!(first.line, 1);
    let pointed = remap_parse_error(ParseError::at_span(Span::new(0, 1, 2), "bad".to_string()), 1);
    assert!(pointed.span.is_none());
}

#[test]
fn lines_behind_a_prelude_are_shifted() {
    let stmt = remap_stmt_line_numbers(
        Stmt::While {
            condition: Expr::Bool(true),
            body: vec![Stmt::Break { line: 9 }],
            line: 8,
        },
        3,
    );
    assert_eq!(
        format!("{stmt:?}"),
        "While { condition: Bool(true), body: [Break { line: 6 }], line: 5 }"
    );
    let expr = remap_expr_line_numbers(
        Expr::Block {
            stmts: vec![Stmt::Noop { line: 2 }],
            expr: Box::new(Expr::Null),
        },
        3,
    );
    assert_eq!(format!("{expr:?}"), "Block { stmts: [Noop { line: 1 }], expr: Null }");
}

#[test]
fn a_whole_tree_is_shifted() {
    let mut impls = HashMap::new();
    impls.insert(
        5u16,
        FunctionImpl {
            param_slots: vec![1],
            capture_copies: Vec::new(),
            body_stmts: vec![Stmt::Noop { line: 12 }],
            body_expr: Expr::Null,
        },
    );
    let ir = FrontendIr {
        stmts: vec![Stmt::Noop { line: 11 }],
        locals: 2,
        functions: Vec::new(),
        function_impls: impls,
        stmt_sources: Vec::new(),
        function_sources: HashMap::new(),
    };
    let shifted = remap_frontend_ir_line_numbers(ir, 10);
    assert_eq!(format!("{:?}", shifted.stmts), "[Noop { line: 1 }]");
    assert_eq!(shifted.locals, 2);
    assert_eq!(shifted.function_impls.len(), 1);
    assert_eq!(
        format!("{:?}", shifted.function_impls[&5].body_stmts),
        "[Noop { line: 2 }]"
    );
}

#[test]
fn modules_offer_what_they_export() {
    let decl = |name: &str, exported: bool| FunctionDecl {
        name: name.to_string(),
        arity: 2,
        index: 0,
        args: Vec::new(),
        exported,
        return_type: ValueType::Unknown,
    };
    let offered = module_exports(&vec![decl("a", true), decl("b", false), decl("c", true)]);
    assert_eq!(offered.len(), 2);
    assert_eq!(offered[0].name, "a");
    assert_eq!(offered[1].name, "c");
    assert_eq!(offered[1].arity, 2);
}

#[test]
fn semicolons_behind_results_are_reported() {
    let dialect = Dialect::plain();
    let found =
        lint_trailing_function_return_semicolons("fn f() {\n    1 + 2;\n}\n", 0, &dialect).expect("tokens");
    assert_eq!(found.len(), 1);
    assert_eq!(found[0].line, 2);
    assert_eq!(found[0].message, "function return expression should not end with ';'");
    assert_eq!(found[0].span, Some(Span::new(0, 18, 19)));
    let clean =
        lint_trailing_function_return_semicolons("fn f() {\n    1 + 2\n}\n", 0, &dialect).expect("tokens");
    assert!(clean.is_empty());
    assert!(lint_trailing_function_return_semicolons("\"", 0, &dialect).is_err());
}

const MODULE: ImportFacts = ImportFacts { is_builtin: false, is_module: true, is_virtual: false };

fn walked(files: &[(&str, &[&str])]) -> Result<Vec<String>, String> {
    let count = |path: &str| files.iter().find(|f| f.0 == path).expect("file").1.len();
    let mut walk = ModuleWalk::new(files[0].0.to_string(), count(files[0].0));
    loop {
        match walk.step() {
            WalkStep::Import(path, index) => {
                let file = files.iter().find(|f| f.0 == path).expect("file");
                let key = file.1[index];
                match walk.decide(key, MODULE) {
                    ImportAction::Skip => {}
                    ImportAction::Cycle => return Err(key.to_string()),
                    ImportAction::Load => walk.enter(key.to_string(), count(key)),
                }
            }
            WalkStep::Finish(_) => walk.finish(),
            WalkStep::Done => return Ok(walk.into_order()),
        }
    }
}

#[test]
fn modules_are_done_after_what_they_import() {
    let order = walked(&[
        ("main", &["a", "b", "a"]),
        ("a", &["c"]),
        ("b", &["c", "a", "d"]),
        ("c", &[]),
        ("d", &[]),
    ]);
    assert_eq!(order, Ok(["c", "a", "d", "b"].map(str::to_string).to_vec()));
    assert_eq!(walked(&[("main", &[])]), Ok(Vec::new()));
}

#[test]
fn modules_that_import_each_other_are_reported() {
    assert_eq!(walked(&[("main", &["main"])]), Err("main".to_string()));
    assert_eq!(
        walked(&[("main", &["a"]), ("a", &["b"]), ("b", &["a"])]),
        Err("a".to_string())
    );
}

#[test]
fn imports_can_be_passed_over() {
    let mut walk = ModuleWalk::new("io".to_string(), 2);
    let own = ImportFacts { is_virtual: true, ..MODULE };
    assert_eq!(walk.decide("io", own), ImportAction::Skip);
    assert!(matches!(walk.step(), WalkStep::Import(path, 1) if path == "io"));
    walk.pass();
    assert!(matches!(walk.step(), WalkStep::Done));
}
