use pd_compiler::format::{format_source, try_format_source};
use pd_compiler::lexer::Dialect;

fn updating() -> Dialect {
    let mut dialect = Dialect::plain();
    dialect.allow_update_operators = true;
    dialect
}

fn formatted(source: &str) -> String {
    format_source(source, &Dialect::plain()).expect("formatting should succeed")
}

#[test]
fn collapses_binary_operator_breaks_in_tail_expressions() {
    let input = "fn mix(seed) {\n    v\n        +\n        seed\n}\n";
    let formatted =
        format_source(input, &Dialect::plain()).expect("formatting should succeed");

    assert_eq!(formatted, "fn mix(seed) {\n    v + seed\n}\n");
}

#[test]
fn formats_javascript_numeric_update_operators() {
    let input = "let total=0;\ntotal+=1;\nlet before=total++;\nlet after=++total;\n";
    let formatted = format_source(input, &updating()).expect("formatting should succeed");

    assert_eq!(
        formatted,
        "let total = 0;\ntotal += 1;\nlet before = total++;\nlet after = ++total;\n"
    );
}

#[test]
fn a_formatted_text_ends_with_a_line_feed() {
    assert_eq!(formatted(""), "\n");
    assert_eq!(formatted("x;"), "x;\n");
    assert_eq!(formatted("x;\n"), "x;\n");
}

#[test]
fn statements_stand_on_lines_of_their_own() {
    assert_eq!(formatted("let a=1;\nlet b=a;\n"), "let a = 1;\nlet b = a;\n");
    assert_eq!(formatted("a;b"), "a;\nb\n");
}

#[test]
fn blank_lines_are_kept_but_not_repeated() {
    assert_eq!(formatted("a;\n\n\n\nb;\n"), "a;\n\nb;\n");
}

#[test]
fn comments_stay_where_they_are() {
    assert_eq!(formatted("a; // why\nb;\n"), "a; // why\nb;\n");
    assert_eq!(formatted("// first\na;\n"), "// first\na;\n");
}

#[test]
fn wide_groups_are_spread_over_lines() {
    let a = "a".repeat(40);
    let b = "b".repeat(40);
    let c = "c".repeat(40);
    let source = format!("f({a}, {b}, {c});");
    let expected = format!("f(\n    {a},\n    {b},\n    {c}\n);\n");
    assert_eq!(formatted(&source), expected);
}

#[test]
fn type_arguments_are_written_tight() {
    assert_eq!(formatted("f::< int , string >(x);"), "f::<int, string>(x);\n");
    assert_eq!(formatted("a<b;"), "a < b;\n");
}

#[test]
fn return_types_have_an_arrow() {
    assert_eq!(formatted("fn f()->int{1}"), "fn f() -> int {\n    1\n}\n");
}

#[test]
fn keywords_behind_a_dot_are_names() {
    assert_eq!(formatted("a . match ;"), "a.match;\n");
}

#[test]
fn loops_keep_their_heads_on_one_line() {
    assert_eq!(
        formatted("while(a<b){\nf(a);\n}\n"),
        "while (a < b) {\n    f(a);\n}\n"
    );
    assert_eq!(formatted("for(;a<b;c()){\n}\n"), "for (; a < b; c()) {\n}\n");
}

#[test]
fn a_closer_without_an_opener_is_not_formatted() {
    assert!(try_format_source("a);", &Dialect::plain()).is_none());
    assert!(try_format_source("(a]", &Dialect::plain()).is_some());
}

#[test]
fn what_cannot_be_read_is_not_formatted() {
    let result = try_format_source("\"open", &Dialect::plain());
    assert!(matches!(result, Some(Err(_))));
}

fn dense(text: &str) -> String {
    text.chars().filter(|c| !c.is_whitespace()).collect()
}

#[test]
fn formatting_changes_only_white_space() {
    let sources = [
        "",
        "  let  a=1 ;\t// one\n/* two\n lines */ b ;\n",
        "fn f ( a:int )->int{if a<3{[1,2 , 3]}else{ a::b(-a) }}\n",
        "use a::{b , *};\nmatch x { 1=>\"a  b\", _ => 'c' }\n",
        "for (let i=0;i<3;i=i+1) { while true && !false { break; } }\n",
        "a ? . b; x :  : y;\u{a0}z\n",
    ];
    for source in sources {
        assert_eq!(dense(&formatted(source)), dense(source), "{source}");
    }
}

#[test]
fn comments_inside_joined_signs_are_dropped() {
    assert_eq!(formatted("a:/*b*/:c"), "a::c\n");
}

#[test]
fn aliases_of_keywords_are_written_as_keywords() {
    let mut dialect = Dialect::plain();
    dialect.let_alias_keywords.insert("const".to_string());
    assert_eq!(format_source("const a=1;", &dialect).expect("text"), "let a = 1;\n");
}
