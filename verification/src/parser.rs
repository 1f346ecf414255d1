//! The parser.

use std::collections::HashMap;
use vstd::prelude::*;
use crate::builtins::BuiltinFunction;
use crate::check::join_texts;
use crate::compiler::ReplLocalBinding;
use crate::errors::{parse_error, ParseError, ParseErrorV};
use crate::grammar::{
    access, ahead, allocate, and_expr, and_op, and_rest, args_rest, array_from, array_literal,
    array_of, array_rest, arrow_body, arrow_params, assign, assign_key, at, at_assignment,
    at_index_assignment, at_map_entry, at_parenthesized_arrow, at_path_separator, at_require,
    at_single_arrow, bad_pattern, binary, bind_hidden, block, block_rest, body_items, body_value,
    borrow_root, brace_entries, brace_entry, brace_literal, brace_value, braced_items, branch_value,
    budget, builtin_call, builtin_member_call, call0, call1, call2, call3, call_args,
    capture_or_direct, closure, closure_literal, compared, comparison, comparison_rest, declare,
    declared_call, declared_type, deeper, define_builtin, define_external, define_host,
    display_name, dotted_call, dotted_segments, dotted_target, else_branch, else_expr, entry_key,
    entry_values, expect, expect_ident, expect_segment, expect_text, expr, factor, factor_op,
    factor_rest, fault, fault_here, fields_rest, flagged_pattern, fn_body, fn_decl, fn_head,
    for_clause, for_start, for_stmt, formatted_text, function_content, function_impl, get_local,
    has_keys, host_call, ident_list, if_branch, if_else, if_expr, if_stmt, immutable, import_list,
    import_more, import_source, import_stmt, index_assign, language_call, last_line, let_mutability,
    let_name, let_slot, let_stmt, let_struct, line_of, line_u32, loop_body, loop_control, map_from,
    map_key, match_arm, match_arms, match_expr, match_pattern, member_access, mutable_borrow, named,
    named_call, named_imports, named_schema, namespace_alias, namespaced_call, new_function,
    non_strict, optional_access, optional_get, optional_index_lookup, optional_lookup,
    optional_map_lookup, or_expr, or_op, or_rest, out_of_range, param_slots, parenthesized_arrow,
    parse_start, path_call, path_segments, plain_name, plain_text, postfix, predeclared, prefixed,
    previous_line, primary, print_call, print_stmt, printed, program, program_rest, renamed,
    require_at, require_behind_brace, require_call, require_decl, required, resolve_function,
    return_stmt, return_type, schema_fields, skip, slice_access, slice_body, slice_end, slice_of,
    some_pattern, spaced, span_of, starts_statement, statement, stmt, struct_decl, takes_flags,
    template_call, term, term_op, term_rest, terminator, text, to_brace, to_text, too_deep,
    type_check, type_pattern, type_schema, unary, unary_expr, undotted, unknown_builtin, use_list,
    use_members, use_stmt, value, while_stmt, with_directs, with_hosts, with_import, with_names,
    with_newline, word_ahead, wrong_arity, EntryV, ParV, ParseConfigV, Parsed,
};
use crate::host::{known_host_accepts_arity, known_host_return_type, HostFunctions};
use crate::infer::impls_view;
use crate::ir::{
    arms_view, clone_strings, exprs_view, stmts_view, strings_view, BinOp, ClosureExpr, Expr, ExprV,
    FunctionDecl, FunctionDeclV, FunctionImpl, FunctionImplV, LocalSlot, MatchPattern,
    MatchTypePattern, PatternV, Stmt, StmtV, UnOp, ValueType,
};
use crate::lexer::{lex_tokens, lexed_all, tokens_view, Dialect, Token, TokenKind};
use crate::names::{
    bindings_view, bound_slot, by_slot, decls_view, numbered_args, BindingsV, Names, Scope,
};
use crate::namespaces::{is_virtual_host_namespace_spec, BuiltinNamespaces, HostNames};
use crate::scan::{check_bracket_followed_by, check_if_expression_start, check_kind_at};
use crate::schema::{
    declared_view, fields_view, find_field, put_field, SchemaV, Schemas, TypeSchema,
};
use crate::source_map::{SourceId, Span};
use crate::template::find_template_fault;
use crate::text::{push_decimal, same_text};

verus! {

// ---------------------------------------------------------------------------
// Pieces.

fn concat3(a: &str, b: &str, c: &str) -> (r: String)
    ensures
        r@ == a@ + b@ + c@,
{
    let mut out = String::new();
    out.push_str(a);
    out.push_str(b);
    out.push_str(c);
    assert(out@ =~= a@ + b@ + c@);
    out
}

fn concat5(a: &str, b: &str, c: &str, d: &str, e: &str) -> (r: String)
    ensures
        r@ == a@ + b@ + c@ + d@ + e@,
{
    let mut out = concat3(a, b, c);
    out.push_str(d);
    out.push_str(e);
    out
}

fn push_expr(list: &mut Vec<Expr>, e: Expr)
    ensures
        exprs_view(final(list)@) == exprs_view(old(list)@).push(e@),
{
    let ghost want = exprs_view(list@).push(e@);
    list.push(e);
    assert(exprs_view(list@) =~= want);
}

fn push_stmt(list: &mut Vec<Stmt>, s: Stmt)
    ensures
        stmts_view(final(list)@) == stmts_view(old(list)@).push(s@),
{
    let ghost want = stmts_view(list@).push(s@);
    list.push(s);
    assert(stmts_view(list@) =~= want);
}

fn push_arm(list: &mut Vec<(MatchPattern, Expr)>, p: MatchPattern, e: Expr)
    ensures
        arms_view(final(list)@) == arms_view(old(list)@).push((p@, e@)),
{
    let ghost want = arms_view(list@).push((p@, e@));
    list.push((p, e));
    assert(arms_view(list@) =~= want);
}

fn push_text(list: &mut Vec<String>, s: String)
    ensures
        strings_view(final(list)@) == strings_view(old(list)@).push(s@),
{
    let ghost want = strings_view(list@).push(s@);
    list.push(s);
    assert(strings_view(list@) =~= want);
}

fn no_exprs() -> (r: Vec<Expr>)
    ensures
        exprs_view(r@) == Seq::<ExprV>::empty(),
{
    let r: Vec<Expr> = Vec::new();
    assert(exprs_view(r@) =~= Seq::<ExprV>::empty());
    r
}

fn no_stmts() -> (r: Vec<Stmt>)
    ensures
        stmts_view(r@) == Seq::<StmtV>::empty(),
{
    let r: Vec<Stmt> = Vec::new();
    assert(stmts_view(r@) =~= Seq::<StmtV>::empty());
    r
}

fn no_arms() -> (r: Vec<(MatchPattern, Expr)>)
    ensures
        arms_view(r@) == Seq::<(PatternV, ExprV)>::empty(),
{
    let r: Vec<(MatchPattern, Expr)> = Vec::new();
    assert(arms_view(r@) =~= Seq::<(PatternV, ExprV)>::empty());
    r
}

fn no_texts() -> (r: Vec<String>)
    ensures
        strings_view(r@) == Seq::<Seq<char>>::empty(),
{
    let r: Vec<String> = Vec::new();
    assert(strings_view(r@) =~= Seq::<Seq<char>>::empty());
    r
}

fn build_call0(b: BuiltinFunction) -> (r: Expr)
    ensures
        r@ == call0(b),
{
    Expr::Call(b.call_index(), no_exprs())
}

fn build_call1(b: BuiltinFunction, x: Expr) -> (r: Expr)
    ensures
        r@ == call1(b, x@),
{
    let ghost want = seq![x@];
    let mut args = no_exprs();
    push_expr(&mut args, x);
    assert(exprs_view(args@) =~= want);
    Expr::Call(b.call_index(), args)
}

fn build_call2(b: BuiltinFunction, x: Expr, y: Expr) -> (r: Expr)
    ensures
        r@ == call2(b, x@, y@),
{
    let ghost want = seq![x@, y@];
    let mut args = no_exprs();
    push_expr(&mut args, x);
    push_expr(&mut args, y);
    assert(exprs_view(args@) =~= want);
    Expr::Call(b.call_index(), args)
}

fn build_call3(b: BuiltinFunction, x: Expr, y: Expr, z: Expr) -> (r: Expr)
    ensures
        r@ == call3(b, x@, y@, z@),
{
    let ghost want = seq![x@, y@, z@];
    let mut args = no_exprs();
    push_expr(&mut args, x);
    push_expr(&mut args, y);
    push_expr(&mut args, z);
    assert(exprs_view(args@) =~= want);
    Expr::Call(b.call_index(), args)
}

fn build_binary(op: BinOp, x: Expr, y: Expr) -> (r: Expr)
    ensures
        r@ == binary(op, x@, y@),
{
    let x = Box::new(x);
    let y = Box::new(y);
    match op {
        BinOp::Add => Expr::Add(x, y),
        BinOp::Sub => Expr::Sub(x, y),
        BinOp::Mul => Expr::Mul(x, y),
        BinOp::Div => Expr::Div(x, y),
        BinOp::Mod => Expr::Mod(x, y),
        BinOp::And => Expr::And(x, y),
        BinOp::Or => Expr::Or(x, y),
        BinOp::Eq => Expr::Eq(x, y),
        BinOp::Lt => Expr::Lt(x, y),
        BinOp::Gt => Expr::Gt(x, y),
    }
}

fn build_unary(op: UnOp, x: Expr) -> (r: Expr)
    ensures
        r@ == unary(op, x@),
{
    let x = Box::new(x);
    match op {
        UnOp::Neg => Expr::Neg(x),
        UnOp::Not => Expr::Not(x),
        UnOp::ToOwned => Expr::ToOwned(x),
        UnOp::Borrow => Expr::Borrow(x),
        UnOp::BorrowMut => Expr::BorrowMut(x),
    }
}

fn build_if_else(c: Expr, t: Expr, e: Expr) -> (r: Expr)
    ensures
        r@ == if_else(c@, t@, e@),
{
    Expr::IfElse { condition: Box::new(c), then_expr: Box::new(t), else_expr: Box::new(e) }
}

fn build_text(text: &str) -> (r: Expr)
    ensures
        r@ == ExprV::Str(text@),
{
    Expr::String(text.to_string())
}

fn build_slice_of(container: LocalSlot, start: LocalSlot, end: Expr) -> (r: Expr)
    ensures
        r@ == slice_of(container, start, end@),
{
    reveal(slice_of);
    build_call3(
        BuiltinFunction::Slice,
        Expr::Var(container),
        Expr::Var(start),
        build_binary(BinOp::Sub, end, Expr::Var(start)),
    )
}

fn build_type_check_expr(value: Expr, expected: &str) -> (r: Expr)
    ensures
        r@ == type_check(value@, expected@),
{
    reveal(type_check);
    build_binary(
        BinOp::Eq,
        build_call1(BuiltinFunction::TypeOf, value),
        build_text(expected),
    )
}

fn build_optional_map_lookup_expr(container_slot: LocalSlot, key_slot: LocalSlot) -> (r: Expr)
    ensures
        r@ == optional_map_lookup(container_slot, key_slot),
{
    reveal(optional_map_lookup);
    let set_probe = build_call3(
        BuiltinFunction::SetAt,
        Expr::Var(container_slot),
        Expr::Var(key_slot),
        Expr::Null,
    );
    let set_probe_len = build_call1(BuiltinFunction::Len, set_probe);
    let container_len = build_call1(BuiltinFunction::Len, Expr::Var(container_slot));
    let key_present = build_binary(BinOp::Eq, set_probe_len, container_len);
    let value = build_call2(
        BuiltinFunction::Get,
        Expr::Var(container_slot),
        Expr::Var(key_slot),
    );
    build_if_else(key_present, value, Expr::Null)
}

fn build_optional_index_lookup_expr(container_slot: LocalSlot, key_slot: LocalSlot) -> (r: Expr)
    ensures
        r@ == optional_index_lookup(container_slot, key_slot),
{
    reveal(optional_index_lookup);
    let key_is_int = build_type_check_expr(Expr::Var(key_slot), "int");
    let key_is_negative = build_binary(BinOp::Lt, Expr::Var(key_slot), Expr::Int(0));
    let container_len = build_call1(BuiltinFunction::Len, Expr::Var(container_slot));
    let key_in_bounds = build_binary(BinOp::Lt, Expr::Var(key_slot), container_len);
    let value = build_call2(
        BuiltinFunction::Get,
        Expr::Var(container_slot),
        Expr::Var(key_slot),
    );
    let in_range_value = build_if_else(key_in_bounds, value, Expr::Null);
    let non_negative_value = build_if_else(key_is_negative, Expr::Null, in_range_value);
    build_if_else(key_is_int, non_negative_value, Expr::Null)
}

fn build_optional_lookup(container_slot: LocalSlot, key_slot: LocalSlot) -> (r: Expr)
    ensures
        r@ == optional_lookup(container_slot, key_slot),
{
    reveal(optional_lookup);
    let is_null = build_type_check_expr(Expr::Var(container_slot), "null");
    let is_map = build_type_check_expr(Expr::Var(container_slot), "map");
    let is_array = build_type_check_expr(Expr::Var(container_slot), "array");
    let is_string = build_type_check_expr(Expr::Var(container_slot), "string");
    let map_lookup = build_optional_map_lookup_expr(container_slot, key_slot);
    let array_lookup = build_optional_index_lookup_expr(container_slot, key_slot);
    let string_lookup = build_optional_index_lookup_expr(container_slot, key_slot);
    build_if_else(
        is_null,
        Expr::Null,
        build_if_else(
            is_map,
            map_lookup,
            build_if_else(
                is_array,
                array_lookup,
                build_if_else(is_string, string_lookup, Expr::Null),
            ),
        ),
    )
}

fn build_regex_flags_pattern_expr(pattern: Expr, flags: Expr) -> (r: Expr)
    ensures
        r@ == flagged_pattern(pattern@, flags@),
{
    reveal(flagged_pattern);
    let prefix = build_call2(BuiltinFunction::Concat, build_text("(?"), flags);
    let prefix = build_call2(BuiltinFunction::Concat, prefix, build_text(")"));
    build_call2(BuiltinFunction::Concat, prefix, pattern)
}

fn is_regex_with_flags(b: BuiltinFunction) -> (r: bool)
    ensures
        r == takes_flags(b),
{
    b == BuiltinFunction::ReMatch || b == BuiltinFunction::ReFind || b
        == BuiltinFunction::ReReplace || b == BuiltinFunction::ReSplit || b
        == BuiltinFunction::ReCaptures
}

/// Moves the flags, the last argument, into the pattern, the first.
fn rewrite_regex_flags_arg_into_pattern(args: Vec<Expr>) -> (r: Vec<Expr>)
    requires
        args@.len() >= 2,
    ensures
        exprs_view(r@) == exprs_view(args@).drop_last().update(
            0,
            flagged_pattern(exprs_view(args@)[0], exprs_view(args@).last()),
        ),
{
    reveal(flagged_pattern);
    let ghost before = exprs_view(args@);
    let mut list = args;
    let last = list.pop();
    match last {
        Some(flags) => {
            assert(flags@ == before.last());
            let pattern = list[0].clone();
            assert(pattern@ == before[0]);
            list.set(0, build_regex_flags_pattern_expr(pattern, flags));
            assert(exprs_view(list@) =~= before.drop_last().update(
                0,
                flagged_pattern(before[0], before.last()),
            ));
        },
        None => {},
    }
    list
}

fn build_array_expr(values: Vec<Expr>) -> (r: Expr)
    ensures
        r@ == array_of(exprs_view(values@)),
{
    let ghost all = exprs_view(values@);
    let mut out = build_call0(BuiltinFunction::ArrayNew);
    for value in it: values
        invariant
            it.seq() == values@,
            all == exprs_view(values@),
            array_of(all) == array_from(all, it.index() as int, out@),
    {
        assert(all[it.index() as int] == value@);
        out = build_call2(BuiltinFunction::ArrayPush, out, value);
    }
    out
}

fn append_newline_expr(value: Expr) -> (r: Expr)
    ensures
        r@ == with_newline(value@),
{
    build_binary(BinOp::Add, value, build_text("\n"))
}

fn build_to_string_expr(value: Expr) -> (r: Expr)
    ensures
        r@ == to_text(value@),
{
    build_call1(BuiltinFunction::ToString, value)
}

fn render_plain_print_args(args: Vec<Expr>) -> (r: Expr)
    ensures
        r@ == plain_text(exprs_view(args@)),
{
    reveal(plain_text);
    let ghost all = exprs_view(args@);
    assert(all.len() == args@.len());
    if args.len() == 0 {
        return build_text("");
    }
    let single = args.len() == 1;
    let mut rendered: Option<Expr> = None;
    for arg in it: args
        invariant
            it.seq() == args@,
            all == exprs_view(args@),
            all.len() == args@.len(),
            all.len() > 0,
            single == (all.len() == 1),
            rendered is Some == (it.index() > 0),
            single && it.index() > 0 ==> rendered->0@ == all[0],
            !single && it.index() > 0 ==> spaced(all, 1, to_text(all[0])) == spaced(
                all,
                it.index() as int,
                rendered->0@,
            ),
    {
        assert(all[it.index() as int] == arg@);
        rendered = match rendered {
            None => if single {
                Some(arg)
            } else {
                Some(build_to_string_expr(arg))
            },
            Some(before) => {
                let wider = build_binary(BinOp::Add, before, build_text(" "));
                Some(build_binary(BinOp::Add, wider, build_to_string_expr(arg)))
            },
        };
    }
    match rendered {
        Some(e) => e,
        None => build_text(""),
    }
}

// ---------------------------------------------------------------------------
// What results are to be.

pub open spec fn gives<T>(r: Result<T, ParseError>, s: ParV, want: Parsed<T>) -> bool {
    match want {
        Ok((v, s1)) => r is Ok && r->Ok_0 == v && s == s1,
        Err(e) => r is Err && r->Err_0@ == e,
    }
}

pub open spec fn gives_unit(
    r: Result<(), ParseError>,
    s: ParV,
    want: Result<ParV, ParseErrorV>,
) -> bool {
    match want {
        Ok(s1) => r is Ok && s == s1,
        Err(e) => r is Err && r->Err_0@ == e,
    }
}

pub open spec fn gives_text(
    r: Result<String, ParseError>,
    s: ParV,
    want: Parsed<Seq<char>>,
) -> bool {
    match want {
        Ok((v, s1)) => r is Ok && r->Ok_0@ == v && s == s1,
        Err(e) => r is Err && r->Err_0@ == e,
    }
}

pub open spec fn gives_texts(
    r: Result<Vec<String>, ParseError>,
    s: ParV,
    want: Parsed<Seq<Seq<char>>>,
) -> bool {
    match want {
        Ok((v, s1)) => r is Ok && strings_view(r->Ok_0@) == v && s == s1,
        Err(e) => r is Err && r->Err_0@ == e,
    }
}

pub open spec fn gives_decl(
    r: Result<FunctionDecl, ParseError>,
    s: ParV,
    want: Parsed<FunctionDeclV>,
) -> bool {
    match want {
        Ok((v, s1)) => r is Ok && r->Ok_0@ == v && s == s1,
        Err(e) => r is Err && r->Err_0@ == e,
    }
}

pub open spec fn gives_expr(r: Result<Expr, ParseError>, s: ParV, want: Parsed<ExprV>) -> bool {
    match want {
        Ok((v, s1)) => r is Ok && r->Ok_0@ == v && s == s1,
        Err(e) => r is Err && r->Err_0@ == e,
    }
}

pub open spec fn gives_pure_expr(
    r: Result<Expr, ParseError>,
    want: Result<ExprV, ParseErrorV>,
) -> bool {
    match want {
        Ok(v) => r is Ok && r->Ok_0@ == v,
        Err(e) => r is Err && r->Err_0@ == e,
    }
}

pub open spec fn opt_expr(e: Option<Expr>) -> Option<ExprV> {
    match e {
        Some(x) => Some(x@),
        None => None,
    }
}

pub open spec fn opt_text(e: Option<String>) -> Option<Seq<char>> {
    match e {
        Some(x) => Some(x@),
        None => None,
    }
}

pub open spec fn gives_opt_expr(
    r: Result<Option<Expr>, ParseError>,
    s: ParV,
    want: Parsed<Option<ExprV>>,
) -> bool {
    match want {
        Ok((v, s1)) => r is Ok && opt_expr(r->Ok_0) == v && s == s1,
        Err(e) => r is Err && r->Err_0@ == e,
    }
}

pub open spec fn gives_exprs(
    r: Result<Vec<Expr>, ParseError>,
    s: ParV,
    want: Parsed<Seq<ExprV>>,
) -> bool {
    match want {
        Ok((v, s1)) => r is Ok && exprs_view(r->Ok_0@) == v && s == s1,
        Err(e) => r is Err && r->Err_0@ == e,
    }
}

pub open spec fn gives_stmt(r: Result<Stmt, ParseError>, s: ParV, want: Parsed<StmtV>) -> bool {
    match want {
        Ok((v, s1)) => r is Ok && r->Ok_0@ == v && s == s1,
        Err(e) => r is Err && r->Err_0@ == e,
    }
}

pub open spec fn gives_stmts(
    r: Result<Vec<Stmt>, ParseError>,
    s: ParV,
    want: Parsed<Seq<StmtV>>,
) -> bool {
    match want {
        Ok((v, s1)) => r is Ok && stmts_view(r->Ok_0@) == v && s == s1,
        Err(e) => r is Err && r->Err_0@ == e,
    }
}

// ---------------------------------------------------------------------------
// The parser.

/// What a parser is told before it starts.
#[derive(Debug)]
pub struct ParseConfig<'a> {
    pub dialect: &'a Dialect,
    pub host: &'a HostFunctions,
    pub builtins: &'a BuiltinNamespaces,
    pub allow_implicit_externs: bool,
    pub allow_implicit_semicolons: bool,
    pub enforce_mutable_bindings: bool,
}

impl<'a> ParseConfig<'a> {
    pub open spec fn view(&self) -> ParseConfigV {
        ParseConfigV {
            dialect: *self.dialect,
            host: *self.host,
            builtins: *self.builtins,
            allow_implicit_externs: self.allow_implicit_externs,
            allow_implicit_semicolons: self.allow_implicit_semicolons,
            enforce_mutable_bindings: self.enforce_mutable_bindings,
        }
    }
}

/// Makes statements of tokens.
#[derive(Debug)]
pub struct Parser<'a> {
    pub config: ParseConfig<'a>,
    pub tokens: Vec<Token>,
    pub pos: usize,
    pub names: Names,
    pub hosts: HostNames,
    pub schemas: Schemas,
    pub loop_depth: usize,
    pub function_body_depth: usize,
}

impl<'a> Parser<'a> {
    pub open spec fn view(&self) -> ParV {
        ParV {
            config: self.config@,
            ts: tokens_view(self.tokens@),
            pos: self.pos as int,
            names: self.names@,
            hosts: self.hosts@,
            schemas: self.schemas@,
            loop_depth: self.loop_depth,
            body_depth: self.function_body_depth,
        }
    }

    // Tokens.

    fn check(&self, kind: TokenKind) -> (r: bool)
        ensures
            r == at(self@, kind),
            r ==> self.pos < self.tokens@.len(),
    {
        check_kind_at(&self.tokens, self.pos, kind)
    }

    /// Whether a token of a kind stands some tokens on.
    fn check_ahead(&self, n: usize, kind: TokenKind) -> (r: bool)
        ensures
            r == ahead(self@, n as int, kind),
            r ==> self.pos + n < self.tokens@.len() <= usize::MAX,
    {
        let total: usize = self.tokens.len();
        self.pos < total && total - self.pos > n && self.tokens[self.pos + n].kind == kind
    }

    fn check_ident_literal(&self, n: usize, literal: &str) -> (r: bool)
        ensures
            r == word_ahead(self@, n as int, literal@),
            r ==> self.pos + n < self.tokens@.len(),
    {
        self.check_ahead(n, TokenKind::Ident) && same_text(
            self.tokens[self.pos + n].text.as_str(),
            literal,
        )
    }

    fn advance(&mut self, n: usize)
        requires
            old(self).pos + n <= old(self).tokens@.len(),
        ensures
            final(self)@ == skip(old(self)@, n as int),
    {
        let total: usize = self.tokens.len();
        self.pos = self.pos + n;
    }

    fn match_kind(&mut self, kind: TokenKind) -> (r: bool)
        ensures
            r == at(old(self)@, kind),
            r ==> final(self)@ == skip(old(self)@, 1),
            !r ==> final(self)@ == old(self)@,
    {
        if self.check(kind) {
            self.advance(1);
            true
        } else {
            false
        }
    }

    fn current_line(&self) -> (r: usize)
        ensures
            r == line_of(self@),
    {
        if self.pos < self.tokens.len() {
            self.tokens[self.pos].line
        } else {
            1
        }
    }

    fn current_line_u32(&self) -> (r: u32)
        ensures
            r == line_u32(self@),
    {
        let line: u64 = self.current_line() as u64;
        if line <= 0xFFFF_FFFF {
            line as u32
        } else {
            0xFFFF_FFFF
        }
    }

    fn previous_line(&self) -> (r: usize)
        ensures
            r == previous_line(self@),
    {
        let p: usize = if self.pos > 0 {
            self.pos - 1
        } else {
            0
        };
        if p < self.tokens.len() {
            self.tokens[p].line
        } else {
            1
        }
    }

    fn last_line(&self) -> (r: u32)
        ensures
            r == last_line(self@),
    {
        let line: u64 = self.previous_line() as u64;
        (line % 0x1_0000_0000) as u32
    }

    fn current_span(&self) -> (r: Span)
        ensures
            r == span_of(self@),
    {
        let total: usize = self.tokens.len();
        if self.pos < total {
            self.tokens[self.pos].span
        } else if total > 0 {
            let last = self.tokens[total - 1].span;
            Span::new(last.source_id, last.hi, last.hi)
        } else {
            Span::new(0, 0, 0)
        }
    }

    /// The text of the token at hand.
    fn current_text(&self) -> (r: String)
        requires
            self.pos < self.tokens@.len(),
        ensures
            r@ == text(self@),
    {
        self.tokens[self.pos].text.clone()
    }

    fn error(&self, message: &str) -> (r: ParseError)
        ensures
            r@ == fault(self@, message@),
    {
        ParseError {
            line: self.current_line(),
            message: message.to_string(),
            span: None,
            code: None,
        }
    }

    fn error_here(&self, message: &str) -> (r: ParseError)
        ensures
            r@ == fault_here(self@, message@),
    {
        ParseError {
            line: self.current_line(),
            message: message.to_string(),
            span: Some(self.current_span()),
            code: None,
        }
    }

    fn too_deep(&self) -> (r: ParseError)
        ensures
            r@ == too_deep(self@),
    {
        self.error("input is nested too deeply")
    }

    fn expect(&mut self, kind: TokenKind, message: &str) -> (r: Result<(), ParseError>)
        ensures
            gives_unit(r, final(self)@, expect(old(self)@, kind, message@)),
    {
        reveal(expect);
        if self.match_kind(kind) {
            Ok(())
        } else {
            Err(self.error_here(message))
        }
    }

    fn expect_text(&mut self, kind: TokenKind, message: &str) -> (r: Result<String, ParseError>)
        ensures
            gives_text(r, final(self)@, expect_text(old(self)@, kind, message@)),
    {
        if self.check(kind) {
            let found = self.current_text();
            self.advance(1);
            Ok(found)
        } else {
            Err(self.error_here(message))
        }
    }

    fn expect_ident(&mut self, message: &str) -> (r: Result<String, ParseError>)
        ensures
            gives_text(r, final(self)@, expect_ident(old(self)@, message@)),
    {
        self.expect_text(TokenKind::Ident, message)
    }

    fn expect_string_literal(&mut self, message: &str) -> (r: Result<String, ParseError>)
        ensures
            gives_text(r, final(self)@, expect_text(old(self)@, TokenKind::String, message@)),
    {
        self.expect_text(TokenKind::String, message)
    }

    fn expect_namespace_segment(&mut self, message: &str) -> (r: Result<String, ParseError>)
        ensures
            gives_text(r, final(self)@, expect_segment(old(self)@, message@)),
    {
        if self.match_kind(TokenKind::Match) {
            Ok("match".to_string())
        } else {
            self.expect_ident(message)
        }
    }

    fn check_path_separator(&self) -> (r: bool)
        ensures
            r == at_path_separator(self@),
            r ==> self.pos + 2 <= self.tokens@.len(),
    {
        self.check(TokenKind::Colon) && self.check_ahead(1, TokenKind::Colon)
    }

    fn check_assignment_start(&self) -> (r: bool)
        ensures
            r == at_assignment(self@),
    {
        self.check(TokenKind::Ident) && self.check_ahead(1, TokenKind::Equal)
    }

    fn check_index_assignment_start(&self) -> (r: bool)
        ensures
            r == at_index_assignment(self@),
    {
        reveal(at_index_assignment);
        if !self.check(TokenKind::Ident) {
            return false;
        }
        if self.check_ahead(1, TokenKind::Dot) && self.check_ahead(2, TokenKind::Ident)
            && self.check_ahead(3, TokenKind::Equal) {
            return true;
        }
        self.check_ahead(1, TokenKind::LBracket) && check_bracket_followed_by(
            &self.tokens,
            self.pos + 1,
            TokenKind::Equal,
            TokenKind::Equal,
        )
    }

    fn consume_stmt_terminator(&mut self, message: &str) -> (r: Result<(), ParseError>)
        ensures
            gives_unit(r, final(self)@, terminator(old(self)@, message@)),
    {
        reveal(terminator);
        if self.match_kind(TokenKind::Semicolon) {
            return Ok(());
        }
        if self.config.allow_implicit_semicolons && (self.check(TokenKind::RBrace) || self.check(
            TokenKind::Eof,
        ) || self.current_line() > self.previous_line()) {
            return Ok(());
        }
        Err(self.error(message))
    }

    fn starts_trailing_expr_block_statement(&self) -> (r: bool)
        ensures
            r == starts_statement(self@),
    {
        reveal(starts_statement);
        self.check(TokenKind::Pub) || self.check(TokenKind::Use) || (
        self.config.dialect.allow_import_stmt && self.check(TokenKind::Import)) || self.check(
            TokenKind::Fn,
        ) || self.check(TokenKind::Let) || self.check(TokenKind::For) || self.check(
            TokenKind::While,
        ) || self.check(TokenKind::Break) || self.check(TokenKind::Continue) || (
        self.config.dialect.allow_return_stmt && self.check_ident_literal(0, "return"))
            || self.check_assignment_start() || self.check_index_assignment_start() || (self.check(
            TokenKind::If,
        ) && !check_if_expression_start(&self.tokens, self.pos))
    }

    fn out_of_range_int_literal(&self) -> (r: ParseError)
        requires
            self.pos < self.tokens@.len(),
        ensures
            r@ == out_of_range(self@),
    {
        reveal(out_of_range);
        let found = self.current_text();
        let message = concat5(
            "integer literal '",
            found.as_str(),
            "' is out of range for i64; write '-",
            found.as_str(),
            "' for i64::MIN",
        );
        self.error_here(message.as_str())
    }

    /// Names with commas between them.
    fn parse_ident_list(&mut self, message: &str) -> (r: Result<Vec<String>, ParseError>)
        ensures
            gives_texts(r, final(self)@, ident_list(old(self)@, Seq::empty(), message@)),
    {
        let mut list = no_texts();
        let ghost goal = ident_list(self@, Seq::empty(), message@);
        let mut more = true;
        while more
            invariant
                more ==> goal == ident_list(self@, strings_view(list@), message@),
                !more ==> goal == Ok::<(Seq<Seq<char>>, ParV), ParseErrorV>(
                    (strings_view(list@), self@),
                ),
                goal == ident_list(old(self)@, Seq::empty(), message@),
            decreases self@.ts.len() - self@.pos, (if more {
                1int
            } else {
                0int
            }),
        {
            match self.expect_ident(message) {
                Ok(name) => push_text(&mut list, name),
                Err(e) => {
                    return Err(e);
                },
            }
            more = self.match_kind(TokenKind::Comma);
        }
        Ok(list)
    }

    // Names.

    fn allocate_hidden_local(&mut self) -> (r: Result<LocalSlot, ParseError>)
        ensures
            gives(r, final(self)@, allocate(old(self)@)),
    {
        match self.names.allocate() {
            Some(slot) => Ok(slot),
            None => Err(self.error("local index overflow")),
        }
    }

    fn capture_or_direct_local(&mut self, name: &str, source_index: LocalSlot) -> (r: Result<
        LocalSlot,
        ParseError,
    >)
        ensures
            gives(r, final(self)@, capture_or_direct(old(self)@, name@, source_index)),
    {
        reveal(capture_or_direct);
        assert(self.names@.captures.len() == self.names.closure_capture_contexts@.len());
        if self.names.closure_capture_contexts.len() == 0 {
            return Ok(source_index);
        }
        match self.names.captured_slot(name) {
            Some(slot) => {
                return Ok(slot);
            },
            None => {},
        }
        let slot: LocalSlot = match self.allocate_hidden_local() {
            Ok(slot) => slot,
            Err(e) => {
                return Err(e);
            },
        };
        let source_mutable = self.names.is_mutable(source_index);
        self.names.set_mutable(slot, source_mutable);
        assert(self.names@.captures.len() == self.names.closure_capture_contexts@.len());
        self.names.capture(name.to_string(), source_index, slot);
        Ok(slot)
    }

    fn get_local(&mut self, name: &str) -> (r: Result<LocalSlot, ParseError>)
        ensures
            gives(r, final(self)@, get_local(old(self)@, name@)),
    {
        reveal(get_local);
        assert(self.names@.scopes.len() == self.names.closure_scopes@.len());
        if self.names.closure_scopes.len() > 0 {
            match self.names.inner_slot(name) {
                Some(slot) => {
                    return Ok(slot);
                },
                None => {},
            }
            match self.names.outer_slot(name) {
                Some(slot) => {
                    return self.capture_or_direct_local(name, slot);
                },
                None => {},
            }
        }
        match self.names.locals.get(name) {
            Some(slot) => self.capture_or_direct_local(name, slot),
            None => {
                let message = concat3("unknown local '", name, "'");
                Err(self.error(message.as_str()))
            },
        }
    }

    fn wrong_arity(&self, name: &str, arity: u8) -> (r: ParseError)
        ensures
            r@ == wrong_arity(self@, name@, arity),
    {
        let mut message = concat3("function '", name, "' expects ");
        push_decimal(&mut message, arity as u64);
        message.push_str(" arguments");
        self.error(message.as_str())
    }

    /// Declares a function that was not declared before.
    fn define_function(
        &mut self,
        name: &str,
        arity: u8,
        exported: bool,
        return_type: ValueType,
    ) -> (r: Result<FunctionDecl, ParseError>)
        ensures
            gives_decl(
                r,
                final(self)@,
                new_function(old(self)@, name@, arity, exported, return_type),
            ),
    {
        reveal(new_function);
        if self.names.locals.get(name).is_some() {
            let message = concat3("name '", name, "' already used by a local binding");
            return Err(self.error(message.as_str()));
        }
        if self.names.next_function == 0xFFFF {
            return Err(self.error("function index overflow"));
        }
        let decl = FunctionDecl {
            name: name.to_string(),
            arity,
            index: self.names.next_function,
            args: numbered_args(arity),
            exported,
            return_type,
        };
        self.names.push_function(decl.clone());
        Ok(decl)
    }

    fn define_builtin_function(&mut self, name: &str, arity: u8) -> (r: Result<
        FunctionDecl,
        ParseError,
    >)
        ensures
            gives_decl(r, final(self)@, define_builtin(old(self)@, name@, arity)),
    {
        reveal(define_builtin);
        match self.names.find_function(name) {
            Some(decl) => Ok(decl),
            None => self.define_function(name, arity, true, ValueType::Unknown),
        }
    }

    fn define_external_function(&mut self, name: &str, arity: u8) -> (r: Result<
        FunctionDecl,
        ParseError,
    >)
        ensures
            gives_decl(r, final(self)@, define_external(old(self)@, name@, arity)),
    {
        reveal(define_external);
        match self.names.find_function(name) {
            Some(decl) => if decl.arity != arity {
                Err(self.wrong_arity(name, decl.arity))
            } else {
                Ok(decl)
            },
            None => self.define_function(name, arity, true, ValueType::Unknown),
        }
    }

    fn define_host_function(&mut self, name: &str, arity: u8) -> (r: Result<
        FunctionDecl,
        ParseError,
    >)
        ensures
            gives_decl(r, final(self)@, define_host(old(self)@, name@, arity)),
    {
        reveal(define_host);
        match self.names.find_function(name) {
            Some(decl) => if decl.arity != arity && !known_host_accepts_arity(
                self.config.host,
                name,
                arity,
            ) {
                Err(self.wrong_arity(name, decl.arity))
            } else {
                Ok(decl)
            },
            None => {
                let return_type = known_host_return_type(self.config.host, name);
                self.define_function(name, arity, false, return_type)
            },
        }
    }

    fn resolve_function_for_call(&mut self, name: &str, arg_count: usize) -> (r: Result<
        FunctionDecl,
        ParseError,
    >)
        ensures
            gives_decl(r, final(self)@, resolve_function(old(self)@, name@, arg_count as nat)),
    {
        reveal(resolve_function);
        match self.names.find_function(name) {
            Some(decl) => {
                return if decl.arity as usize != arg_count {
                    Err(self.wrong_arity(name, decl.arity))
                } else {
                    Ok(decl)
                };
            },
            None => {},
        }
        if same_text(name, "print") {
            if arg_count > 255 {
                return Err(self.error("function arity too large"));
            }
            if arg_count != 1 {
                return Err(self.wrong_arity(name, 1));
            }
            return self.define_builtin_function(name, 1);
        }
        if self.config.allow_implicit_externs {
            if arg_count > 255 {
                return Err(self.error("function arity too large"));
            }
            return self.define_external_function(name, arg_count as u8);
        }
        let message = concat3("unknown function '", name, "'");
        Err(self.error(message.as_str()))
    }

    /// What a slot is called in messages.
    fn display_name(&self, slot: LocalSlot, hint: Option<&str>) -> (r: String)
        ensures
            r@ == display_name(
                self@,
                slot,
                match hint {
                    Some(name) => Some(name@),
                    None => None,
                },
            ),
    {
        reveal(display_name);
        match hint {
            Some(name) => name.to_string(),
            None => match self.names.find_local_name_by_slot(slot) {
                Some(name) => name,
                None => {
                    let mut out = String::new();
                    out.push_str("#");
                    push_decimal(&mut out, slot as u64);
                    assert(out@ =~= "#"@ + crate::text::decimal(slot as nat));
                    out
                },
            },
        }
    }

    fn require_local_mutable_for_operation(
        &self,
        slot: LocalSlot,
        hint: Option<&str>,
        line: u32,
        action: &str,
    ) -> (r: Result<(), ParseError>)
        ensures
            match immutable(
                self@,
                slot,
                match hint {
                    Some(name) => Some(name@),
                    None => None,
                },
                line,
                action@,
            ) {
                Some(e) => r is Err && r->Err_0@ == e,
                None => r is Ok,
            },
    {
        reveal(immutable);
        if !self.config.enforce_mutable_bindings || self.names.is_mutable(slot) {
            return Ok(());
        }
        let display = self.display_name(slot, hint);
        let mut message = concat5(
            "cannot ",
            action,
            " immutable local '",
            display.as_str(),
            "'; declare it as 'let mut ",
        );
        message.push_str(display.as_str());
        message.push_str(" = ...'");
        Err(
            ParseError {
                line: line as usize,
                message,
                span: None,
                code: Some("E_IMMUTABLE_LOCAL".to_string()),
            },
        )
    }

    fn apply_let_binding_mutability(&mut self, slot: LocalSlot, declared: bool, created: bool)
        ensures
            final(self)@ == let_mutability(old(self)@, slot, declared, created),
    {
        reveal(let_mutability);
        if self.config.enforce_mutable_bindings && (created || declared) {
            self.names.set_mutable(slot, declared);
        }
    }

    /// The slot of a `let`.
    fn bind_let(&mut self, name: String, declared: bool) -> (r: Result<LocalSlot, ParseError>)
        ensures
            gives(r, final(self)@, let_slot(old(self)@, name@, declared)),
    {
        reveal(let_slot);
        assert(self.names@.scopes.len() == self.names.closure_scopes@.len());
        let inner = self.names.closure_scopes.len() > 0;
        let known = if inner {
            self.names.inner_slot(name.as_str())
        } else {
            self.names.locals.get(name.as_str())
        };
        match known {
            Some(slot) => {
                self.apply_let_binding_mutability(slot, declared, false);
                Ok(slot)
            },
            None => {
                let slot: LocalSlot = match self.allocate_hidden_local() {
                    Ok(slot) => slot,
                    Err(e) => {
                        return Err(e);
                    },
                };
                assert(self.names@.scopes.len() == self.names.closure_scopes@.len());
                if inner {
                    self.names.bind_inner(name, slot);
                } else {
                    self.names.locals.bind(name, slot);
                }
                self.apply_let_binding_mutability(slot, declared, true);
                Ok(slot)
            },
        }
    }

    /// Gives each parameter a slot, and enters the scope that binds them.
    fn bind_params(&mut self, params: &Vec<String>, what: &str) -> (r: Result<
        (Scope, Vec<LocalSlot>),
        ParseError,
    >)
        ensures
            match param_slots(
                old(self)@,
                strings_view(params@),
                0,
                Seq::empty(),
                Seq::empty(),
                what@,
            ) {
                Ok(((scope, slots), s1)) => r is Ok && (r->Ok_0).0@ == scope && (r->Ok_0).1@
                    == slots && final(self)@ == s1,
                Err(e) => r is Err && r->Err_0@ == e,
            },
    {
        let ghost all = strings_view(params@);
        let ghost goal = param_slots(self@, all, 0, Seq::empty(), Seq::empty(), what@);
        let mut scope = Scope::new();
        let mut slots: Vec<LocalSlot> = Vec::new();
        assert(slots@ =~= Seq::<LocalSlot>::empty());
        let mut i: usize = 0;
        while i < params.len()
            invariant
                i <= params@.len(),
                all == strings_view(params@),
                goal == param_slots(old(self)@, all, 0, Seq::empty(), Seq::empty(), what@),
                goal == param_slots(self@, all, i as int, scope@, slots@, what@),
            decreases params@.len() - i,
        {
            assert(all[i as int] == params@[i as int]@);
            if scope.get(params[i].as_str()).is_some() {
                let message = concat5(
                    "duplicate ",
                    what,
                    " parameter '",
                    params[i].as_str(),
                    "'",
                );
                return Err(self.error(message.as_str()));
            }
            let slot: LocalSlot = match self.allocate_hidden_local() {
                Ok(slot) => slot,
                Err(e) => {
                    return Err(e);
                },
            };
            scope.bind(params[i].clone(), slot);
            slots.push(slot);
            i += 1;
        }
        Ok((scope, slots))
    }
}

/// An entry between braces: with a key, or without.
#[derive(Debug)]
pub struct BraceLiteralEntry {
    pub key: Option<Expr>,
    pub value: Expr,
}

impl BraceLiteralEntry {
    pub open spec fn view(&self) -> EntryV {
        EntryV { key: opt_expr(self.key), value: self.value@ }
    }
}

pub open spec fn entries_view(s: Seq<BraceLiteralEntry>) -> Seq<EntryV> {
    Seq::new(s.len(), |i: int| s[i]@)
}

/// What entries between braces stand for.
fn build_brace_expr(entries: Vec<BraceLiteralEntry>, has_map_entries: bool) -> (r: Expr)
    requires
        has_map_entries == has_keys(entries_view(entries@)),
    ensures
        r@ == brace_value(entries_view(entries@)),
{
    reveal(brace_value);
    let ghost all = entries_view(entries@);
    let ghost values = entry_values(all);
    let mut out = if has_map_entries {
        build_call0(BuiltinFunction::MapNew)
    } else {
        build_call0(BuiltinFunction::ArrayNew)
    };
    let mut next_array_index: i64 = 0;
    for entry in it: entries
        invariant
            it.seq() == entries@,
            all == entries_view(entries@),
            values == entry_values(all),
            has_map_entries == has_keys(all),
            brace_value(all) == (if has_map_entries {
                map_from(all, it.index() as int, out@, next_array_index)
            } else {
                array_from(values, it.index() as int, out@)
            }),
    {
        reveal(brace_value);
        let ghost k = it.index() as int;
        assert(all[k] == entry@);
        assert(values[k] == entry.value@);
        if has_map_entries {
            match entry.key {
                Some(key) => {
                    out = build_call3(BuiltinFunction::SetAt, out, key, entry.value);
                },
                None => {
                    out = build_call3(
                        BuiltinFunction::SetAt,
                        out,
                        Expr::Int(next_array_index),
                        entry.value,
                    );
                    if next_array_index < i64::MAX {
                        next_array_index = next_array_index + 1;
                    }
                },
            }
        } else {
            out = build_call2(BuiltinFunction::ArrayPush, out, entry.value);
        }
    }
    out
}

pub fn match_type_pattern_from_ident(name: &str) -> (r: Option<MatchTypePattern>)
    ensures
        r == type_pattern(name@),
{
    if same_text(name, "Int") || same_text(name, "int") {
        Some(MatchTypePattern::Int)
    } else if same_text(name, "Float") || same_text(name, "float") {
        Some(MatchTypePattern::Float)
    } else if same_text(name, "Number") || same_text(name, "number") {
        Some(MatchTypePattern::Number)
    } else if same_text(name, "Bool") || same_text(name, "bool") {
        Some(MatchTypePattern::Bool)
    } else if same_text(name, "String") || same_text(name, "string") {
        Some(MatchTypePattern::String)
    } else if same_text(name, "Array") || same_text(name, "array") {
        Some(MatchTypePattern::Array)
    } else if same_text(name, "Map") || same_text(name, "map") {
        Some(MatchTypePattern::Mapping)
    } else {
        None
    }
}

fn extract_mut_borrow_root_slot(e: &Expr) -> (r: Option<LocalSlot>)
    ensures
        r == borrow_root(e@),
{
    match e {
        Expr::Var(slot) => Some(*slot),
        Expr::Call(index, args) => {
            assert(exprs_view(args@).len() == args@.len());
            if *index == BuiltinFunction::Get.call_index() && args.len() == 2 {
                assert(exprs_view(args@)[0] == args@[0]@);
                match &args[0] {
                    Expr::Var(slot) => Some(*slot),
                    _ => None,
                }
            } else {
                None
            }
        },
        _ => None,
    }
}

pub open spec fn opt_pattern(p: Option<MatchPattern>) -> Option<PatternV> {
    match p {
        Some(x) => Some(x@),
        None => None,
    }
}

impl<'a> Parser<'a> {
    // Calls.

    fn build_builtin_call_expr(&self, builtin: BuiltinFunction, args: Vec<Expr>) -> (r: Result<
        Expr,
        ParseError,
    >)
        ensures
            gives_pure_expr(r, builtin_call(self@, builtin, exprs_view(args@))),
    {
        reveal(builtin_call);
        assert(exprs_view(args@).len() == args@.len());
        if args.len() > 255 {
            return Err(self.error("function arity too large"));
        }
        let arity: usize = builtin.arity() as usize;
        if args.len() == arity {
            return Ok(Expr::Call(builtin.call_index(), args));
        }
        if args.len() == arity + 1 && is_regex_with_flags(builtin) {
            let rewritten = rewrite_regex_flags_arg_into_pattern(args);
            return Ok(Expr::Call(builtin.call_index(), rewritten));
        }
        Err(self.wrong_arity(builtin.name(), builtin.arity()))
    }

    fn build_host_call_expr(&mut self, host_name: &str, args: Vec<Expr>) -> (r: Result<
        Expr,
        ParseError,
    >)
        ensures
            gives_expr(r, final(self)@, host_call(old(self)@, host_name@, exprs_view(args@))),
    {
        reveal(host_call);
        assert(exprs_view(args@).len() == args@.len());
        if args.len() > 255 {
            return Err(self.error("function arity too large"));
        }
        let decl = match self.define_host_function(host_name, args.len() as u8) {
            Ok(v) => v,
            Err(e) => {
                return Err(e);
            },
        };
        Ok(Expr::Call(decl.index, args))
    }

    fn build_declared_call_expr(&mut self, name: &str, args: Vec<Expr>) -> (r: Result<
        Expr,
        ParseError,
    >)
        ensures
            gives_expr(r, final(self)@, declared_call(old(self)@, name@, exprs_view(args@))),
    {
        reveal(declared_call);
        assert(exprs_view(args@).len() == args@.len());
        let decl = match self.resolve_function_for_call(name, args.len()) {
            Ok(v) => v,
            Err(e) => {
                return Err(e);
            },
        };
        Ok(Expr::Call(decl.index, args))
    }

    fn build_print_call_expr(&mut self, argument: Expr) -> (r: Result<Expr, ParseError>)
        ensures
            gives_expr(r, final(self)@, print_call(old(self)@, argument@)),
    {
        reveal(print_call);
        let decl = match self.resolve_function_for_call("print", 1) {
            Ok(v) => v,
            Err(e) => {
                return Err(e);
            },
        };
        let ghost want = seq![argument@];
        let mut args = no_exprs();
        push_expr(&mut args, argument);
        assert(exprs_view(args@) =~= want);
        Ok(Expr::Call(decl.index, args))
    }

    /// A template with its arguments, given what is wrong with it.
    pub fn build_template_call_expr(
        &self,
        callee: &str,
        template: String,
        values: Vec<Expr>,
        wrong: Option<usize>,
    ) -> (r: Result<Expr, ParseError>)
        ensures
            gives_pure_expr(
                r,
                template_call(self@, callee@, template@, exprs_view(values@), wrong),
            ),
    {
        reveal(template_call);
        match wrong {
            Some(offset) => {
                let mut message = concat3(callee, " format string is invalid near byte ", "");
                push_decimal(&mut message, offset as u64);
                proof {
                    reveal_strlit("");
                    assert(callee@ + " format string is invalid near byte "@ + ""@ =~= callee@
                        + " format string is invalid near byte "@);
                }
                Err(self.error(message.as_str()))
            },
            None => Ok(
                build_call2(
                    BuiltinFunction::FormatTemplate,
                    Expr::String(template),
                    build_array_expr(values),
                ),
            ),
        }
    }

    fn build_ruststyle_format_expr(&self, callee: &str, args: Vec<Expr>) -> (r: Result<
        Expr,
        ParseError,
    >)
        requires
            args@.len() > 0,
        ensures
            gives_pure_expr(r, formatted_text(self@, callee@, exprs_view(args@))),
    {
        reveal(formatted_text);
        let ghost all = exprs_view(args@);
        assert(all.len() == args@.len());
        let count: usize = args.len() - 1;
        let mut template: Option<String> = None;
        let mut first = true;
        let mut values = no_exprs();
        assert(exprs_view(values@) =~= all.skip(1).take(0));
        for arg in it: args
            invariant
                it.seq() == args@,
                all == exprs_view(args@),
                all.len() == args@.len(),
                all.len() > 0,
                first == (it.index() == 0),
                first ==> template is None,
                it.index() > 0 ==> opt_text(template) == (match all[0] {
                    ExprV::Str(s) => Some(s),
                    _ => None,
                }),
                it.index() == 0 ==> exprs_view(values@) == all.skip(1).take(0),
                it.index() > 0 ==> exprs_view(values@) == all.skip(1).take(it.index() - 1),
        {
            let ghost k = it.index() as int;
            assert(all[k] == arg@);
            if first {
                first = false;
                match arg {
                    Expr::String(s) => {
                        template = Some(s);
                    },
                    _ => {},
                }
            } else {
                push_expr(&mut values, arg);
                assert(all.skip(1).take(k - 1).push(all[k]) =~= all.skip(1).take(k));
            }
        }
        assert(all.skip(1).take(all.len() - 1) =~= all.skip(1));
        match template {
            Some(s) => {
                let wrong = find_template_fault(s.as_str(), count);
                self.build_template_call_expr(callee, s, values, wrong)
            },
            None => {
                let message = concat3(
                    callee,
                    " formatting requires a string literal as the first argument",
                    "",
                );
                proof {
                    reveal_strlit("");
                    assert(callee@
                        + " formatting requires a string literal as the first argument"@ + ""@
                        =~= callee@
                        + " formatting requires a string literal as the first argument"@);
                }
                Err(self.error(message.as_str()))
            },
        }
    }

    /// What `print` or `println` writes.
    fn render_print_args(&self, newline: bool, args: Vec<Expr>) -> (r: Result<Expr, ParseError>)
        ensures
            gives_pure_expr(r, printed(self@, newline, exprs_view(args@))),
    {
        reveal(printed);
        let ghost all = exprs_view(args@);
        assert(all.len() == args@.len());
        if !self.config.dialect.allow_macro_calls {
            if !newline {
                return Ok(render_plain_print_args(args));
            }
            if args.len() == 0 {
                return Ok(build_text("\n"));
            }
            return Ok(append_newline_expr(build_to_string_expr(render_plain_print_args(args))));
        }
        if args.len() == 0 {
            if newline {
                return Ok(build_text("\n"));
            }
            return Err(self.error("print expects at least one argument"));
        }
        if args.len() == 1 {
            reveal(plain_text);
            let only = render_plain_print_args(args);
            if newline {
                return Ok(append_newline_expr(build_to_string_expr(only)));
            }
            return Ok(only);
        }
        if newline {
            let rendered = match self.build_ruststyle_format_expr("println", args) {
                Ok(v) => v,
                Err(e) => {
                    return Err(e);
                },
            };
            Ok(append_newline_expr(rendered))
        } else {
            self.build_ruststyle_format_expr("print", args)
        }
    }

    fn lower_print_call(&mut self, newline: bool, args: Vec<Expr>) -> (r: Result<Expr, ParseError>)
        ensures
            gives_expr(r, final(self)@, print_stmt(old(self)@, newline, exprs_view(args@))),
    {
        reveal(print_stmt);
        let rendered = match self.render_print_args(newline, args) {
            Ok(v) => v,
            Err(e) => {
                return Err(e);
            },
        };
        self.build_print_call_expr(rendered)
    }

    fn build_named_call_expr(&mut self, name: &str, args: Vec<Expr>) -> (r: Result<
        Expr,
        ParseError,
    >)
        ensures
            gives_expr(r, final(self)@, named_call(old(self)@, name@, exprs_view(args@))),
    {
        reveal(named_call);
        let ghost all = exprs_view(args@);
        assert(all.len() == args@.len());
        if self.names.has_local_binding(name) {
            let slot: LocalSlot = match self.get_local(name) {
                Ok(v) => v,
                Err(e) => {
                    return Err(e);
                },
            };
            return Ok(Expr::LocalCall(slot, args));
        }
        reveal(language_call);
        reveal(plain_text);
        let newline = same_text(name, "println");
        let printing = newline || same_text(name, "print");
        match self.names.find_function(name) {
            Some(decl) => {
                if printing && !self.names.has_impl(decl.index) {
                    return self.lower_print_call(newline, args);
                }
                return self.build_declared_call_expr(name, args);
            },
            None => {},
        }
        if printing {
            return self.lower_print_call(newline, args);
        }
        if same_text(name, "type") {
            if args.len() != 1 {
                return Err(self.error("type expects exactly one argument"));
            }
            let only = render_plain_print_args(args);
            return Ok(build_call1(BuiltinFunction::TypeOf, only));
        }
        if same_text(name, "assert") {
            return self.build_builtin_call_expr(BuiltinFunction::Assert, args);
        }
        match self.hosts.resolve_direct_host_call_target(name) {
            Some(target) => self.build_host_call_expr(target.as_str(), args),
            None => self.build_declared_call_expr(name, args),
        }
    }

    fn unknown_builtin(&self, root: &str, member: &str) -> (r: ParseError)
        ensures
            r@ == unknown_builtin(self@, root@, member@),
    {
        let message = concat5("unknown builtin function '", root, "::", member, "'");
        self.error(message.as_str())
    }

    fn build_builtin_member_call(&self, root: &str, member: &str, args: Vec<Expr>) -> (r: Result<
        Expr,
        ParseError,
    >)
        ensures
            gives_pure_expr(r, builtin_member_call(self@, root@, member@, exprs_view(args@))),
    {
        reveal(builtin_member_call);
        match self.config.builtins.resolve_builtin_namespace_call(root, member) {
            Some(builtin) => self.build_builtin_call_expr(builtin, args),
            None => Err(self.unknown_builtin(root, member)),
        }
    }

    fn build_path_call_expr(
        &mut self,
        name: &str,
        path: Vec<String>,
        args: Vec<Expr>,
    ) -> (r: Result<
        Expr,
        ParseError,
    >)
        ensures
            gives_expr(
                r,
                final(self)@,
                path_call(old(self)@, name@, strings_view(path@), exprs_view(args@)),
            ),
    {
        reveal(path_call);
        let ghost segments = strings_view(path@);
        if path.len() == 1 {
            assert(segments[0] == path@[0]@);
            match self.hosts.resolve_imported_builtin_namespace(self.config.builtins, name) {
                Some(root) => {
                    return self.build_builtin_member_call(root.as_str(), path[0].as_str(), args);
                },
                None => {},
            }
        }
        match self.hosts.resolve_host_namespace_call_target(name, &path) {
            Some(target) => self.build_host_call_expr(target.as_str(), args),
            None => {
                let tail = join_texts(&path, "::");
                assert(Seq::new(path@.len(), |i: int| path@[i]@) =~= segments);
                let mut message = concat5(
                    "unknown namespace call '",
                    name,
                    "::",
                    tail.as_str(),
                    "'; import builtin namespaces first (",
                );
                message.push_str(self.config.builtins.hint.as_str());
                message.push_str(
                    "), and for host calls import the matching host namespace or alias",
                );
                Err(self.error(message.as_str()))
            },
        }
    }

    fn build_dotted_call_expr(
        &mut self,
        base: &str,
        path: Vec<String>,
        args: Vec<Expr>,
    ) -> (r: Result<Option<Expr>, ParseError>)
        ensures
            gives_opt_expr(
                r,
                final(self)@,
                dotted_target(old(self)@, base@, strings_view(path@), exprs_view(args@)),
            ),
    {
        reveal(dotted_target);
        let ghost segments = strings_view(path@);
        if path.len() > 0 {
            assert(segments[0] == path@[0]@);
        }
        if same_text(base, "console") && path.len() == 1 && same_text(path[0].as_str(), "log") {
            let e = match self.build_print_call_expr(render_plain_print_args(args)) {
                Ok(v) => v,
                Err(e) => {
                    return Err(e);
                },
            };
            return Ok(Some(e));
        }
        match self.hosts.resolve_imported_builtin_namespace(self.config.builtins, base) {
            Some(root) => {
                if path.len() != 1 {
                    let tail = join_texts(&path, "::");
                    assert(Seq::new(path@.len(), |i: int| path@[i]@) =~= segments);
                    return Err(self.unknown_builtin(root.as_str(), tail.as_str()));
                }
                let e = match self.build_builtin_member_call(
                    root.as_str(),
                    path[0].as_str(),
                    args,
                ) {
                    Ok(v) => v,
                    Err(e) => {
                        return Err(e);
                    },
                };
                return Ok(Some(e));
            },
            None => {},
        }
        match self.hosts.resolve_host_namespace_call_target(base, &path) {
            Some(target) => {
                let e = match self.build_host_call_expr(target.as_str(), args) {
                    Ok(v) => v,
                    Err(e) => {
                        return Err(e);
                    },
                };
                Ok(Some(e))
            },
            None => Ok(None),
        }
    }

    fn build_non_strict_comparison(&mut self, op: BinOp, lhs: Expr, rhs: Expr) -> (r: Result<
        Expr,
        ParseError,
    >)
        ensures
            gives_expr(r, final(self)@, non_strict(old(self)@, op, lhs@, rhs@)),
    {
        reveal(non_strict);
        let lhs_slot: LocalSlot = match self.allocate_hidden_local() {
            Ok(v) => v,
            Err(e) => {
                return Err(e);
            },
        };
        let rhs_slot: LocalSlot = match self.allocate_hidden_local() {
            Ok(v) => v,
            Err(e) => {
                return Err(e);
            },
        };
        let line: u32 = self.last_line();
        let first = Stmt::Let { index: lhs_slot, expr: lhs, line };
        let second = Stmt::Let { index: rhs_slot, expr: rhs, line };
        let ghost want = seq![first@, second@];
        let mut stmts = no_stmts();
        push_stmt(&mut stmts, first);
        push_stmt(&mut stmts, second);
        assert(stmts_view(stmts@) =~= want);
        let strict = build_binary(op, Expr::Var(lhs_slot), Expr::Var(rhs_slot));
        let equal = build_binary(BinOp::Eq, Expr::Var(lhs_slot), Expr::Var(rhs_slot));
        Ok(Expr::Block { stmts, expr: Box::new(build_binary(BinOp::Or, strict, equal)) })
    }

    fn bind_hidden_local_expr(
        &mut self,
        value_slot: LocalSlot,
        value: Expr,
        body: Expr,
    ) -> (r: Result<
        Expr,
        ParseError,
    >)
        ensures
            gives_expr(r, final(self)@, bind_hidden(old(self)@, value_slot, value@, body@)),
    {
        reveal(bind_hidden);
        let result_slot: LocalSlot = match self.allocate_hidden_local() {
            Ok(v) => v,
            Err(e) => {
                return Err(e);
            },
        };
        Ok(
            Expr::Match {
                value_slot,
                result_slot,
                value: Box::new(value),
                arms: no_arms(),
                default: Box::new(body),
            },
        )
    }

    fn build_slice_body(
        &mut self,
        container_slot: LocalSlot,
        start_slot: LocalSlot,
        start: Expr,
        end: Option<Expr>,
    ) -> (r: Result<Expr, ParseError>)
        ensures
            gives_expr(
                r,
                final(self)@,
                slice_body(old(self)@, container_slot, start_slot, start@, opt_expr(end)),
            ),
    {
        reveal(slice_body);
        let len_expr = build_call1(BuiltinFunction::Len, Expr::Var(container_slot));
        match end {
            None => {
                let slice_expr = build_slice_of(container_slot, start_slot, len_expr);
                self.bind_hidden_local_expr(start_slot, start, slice_expr)
            },
            Some(end_expr) => {
                let end_slot: LocalSlot = match self.allocate_hidden_local() {
                    Ok(v) => v,
                    Err(e) => {
                        return Err(e);
                    },
                };
                let end_is_negative = build_binary(BinOp::Lt, Expr::Var(end_slot), Expr::Int(0));
                let adjusted_end = build_if_else(
                    end_is_negative,
                    build_binary(BinOp::Add, len_expr, Expr::Var(end_slot)),
                    Expr::Var(end_slot),
                );
                let slice_expr = build_slice_of(container_slot, start_slot, adjusted_end);
                let with_end = match self.bind_hidden_local_expr(end_slot, end_expr, slice_expr) {
                    Ok(v) => v,
                    Err(e) => {
                        return Err(e);
                    },
                };
                self.bind_hidden_local_expr(start_slot, start, with_end)
            },
        }
    }

    fn build_slice_access_expr(
        &mut self,
        container: Expr,
        start: Option<Expr>,
        end: Option<Expr>,
    ) -> (r: Result<Expr, ParseError>)
        ensures
            gives_expr(
                r,
                final(self)@,
                slice_access(old(self)@, container@, opt_expr(start), opt_expr(end)),
            ),
    {
        reveal(slice_access);
        let start_expr = match start {
            Some(e) => e,
            None => Expr::Int(0),
        };
        match container {
            Expr::Var(slot) => {
                let start_slot: LocalSlot = match self.allocate_hidden_local() {
                    Ok(v) => v,
                    Err(e) => {
                        return Err(e);
                    },
                };
                self.build_slice_body(slot, start_slot, start_expr, end)
            },
            other => {
                let slot: LocalSlot = match self.allocate_hidden_local() {
                    Ok(v) => v,
                    Err(e) => {
                        return Err(e);
                    },
                };
                let start_slot: LocalSlot = match self.allocate_hidden_local() {
                    Ok(v) => v,
                    Err(e) => {
                        return Err(e);
                    },
                };
                let body = match self.build_slice_body(slot, start_slot, start_expr, end) {
                    Ok(v) => v,
                    Err(e) => {
                        return Err(e);
                    },
                };
                self.bind_hidden_local_expr(slot, other, body)
            },
        }
    }

    fn build_optional_get_expr(&mut self, container: Expr, key: Expr) -> (r: Result<
        Expr,
        ParseError,
    >)
        ensures
            gives_expr(r, final(self)@, optional_get(old(self)@, container@, key@)),
    {
        reveal(optional_get);
        let container_slot: LocalSlot = match self.allocate_hidden_local() {
            Ok(v) => v,
            Err(e) => {
                return Err(e);
            },
        };
        let key_slot: LocalSlot = match self.allocate_hidden_local() {
            Ok(v) => v,
            Err(e) => {
                return Err(e);
            },
        };
        let guarded = build_optional_lookup(container_slot, key_slot);
        let key_bound = match self.bind_hidden_local_expr(key_slot, key, guarded) {
            Ok(v) => v,
            Err(e) => {
                return Err(e);
            },
        };
        self.bind_hidden_local_expr(container_slot, container, key_bound)
    }

    fn build_mutable_borrow(&self, inner: Expr) -> (r: Result<Expr, ParseError>)
        ensures
            gives_pure_expr(r, mutable_borrow(self@, inner@)),
    {
        reveal(mutable_borrow);
        match extract_mut_borrow_root_slot(&inner) {
            None => Err(
                self.error("mutable borrow target must be a local, local field, or local index"),
            ),
            Some(slot) => {
                match self.require_local_mutable_for_operation(
                    slot,
                    None,
                    self.current_line_u32(),
                    "take a mutable borrow of",
                ) {
                    Ok(v) => v,
                    Err(e) => {
                        return Err(e);
                    },
                };
                Ok(build_unary(UnOp::BorrowMut, inner))
            },
        }
    }

    // Looking ahead.

    fn check_parenthesized_arrow_closure_start(&self) -> (r: bool)
        ensures
            r == at_parenthesized_arrow(self@),
    {
        reveal(at_parenthesized_arrow);
        if !self.check(TokenKind::LParen) {
            return false;
        }
        if self.check_ahead(1, TokenKind::RParen) {
            return self.check_ahead(2, TokenKind::FatArrow);
        }
        let ghost ts = self@.ts;
        let total: usize = self.tokens.len();
        let mut cursor: usize = self.pos + 1;
        let mut expect_ident = true;
        while cursor < total
            invariant
                self.pos < cursor,
                ts == self@.ts,
                total == ts.len(),
                at_parenthesized_arrow(self@) == arrow_params(ts, self.pos + 1, true),
                arrow_params(ts, self.pos + 1, true) == arrow_params(
                    ts,
                    cursor as int,
                    expect_ident,
                ),
            decreases total - cursor,
        {
            reveal(at_parenthesized_arrow);
            let kind = self.tokens[cursor].kind;
            assert(ts[cursor as int].kind == kind);
            if expect_ident {
                if kind != TokenKind::Ident {
                    return false;
                }
                expect_ident = false;
            } else if kind == TokenKind::Comma {
                expect_ident = true;
            } else {
                return kind == TokenKind::RParen && check_kind_at(
                    &self.tokens,
                    cursor + 1,
                    TokenKind::FatArrow,
                );
            }
            cursor += 1;
        }
        false
    }

    fn check_single_param_arrow_closure_start(&self) -> (r: bool)
        ensures
            r == at_single_arrow(self@),
            r ==> self.pos + 2 <= self.tokens@.len(),
    {
        self.check(TokenKind::Ident) && self.check_ahead(1, TokenKind::FatArrow)
    }

    fn check_map_entry_start(&self) -> (r: bool)
        ensures
            r == at_map_entry(self@),
    {
        reveal(at_map_entry);
        if self.check(TokenKind::LBracket) {
            return check_bracket_followed_by(
                &self.tokens,
                self.pos,
                TokenKind::Colon,
                TokenKind::Equal,
            );
        }
        let is_key = self.check(TokenKind::Ident) || self.check(TokenKind::String) || self.check(
            TokenKind::Int,
        ) || self.check(TokenKind::IntMinMagnitude) || self.check(TokenKind::Float) || self.check(
            TokenKind::True,
        ) || self.check(TokenKind::False) || self.check(TokenKind::Null);
        is_key && (self.check_ahead(1, TokenKind::Colon) || self.check_ahead(1, TokenKind::Equal))
    }

    fn parse_map_key_literal(&mut self) -> (r: Result<Expr, ParseError>)
        ensures
            gives_expr(r, final(self)@, map_key(old(self)@)),
    {
        reveal(map_key);
        if self.check(TokenKind::Ident) || self.check(TokenKind::String) {
            let e = Expr::String(self.current_text());
            self.advance(1);
            Ok(e)
        } else if self.check(TokenKind::Int) {
            let e = Expr::Int(self.tokens[self.pos].number);
            self.advance(1);
            Ok(e)
        } else if self.check(TokenKind::IntMinMagnitude) {
            Err(self.out_of_range_int_literal())
        } else if self.check(TokenKind::Float) {
            let e = Expr::Float(self.current_text());
            self.advance(1);
            Ok(e)
        } else if self.match_kind(TokenKind::True) {
            Ok(Expr::Bool(true))
        } else if self.match_kind(TokenKind::False) {
            Ok(Expr::Bool(false))
        } else if self.match_kind(TokenKind::Null) {
            Ok(Expr::Null)
        } else {
            Err(self.error("map keys must be identifier/string/int/float/bool/null literals"))
        }
    }

    fn parse_some_type_pattern(&mut self) -> (r: Result<MatchTypePattern, ParseError>)
        ensures
            gives(r, final(self)@, some_pattern(old(self)@)),
    {
        reveal(some_pattern);
        match self.expect(TokenKind::LParen, "expected '(' after Some in match type pattern") {
            Ok(v) => v,
            Err(e) => {
                return Err(e);
            },
        };
        let name = match self.expect_ident("expected type name inside Some(...)") {
            Ok(v) => v,
            Err(e) => {
                return Err(e);
            },
        };
        let pattern = match match_type_pattern_from_ident(name.as_str()) {
            Some(pattern) => pattern,
            None => {
                return Err(
                    self.error(
                        "unknown match type pattern; expected one of Int/Float/Number/Bool/String/Array/Map",
                    ),
                );
            },
        };
        match self.expect(TokenKind::RParen, "expected ')' after Some(TypeName) match pattern") {
            Ok(v) => v,
            Err(e) => {
                return Err(e);
            },
        };
        Ok(pattern)
    }

    fn bad_pattern(&self) -> (r: ParseError)
        ensures
            r@ == bad_pattern(self@),
    {
        self.error(
            "match patterns currently support int/string/null literals, type patterns via Some(TypeName), and '_'",
        )
    }

    fn parse_match_pattern(&mut self, budget: u64) -> (r: Result<Option<MatchPattern>, ParseError>)
        ensures
            match match_pattern(old(self)@, budget as nat) {
                Ok((p, s1)) => r is Ok && opt_pattern(r->Ok_0) == p && final(self)@ == s1,
                Err(e) => r is Err && r->Err_0@ == e,
            },
        decreases budget,
    {
        if budget == 0 {
            return Err(self.too_deep());
        }
        if self.match_kind(TokenKind::LParen) {
            let pattern = match self.parse_match_pattern(budget - 1) {
                Ok(v) => v,
                Err(e) => {
                    return Err(e);
                },
            };
            match self.expect(TokenKind::RParen, "expected ')' after parenthesized match pattern") {
                Ok(v) => v,
                Err(e) => {
                    return Err(e);
                },
            };
            return Ok(pattern);
        }
        if self.check(TokenKind::Int) {
            let number: i64 = self.tokens[self.pos].number;
            self.advance(1);
            return Ok(Some(MatchPattern::Int(number)));
        }
        if self.check(TokenKind::IntMinMagnitude) {
            return Err(self.out_of_range_int_literal());
        }
        if self.check(TokenKind::String) {
            let literal = self.current_text();
            self.advance(1);
            return Ok(Some(MatchPattern::String(literal)));
        }
        if self.match_kind(TokenKind::Null) {
            return Ok(Some(MatchPattern::Null));
        }
        if self.check(TokenKind::Ident) {
            let name = self.current_text();
            self.advance(1);
            if same_text(name.as_str(), "_") {
                return Ok(None);
            }
            if same_text(name.as_str(), "Some") {
                let pattern = match self.parse_some_type_pattern() {
                    Ok(v) => v,
                    Err(e) => {
                        return Err(e);
                    },
                };
                return Ok(Some(MatchPattern::Type(pattern)));
            }
        }
        Err(self.bad_pattern())
    }

    fn parse_path_segments(&mut self) -> (r: Result<Vec<String>, ParseError>)
        ensures
            gives_texts(r, final(self)@, path_segments(old(self)@, Seq::empty())),
    {
        let mut path = no_texts();
        let ghost goal = path_segments(self@, Seq::empty());
        let mut more = true;
        while more
            invariant
                more ==> goal == path_segments(self@, strings_view(path@)),
                !more ==> goal == Ok::<(Seq<Seq<char>>, ParV), ParseErrorV>(
                    (strings_view(path@), self@),
                ),
                goal == path_segments(old(self)@, Seq::empty()),
            decreases self@.ts.len() - self@.pos, (if more {
                1int
            } else {
                0int
            }),
        {
            let name = match self.expect_namespace_segment("expected function name after '::'") {
                Ok(v) => v,
                Err(e) => {
                    return Err(e);
                },
            };
            push_text(&mut path, name);
            more = self.check_path_separator();
            if more {
                self.advance(2);
            }
        }
        Ok(path)
    }

    fn parse_dotted_segments(&mut self) -> (r: Result<Vec<String>, ParseError>)
        ensures
            gives_texts(r, final(self)@, dotted_segments(old(self)@, Seq::empty())),
    {
        let mut path = no_texts();
        let ghost goal = dotted_segments(self@, Seq::empty());
        let mut more = true;
        while more
            invariant
                more ==> goal == dotted_segments(self@, strings_view(path@)),
                !more ==> goal == Ok::<(Seq<Seq<char>>, ParV), ParseErrorV>(
                    (strings_view(path@), self@),
                ),
                goal == dotted_segments(old(self)@, Seq::empty()),
            decreases self@.ts.len() - self@.pos, (if more {
                1int
            } else {
                0int
            }),
        {
            let name = match self.expect_namespace_segment("expected member name after '.'") {
                Ok(v) => v,
                Err(e) => {
                    return Err(e);
                },
            };
            push_text(&mut path, name);
            more = self.match_kind(TokenKind::Dot);
        }
        Ok(path)
    }

    // Expressions. The budget bounds the steps that are still to be taken.

    fn parse_expr(&mut self, budget: u64) -> (r: Result<Expr, ParseError>)
        ensures
            gives_expr(r, final(self)@, expr(old(self)@, budget as nat)),
        decreases budget, 0nat,
    {
        if budget == 0 {
            return Err(self.too_deep());
        }
        self.parse_or(budget - 1)
    }

    fn or_operator(&self) -> (r: Option<BinOp>)
        ensures
            r == or_op(self@),
            r is Some ==> self.pos < self.tokens@.len(),
    {
        if self.check(TokenKind::PipePipe) {
            Some(BinOp::Or)
        } else {
            None
        }
    }

    fn and_operator(&self) -> (r: Option<BinOp>)
        ensures
            r == and_op(self@),
            r is Some ==> self.pos < self.tokens@.len(),
    {
        if self.check(TokenKind::AmpersandAmpersand) {
            Some(BinOp::And)
        } else {
            None
        }
    }

    fn term_operator(&self) -> (r: Option<BinOp>)
        ensures
            r == term_op(self@),
            r is Some ==> self.pos < self.tokens@.len(),
    {
        if self.check(TokenKind::Plus) {
            Some(BinOp::Add)
        } else if self.check(TokenKind::Minus) {
            Some(BinOp::Sub)
        } else {
            None
        }
    }

    fn factor_operator(&self) -> (r: Option<BinOp>)
        ensures
            r == factor_op(self@),
            r is Some ==> self.pos < self.tokens@.len(),
    {
        if self.check(TokenKind::Star) {
            Some(BinOp::Mul)
        } else if self.check(TokenKind::Slash) {
            Some(BinOp::Div)
        } else if self.check(TokenKind::Percent) {
            Some(BinOp::Mod)
        } else {
            None
        }
    }

    fn parse_or(&mut self, budget: u64) -> (r: Result<Expr, ParseError>)
        ensures
            gives_expr(r, final(self)@, or_expr(old(self)@, budget as nat)),
        decreases budget, 21nat,
    {
        let ghost goal = or_expr(self@, budget as nat);
        let mut e = match self.parse_and(budget) {
            Ok(v) => v,
            Err(e) => {
                return Err(e);
            },
        };
        let mut left: u64 = budget;
        loop
            invariant
                left <= budget,
                goal == or_expr(old(self)@, budget as nat),
                goal == or_rest(self@, e@, left as nat),
            decreases left,
        {
            match self.or_operator() {
                None => {
                    return Ok(e);
                },
                Some(op) => {
                    if left == 0 {
                        return Err(self.too_deep());
                    }
                    self.advance(1);
                    let rhs = match self.parse_and(left) {
                        Ok(v) => v,
                        Err(e) => {
                            return Err(e);
                        },
                    };
                    e = build_binary(op, e, rhs);
                    left -= 1;
                },
            }
        }
    }

    fn parse_and(&mut self, budget: u64) -> (r: Result<Expr, ParseError>)
        ensures
            gives_expr(r, final(self)@, and_expr(old(self)@, budget as nat)),
        decreases budget, 19nat,
    {
        let ghost goal = and_expr(self@, budget as nat);
        let mut e = match self.parse_comparison(budget) {
            Ok(v) => v,
            Err(e) => {
                return Err(e);
            },
        };
        let mut left: u64 = budget;
        loop
            invariant
                left <= budget,
                goal == and_expr(old(self)@, budget as nat),
                goal == and_rest(self@, e@, left as nat),
            decreases left,
        {
            match self.and_operator() {
                None => {
                    return Ok(e);
                },
                Some(op) => {
                    if left == 0 {
                        return Err(self.too_deep());
                    }
                    self.advance(1);
                    let rhs = match self.parse_comparison(left) {
                        Ok(v) => v,
                        Err(e) => {
                            return Err(e);
                        },
                    };
                    e = build_binary(op, e, rhs);
                    left -= 1;
                },
            }
        }
    }

    fn parse_comparison(&mut self, budget: u64) -> (r: Result<Expr, ParseError>)
        ensures
            gives_expr(r, final(self)@, comparison(old(self)@, budget as nat)),
        decreases budget, 17nat,
    {
        let ghost goal = comparison(self@, budget as nat);
        let mut e = match self.parse_term(budget) {
            Ok(v) => v,
            Err(e) => {
                return Err(e);
            },
        };
        let mut left: u64 = budget;
        while self.check(TokenKind::EqualEqual) || self.check(TokenKind::BangEqual) || self.check(
            TokenKind::Less,
        ) || self.check(TokenKind::LessEqual) || self.check(TokenKind::Greater) || self.check(
            TokenKind::GreaterEqual,
        )
            invariant
                left <= budget,
                goal == comparison(old(self)@, budget as nat),
                goal == comparison_rest(self@, e@, left as nat),
            decreases left,
        {
            if left == 0 {
                return Err(self.too_deep());
            }
            reveal(compared);
            let kind = self.tokens[self.pos].kind;
            self.advance(1);
            let rhs = match self.parse_term(left) {
                Ok(v) => v,
                Err(e) => {
                    return Err(e);
                },
            };
            e = match kind {
                TokenKind::EqualEqual => build_binary(BinOp::Eq, e, rhs),
                TokenKind::BangEqual => build_unary(UnOp::Not, build_binary(BinOp::Eq, e, rhs)),
                TokenKind::Less => build_binary(BinOp::Lt, e, rhs),
                TokenKind::LessEqual => match self.build_non_strict_comparison(BinOp::Lt, e, rhs) {
                    Ok(v) => v,
                    Err(e) => {
                        return Err(e);
                    },
                },
                TokenKind::Greater => build_binary(BinOp::Gt, e, rhs),
                _ => match self.build_non_strict_comparison(BinOp::Gt, e, rhs) {
                    Ok(v) => v,
                    Err(e) => {
                        return Err(e);
                    },
                },
            };
            left -= 1;
        }
        Ok(e)
    }

    fn parse_term(&mut self, budget: u64) -> (r: Result<Expr, ParseError>)
        ensures
            gives_expr(r, final(self)@, term(old(self)@, budget as nat)),
        decreases budget, 15nat,
    {
        let ghost goal = term(self@, budget as nat);
        let mut e = match self.parse_factor(budget) {
            Ok(v) => v,
            Err(e) => {
                return Err(e);
            },
        };
        let mut left: u64 = budget;
        loop
            invariant
                left <= budget,
                goal == term(old(self)@, budget as nat),
                goal == term_rest(self@, e@, left as nat),
            decreases left,
        {
            match self.term_operator() {
                None => {
                    return Ok(e);
                },
                Some(op) => {
                    if left == 0 {
                        return Err(self.too_deep());
                    }
                    self.advance(1);
                    let rhs = match self.parse_factor(left) {
                        Ok(v) => v,
                        Err(e) => {
                            return Err(e);
                        },
                    };
                    e = build_binary(op, e, rhs);
                    left -= 1;
                },
            }
        }
    }

    fn parse_factor(&mut self, budget: u64) -> (r: Result<Expr, ParseError>)
        ensures
            gives_expr(r, final(self)@, factor(old(self)@, budget as nat)),
        decreases budget, 13nat,
    {
        let ghost goal = factor(self@, budget as nat);
        let mut e = match self.parse_unary(budget) {
            Ok(v) => v,
            Err(e) => {
                return Err(e);
            },
        };
        let mut left: u64 = budget;
        loop
            invariant
                left <= budget,
                goal == factor(old(self)@, budget as nat),
                goal == factor_rest(self@, e@, left as nat),
            decreases left,
        {
            match self.factor_operator() {
                None => {
                    return Ok(e);
                },
                Some(op) => {
                    if left == 0 {
                        return Err(self.too_deep());
                    }
                    self.advance(1);
                    let rhs = match self.parse_unary(left) {
                        Ok(v) => v,
                        Err(e) => {
                            return Err(e);
                        },
                    };
                    e = build_binary(op, e, rhs);
                    left -= 1;
                },
            }
        }
    }

    fn parse_prefixed(&mut self, op: UnOp, budget: u64) -> (r: Result<Expr, ParseError>)
        ensures
            gives_expr(r, final(self)@, prefixed(op, old(self)@, budget as nat)),
        decreases budget, 12nat,
    {
        let inner = match self.parse_unary(budget) {
            Ok(v) => v,
            Err(e) => {
                return Err(e);
            },
        };
        Ok(build_unary(op, inner))
    }

    fn parse_unary(&mut self, budget: u64) -> (r: Result<Expr, ParseError>)
        ensures
            gives_expr(r, final(self)@, unary_expr(old(self)@, budget as nat)),
        decreases budget, 11nat,
    {
        if budget == 0 {
            return Err(self.too_deep());
        }
        if self.check(TokenKind::Ampersand) {
            if self.check_ident_literal(1, "mut") {
                self.advance(2);
                let inner = match self.parse_unary(budget - 1) {
                    Ok(v) => v,
                    Err(e) => {
                        return Err(e);
                    },
                };
                return self.build_mutable_borrow(inner);
            }
            self.advance(1);
            return self.parse_prefixed(UnOp::Borrow, budget - 1);
        }
        if self.config.dialect.allow_typeof_operator && self.check_ident_literal(0, "typeof") {
            self.advance(1);
            let inner = match self.parse_unary(budget - 1) {
                Ok(v) => v,
                Err(e) => {
                    return Err(e);
                },
            };
            return Ok(build_call1(BuiltinFunction::TypeOf, inner));
        }
        if self.check(TokenKind::Minus) {
            if self.check_ahead(1, TokenKind::IntMinMagnitude) {
                self.advance(2);
                return Ok(Expr::Int(i64::MIN));
            }
            self.advance(1);
            return self.parse_prefixed(UnOp::Neg, budget - 1);
        }
        if self.match_kind(TokenKind::Bang) {
            return self.parse_prefixed(UnOp::Not, budget - 1);
        }
        self.parse_primary(budget)
    }

    #[verifier::spinoff_prover]
    #[verifier::rlimit(40)]
    fn parse_primary(&mut self, budget: u64) -> (r: Result<Expr, ParseError>)
        ensures
            gives_expr(r, final(self)@, primary(old(self)@, budget as nat)),
        decreases budget, 10nat,
    {
        if self.match_kind(TokenKind::If) {
            return self.parse_if_expr(budget);
        }
        if self.match_kind(TokenKind::Match) {
            return self.parse_match_expr(budget);
        }
        if self.match_kind(TokenKind::True) {
            return Ok(Expr::Bool(true));
        }
        if self.match_kind(TokenKind::False) {
            return Ok(Expr::Bool(false));
        }
        if self.match_kind(TokenKind::Null) {
            return Ok(Expr::Null);
        }
        if self.check(TokenKind::IntMinMagnitude) {
            return Err(self.out_of_range_int_literal());
        }
        if self.check(TokenKind::Int) {
            let number: i64 = self.tokens[self.pos].number;
            self.advance(1);
            return Ok(Expr::Int(number));
        }
        if self.check(TokenKind::Float) {
            let literal = self.current_text();
            self.advance(1);
            return Ok(Expr::Float(literal));
        }
        if self.check(TokenKind::String) {
            let literal = self.current_text();
            self.advance(1);
            return Ok(Expr::String(literal));
        }
        if self.match_kind(TokenKind::Pipe) {
            return self.parse_closure_literal(budget);
        }
        if self.match_kind(TokenKind::PipePipe) {
            return self.parse_closure_expr_with_params(no_texts(), budget);
        }
        if self.config.dialect.allow_arrow_closure
            && self.check_parenthesized_arrow_closure_start() {
            reveal(at_parenthesized_arrow);
            return self.parse_parenthesized_arrow_closure(budget);
        }
        if self.config.dialect.allow_arrow_closure && self.check_single_param_arrow_closure_start() {
            let param = self.current_text();
            self.advance(2);
            let ghost want = seq![param@];
            let mut params = no_texts();
            push_text(&mut params, param);
            assert(strings_view(params@) =~= want);
            return self.parse_arrow_body(params, budget);
        }
        if self.check(TokenKind::Ident) {
            let name = self.current_text();
            self.advance(1);
            return self.parse_named(name.as_str(), budget);
        }
        if self.match_kind(TokenKind::LParen) {
            let e = match self.parse_expr(budget) {
                Ok(v) => v,
                Err(e) => {
                    return Err(e);
                },
            };
            match self.expect(TokenKind::RParen, "expected ')' after expression") {
                Ok(v) => v,
                Err(e) => {
                    return Err(e);
                },
            };
            return self.parse_postfix_access(e, budget);
        }
        if self.match_kind(TokenKind::LBracket) {
            let e = match self.parse_array_literal(budget) {
                Ok(v) => v,
                Err(e) => {
                    return Err(e);
                },
            };
            return self.parse_postfix_access(e, budget);
        }
        if self.match_kind(TokenKind::LBrace) {
            let e = match self.parse_brace_literal(budget) {
                Ok(v) => v,
                Err(e) => {
                    return Err(e);
                },
            };
            return self.parse_postfix_access(e, budget);
        }
        Err(self.error("expected expression"))
    }

    /// What a name at the start of an expression stands for.
    fn parse_named(&mut self, name: &str, budget: u64) -> (r: Result<Expr, ParseError>)
        ensures
            gives_expr(r, final(self)@, named(old(self)@, name@, budget as nat)),
        decreases budget, 9nat,
    {
        if self.config.dialect.allow_dotted_call {
            let dotted = match self.try_parse_js_dotted_call(name, budget) {
                Ok(v) => v,
                Err(e) => {
                    return Err(e);
                },
            };
            match dotted {
                Some(e) => {
                    return Ok(e);
                },
                None => {},
            }
        }
        self.parse_undotted(name, budget)
    }

    fn parse_undotted(&mut self, name: &str, budget: u64) -> (r: Result<Expr, ParseError>)
        ensures
            gives_expr(r, final(self)@, undotted(old(self)@, name@, budget as nat)),
        decreases budget, 8nat,
    {
        if self.check_path_separator() {
            if self.config.dialect.allow_namespace_path_separator {
                self.advance(2);
                return self.parse_namespaced_call(name, budget);
            }
            return Err(
                self.error(
                    "namespace calls use '.' in this language (for example 'json.encode(...)'), not '::'",
                ),
            );
        }
        let e = match self.parse_plain_name(name, budget) {
            Ok(v) => v,
            Err(e) => {
                return Err(e);
            },
        };
        self.parse_postfix_access(e, budget)
    }

    fn parse_namespaced_call(&mut self, name: &str, budget: u64) -> (r: Result<Expr, ParseError>)
        ensures
            gives_expr(r, final(self)@, namespaced_call(old(self)@, name@, budget as nat)),
        decreases budget, 7nat,
    {
        let path = match self.parse_path_segments() {
            Ok(v) => v,
            Err(e) => {
                return Err(e);
            },
        };
        match self.expect(TokenKind::LParen, "expected '(' after namespaced function name") {
            Ok(v) => v,
            Err(e) => {
                return Err(e);
            },
        };
        let args = match self.parse_call_args(budget) {
            Ok(v) => v,
            Err(e) => {
                return Err(e);
            },
        };
        self.build_path_call_expr(name, path, args)
    }

    fn parse_macro_call(&mut self, name: &str, budget: u64) -> (r: Result<Expr, ParseError>)
        ensures
            ({
                let s = old(self)@;
                match expect(s, TokenKind::LParen, "expected '(' after macro name"@) {
                    Err(e) => r is Err && r->Err_0@ == e,
                    Ok(s1) => match call_args(s1, budget as nat) {
                        Err(e) => r is Err && r->Err_0@ == e,
                        Ok((args, s2)) => r is Err && r->Err_0@ == fault(
                            s2,
                            "unknown macro '"@ + name@ + "!'"@,
                        ),
                    },
                }
            }),
        decreases budget, 6nat,
    {
        reveal(expect);
        match self.expect(TokenKind::LParen, "expected '(' after macro name") {
            Ok(v) => v,
            Err(e) => {
                return Err(e);
            },
        };
        let _ = match self.parse_call_args(budget) {
            Ok(v) => v,
            Err(e) => {
                return Err(e);
            },
        };
        let message = concat3("unknown macro '", name, "!'");
        Err(self.error(message.as_str()))
    }

    /// A macro call, a call or a name alone.
    fn parse_plain_name(&mut self, name: &str, budget: u64) -> (r: Result<Expr, ParseError>)
        ensures
            gives_expr(r, final(self)@, plain_name(old(self)@, name@, budget as nat)),
        decreases budget, 7nat,
    {
        if self.config.dialect.allow_macro_calls && self.check(TokenKind::Bang) {
            self.advance(1);
            return self.parse_macro_call(name, budget);
        }
        if self.match_kind(TokenKind::LParen) {
            let args = match self.parse_call_args(budget) {
                Ok(v) => v,
                Err(e) => {
                    return Err(e);
                },
            };
            return self.build_named_call_expr(name, args);
        }
        if self.names.has_local_binding(name) {
            let slot: LocalSlot = match self.get_local(name) {
                Ok(v) => v,
                Err(e) => {
                    return Err(e);
                },
            };
            return Ok(Expr::Var(slot));
        }
        match self.names.find_function(name) {
            Some(decl) => Ok(Expr::FunctionRef(decl.index)),
            None => {
                let message = concat3("unknown local '", name, "'");
                Err(self.error(message.as_str()))
            },
        }
    }

    fn try_parse_js_dotted_call(&mut self, base: &str, budget: u64) -> (r: Result<
        Option<Expr>,
        ParseError,
    >)
        ensures
            gives_opt_expr(r, final(self)@, dotted_call(old(self)@, base@, budget as nat)),
        decreases budget, 7nat,
    {
        let save_pos: usize = self.pos;
        if !self.match_kind(TokenKind::Dot) {
            return Ok(None);
        }
        let path = match self.parse_dotted_segments() {
            Ok(v) => v,
            Err(e) => {
                return Err(e);
            },
        };
        if !self.match_kind(TokenKind::LParen) {
            self.pos = save_pos;
            return Ok(None);
        }
        let args = match self.parse_call_args(budget) {
            Ok(v) => v,
            Err(e) => {
                return Err(e);
            },
        };
        let called = match self.build_dotted_call_expr(base, path, args) {
            Ok(v) => v,
            Err(e) => {
                return Err(e);
            },
        };
        match called {
            Some(e) => Ok(Some(e)),
            None => {
                self.pos = save_pos;
                Ok(None)
            },
        }
    }

    fn parse_call_args(&mut self, budget: u64) -> (r: Result<Vec<Expr>, ParseError>)
        ensures
            gives_exprs(r, final(self)@, call_args(old(self)@, budget as nat)),
        decreases budget, 2nat,
    {
        let ghost goal = call_args(self@, budget as nat);
        let mut args = no_exprs();
        if self.match_kind(TokenKind::RParen) {
            return Ok(args);
        }
        let mut left: u64 = budget;
        loop
            invariant
                left <= budget,
                goal == call_args(old(self)@, budget as nat),
                goal == args_rest(self@, exprs_view(args@), left as nat),
            decreases left,
        {
            let e = match self.parse_expr(left) {
                Ok(v) => v,
                Err(e) => {
                    return Err(e);
                },
            };
            push_expr(&mut args, e);
            if !self.check(TokenKind::Comma) {
                match self.expect(TokenKind::RParen, "expected ')' after arguments") {
                    Ok(v) => v,
                    Err(e) => {
                        return Err(e);
                    },
                };
                return Ok(args);
            }
            if left == 0 {
                return Err(self.too_deep());
            }
            self.advance(1);
            left -= 1;
        }
    }

    fn parse_postfix_access(&mut self, start: Expr, budget: u64) -> (r: Result<Expr, ParseError>)
        ensures
            gives_expr(r, final(self)@, postfix(old(self)@, start@, budget as nat)),
        decreases budget, 4nat,
    {
        let ghost goal = postfix(self@, start@, budget as nat);
        let mut e = start;
        let mut left: u64 = budget;
        while self.check(TokenKind::LBracket) || self.check(TokenKind::Dot) || self.check(
            TokenKind::Question,
        )
            invariant
                left <= budget,
                goal == postfix(old(self)@, start@, budget as nat),
                goal == postfix(self@, e@, left as nat),
            decreases left,
        {
            if left == 0 {
                return Err(self.too_deep());
            }
            e = match self.parse_access(e, left) {
                Ok(v) => v,
                Err(e) => {
                    return Err(e);
                },
            };
            left -= 1;
        }
        Ok(e)
    }

    /// One access.
    fn parse_access(&mut self, e: Expr, budget: u64) -> (r: Result<Expr, ParseError>)
        requires
            at(old(self)@, TokenKind::LBracket) || at(old(self)@, TokenKind::Dot) || at(
                old(self)@,
                TokenKind::Question,
            ),
        ensures
            gives_expr(r, final(self)@, access(old(self)@, e@, budget as nat)),
        decreases budget, 3nat,
    {
        if self.check(TokenKind::LBracket) {
            if self.check_ahead(1, TokenKind::Colon) {
                self.advance(2);
                return self.parse_slice_end(e, None, budget);
            }
            self.advance(1);
            let first = match self.parse_expr(budget) {
                Ok(v) => v,
                Err(e) => {
                    return Err(e);
                },
            };
            if self.match_kind(TokenKind::Colon) {
                return self.parse_slice_end(e, Some(first), budget);
            }
            match self.expect(TokenKind::RBracket, "expected ']' after index expression") {
                Ok(v) => v,
                Err(e) => {
                    return Err(e);
                },
            };
            return Ok(build_call2(BuiltinFunction::Get, e, first));
        }
        if self.match_kind(TokenKind::Dot) {
            return self.parse_member_access(e);
        }
        let _ = self.match_kind(TokenKind::Question);
        self.parse_optional_access(e, budget)
    }

    /// The end of a slice, behind its colon.
    fn parse_slice_end(&mut self, e: Expr, start: Option<Expr>, budget: u64) -> (r: Result<
        Expr,
        ParseError,
    >)
        ensures
            gives_expr(
                r,
                final(self)@,
                slice_end(old(self)@, e@, opt_expr(start), budget as nat),
            ),
        decreases budget, 2nat,
    {
        let end = if self.check(TokenKind::RBracket) {
            None
        } else {
            Some(match self.parse_expr(budget) {
                Ok(v) => v,
                Err(e) => {
                    return Err(e);
                },
            })
        };
        match self.expect(TokenKind::RBracket, "expected ']' after slice expression") {
            Ok(v) => v,
            Err(e) => {
                return Err(e);
            },
        };
        self.build_slice_access_expr(e, start, end)
    }

    /// A member behind a dot.
    fn parse_member_access(&mut self, e: Expr) -> (r: Result<Expr, ParseError>)
        ensures
            gives_expr(r, final(self)@, member_access(old(self)@, e@)),
    {
        reveal(member_access);
        let member = match self.expect_namespace_segment("expected member name after '.'") {
            Ok(v) => v,
            Err(e) => {
                return Err(e);
            },
        };
        if same_text(member.as_str(), "copy") {
            match self.expect(TokenKind::LParen, "expected '(' after '.copy' (use '.copy()')") {
                Ok(v) => v,
                Err(e) => {
                    return Err(e);
                },
            };
            match self.expect(TokenKind::RParen, "copy does not take arguments; use '.copy()'") {
                Ok(v) => v,
                Err(e) => {
                    return Err(e);
                },
            };
            return Ok(build_unary(UnOp::ToOwned, e));
        }
        if same_text(member.as_str(), "length") {
            return Ok(build_call1(BuiltinFunction::Len, e));
        }
        if same_text(member.as_str(), "keys") {
            return Ok(build_call1(BuiltinFunction::Keys, e));
        }
        Ok(build_call2(BuiltinFunction::Get, e, Expr::String(member)))
    }

    /// A member or an index behind `?`.
    fn parse_optional_access(&mut self, e: Expr, budget: u64) -> (r: Result<Expr, ParseError>)
        ensures
            gives_expr(r, final(self)@, optional_access(old(self)@, e@, budget as nat)),
        decreases budget, 2nat,
    {
        match self.expect(TokenKind::Dot, "expected '.' after '?' in optional access") {
            Ok(v) => v,
            Err(e) => {
                return Err(e);
            },
        };
        if self.match_kind(TokenKind::LBracket) {
            let key = match self.parse_expr(budget) {
                Ok(v) => v,
                Err(e) => {
                    return Err(e);
                },
            };
            match self.expect(TokenKind::RBracket, "expected ']' after optional index expression") {
                Ok(v) => v,
                Err(e) => {
                    return Err(e);
                },
            };
            return self.build_optional_get_expr(e, key);
        }
        let member = match self.expect_namespace_segment("expected member name after '?.'") {
            Ok(v) => v,
            Err(e) => {
                return Err(e);
            },
        };
        self.build_optional_get_expr(e, Expr::String(member))
    }

    fn parse_array_literal(&mut self, budget: u64) -> (r: Result<Expr, ParseError>)
        ensures
            gives_expr(r, final(self)@, array_literal(old(self)@, budget as nat)),
        decreases budget, 2nat,
    {
        let ghost goal = array_literal(self@, budget as nat);
        let mut out = build_call0(BuiltinFunction::ArrayNew);
        if self.match_kind(TokenKind::RBracket) {
            return Ok(out);
        }
        let mut left: u64 = budget;
        loop
            invariant
                left <= budget,
                goal == array_literal(old(self)@, budget as nat),
                goal == array_rest(self@, out@, left as nat),
            decreases left,
        {
            let value = match self.parse_expr(left) {
                Ok(v) => v,
                Err(e) => {
                    return Err(e);
                },
            };
            out = build_call2(BuiltinFunction::ArrayPush, out, value);
            if !self.check(TokenKind::Comma) {
                match self.expect(TokenKind::RBracket, "expected ']' after array literal") {
                    Ok(v) => v,
                    Err(e) => {
                        return Err(e);
                    },
                };
                return Ok(out);
            }
            if left == 0 {
                return Err(self.too_deep());
            }
            self.advance(1);
            left -= 1;
        }
    }

    fn parse_brace_literal(&mut self, budget: u64) -> (r: Result<Expr, ParseError>)
        ensures
            gives_expr(r, final(self)@, brace_literal(old(self)@, budget as nat)),
        decreases budget, 4nat,
    {
        if self.match_kind(TokenKind::RBrace) {
            return Ok(build_call0(BuiltinFunction::MapNew));
        }
        let ghost s0 = self@;
        let ghost goal = brace_entries(self@, Seq::empty(), budget as nat);
        let mut entries: Vec<BraceLiteralEntry> = Vec::new();
        let mut has_map_entries = false;
        let mut left: u64 = budget;
        assert(entries_view(entries@) =~= Seq::<EntryV>::empty());
        loop
            invariant
                left <= budget,
                goal == brace_entries(s0, Seq::empty(), budget as nat),
                goal == brace_entries(self@, entries_view(entries@), left as nat),
                brace_literal(old(self)@, budget as nat) == (match goal {
                    Err(e) => Err::<(ExprV, ParV), ParseErrorV>(e),
                    Ok((list, s1)) => Ok((brace_value(list), s1)),
                }),
                has_map_entries == has_keys(entries_view(entries@)),
            decreases left,
        {
            reveal(brace_value);
            let entry = match self.parse_brace_entry(left) {
                Ok(v) => v,
                Err(e) => {
                    return Err(e);
                },
            };
            let ghost before = entries_view(entries@);
            let ghost added = entry@;
            let keyed = entry.key.is_some();
            entries.push(entry);
            assert(entries_view(entries@) =~= before.push(added));
            proof {
                lemma_has_keys_push(before, added);
            }
            has_map_entries = has_map_entries || keyed;
            let comma = self.check(TokenKind::Comma);
            if !comma || self.check_ahead(1, TokenKind::RBrace) {
                let _ = self.match_kind(TokenKind::Comma);
                match self.expect(TokenKind::RBrace, "expected '}' after brace literal") {
                    Ok(v) => v,
                    Err(e) => {
                        return Err(e);
                    },
                };
                return Ok(build_brace_expr(entries, has_map_entries));
            }
            if left == 0 {
                return Err(self.too_deep());
            }
            self.advance(1);
            left -= 1;
        }
    }

    fn parse_brace_entry(&mut self, budget: u64) -> (r: Result<BraceLiteralEntry, ParseError>)
        ensures
            match brace_entry(old(self)@, budget as nat) {
                Ok((entry, s1)) => r is Ok && r->Ok_0@ == entry && final(self)@ == s1,
                Err(e) => r is Err && r->Err_0@ == e,
            },
        decreases budget, 2nat,
    {
        if self.check_map_entry_start() {
            let key = match self.parse_entry_key(budget) {
                Ok(v) => v,
                Err(e) => {
                    return Err(e);
                },
            };
            if !(self.match_kind(TokenKind::Colon) || self.match_kind(TokenKind::Equal)) {
                return Err(self.error("expected ':' or '=' after map key"));
            }
            let value = match self.parse_expr(budget) {
                Ok(v) => v,
                Err(e) => {
                    return Err(e);
                },
            };
            Ok(BraceLiteralEntry { key: Some(key), value })
        } else {
            let value = match self.parse_expr(budget) {
                Ok(v) => v,
                Err(e) => {
                    return Err(e);
                },
            };
            Ok(BraceLiteralEntry { key: None, value })
        }
    }

    fn parse_entry_key(&mut self, budget: u64) -> (r: Result<Expr, ParseError>)
        ensures
            gives_expr(r, final(self)@, entry_key(old(self)@, budget as nat)),
        decreases budget, 1nat,
    {
        if self.match_kind(TokenKind::LBracket) {
            let key = match self.parse_expr(budget) {
                Ok(v) => v,
                Err(e) => {
                    return Err(e);
                },
            };
            match self.expect(TokenKind::RBracket, "expected ']' after map key expression") {
                Ok(v) => v,
                Err(e) => {
                    return Err(e);
                },
            };
            Ok(key)
        } else {
            self.parse_map_key_literal()
        }
    }

    fn parse_closure_literal(&mut self, budget: u64) -> (r: Result<Expr, ParseError>)
        ensures
            gives_expr(r, final(self)@, closure_literal(old(self)@, budget as nat)),
        decreases budget, 2nat,
    {
        let params = if self.check(TokenKind::Pipe) {
            no_texts()
        } else {
            match self.parse_ident_list("expected closure parameter name") {
                Ok(v) => v,
                Err(e) => {
                    return Err(e);
                },
            }
        };
        match self.expect(TokenKind::Pipe, "expected '|' after closure parameters") {
            Ok(v) => v,
            Err(e) => {
                return Err(e);
            },
        };
        self.parse_closure_expr_with_params(params, budget)
    }

    fn parse_parenthesized_arrow_closure(&mut self, budget: u64) -> (r: Result<Expr, ParseError>)
        requires
            at(old(self)@, TokenKind::LParen),
        ensures
            gives_expr(r, final(self)@, parenthesized_arrow(old(self)@, budget as nat)),
        decreases budget, 3nat,
    {
        let _ = self.match_kind(TokenKind::LParen);
        let params = if self.check(TokenKind::RParen) {
            no_texts()
        } else {
            match self.parse_ident_list("expected arrow parameter name") {
                Ok(v) => v,
                Err(e) => {
                    return Err(e);
                },
            }
        };
        match self.expect(TokenKind::RParen, "expected ')' after arrow parameters") {
            Ok(v) => v,
            Err(e) => {
                return Err(e);
            },
        };
        match self.expect(TokenKind::FatArrow, "expected '=>' after arrow parameters") {
            Ok(v) => v,
            Err(e) => {
                return Err(e);
            },
        };
        self.parse_arrow_body(params, budget)
    }

    fn parse_arrow_body(&mut self, params: Vec<String>, budget: u64) -> (r: Result<
        Expr,
        ParseError,
    >)
        ensures
            gives_expr(
                r,
                final(self)@,
                arrow_body(old(self)@, strings_view(params@), budget as nat),
            ),
        decreases budget, 2nat,
    {
        if self.check(TokenKind::LBrace) {
            return Err(
                self.error("arrow closures with block bodies are not supported in this subset"),
            );
        }
        self.parse_closure_expr_with_params(params, budget)
    }

    fn parse_closure_expr_with_params(&mut self, params: Vec<String>, budget: u64) -> (r: Result<
        Expr,
        ParseError,
    >)
        ensures
            gives_expr(
                r,
                final(self)@,
                closure(old(self)@, strings_view(params@), budget as nat),
            ),
        decreases budget, 1nat,
    {
        let (scope, param_slots) = match self.bind_params(&params, "closure") {
            Ok(v) => v,
            Err(e) => {
                return Err(e);
            },
        };
        self.names.enter(scope);
        let body = match self.parse_expr(budget) {
            Ok(v) => v,
            Err(e) => {
                return Err(e);
            },
        };
        match self.names.leave() {
            Some(capture_copies) => {
                let closure_expr = ClosureExpr {
                    param_slots,
                    capture_copies,
                    body: Box::new(body),
                };
                assert(*closure_expr@.body == body@);
                Ok(Expr::Closure(closure_expr))
            },
            None => Err(self.error("internal closure capture state error")),
        }
    }

    fn parse_if_expr(&mut self, budget: u64) -> (r: Result<Expr, ParseError>)
        ensures
            gives_expr(r, final(self)@, if_expr(old(self)@, budget as nat)),
        decreases budget, 5nat,
    {
        let condition = match self.parse_expr(budget) {
            Ok(v) => v,
            Err(e) => {
                return Err(e);
            },
        };
        match self.expect(
            TokenKind::FatArrow,
            "expected '=>' after if condition in expression form",
        ) {
            Ok(v) => v,
            Err(e) => {
                return Err(e);
            },
        };
        let then_expr = match self.parse_if_expr_branch(budget) {
            Ok(v) => v,
            Err(e) => {
                return Err(e);
            },
        };
        match self.expect(TokenKind::Else, "if expression requires an else branch") {
            Ok(v) => v,
            Err(e) => {
                return Err(e);
            },
        };
        let else_expr = match self.parse_else_expr(budget) {
            Ok(v) => v,
            Err(e) => {
                return Err(e);
            },
        };
        Ok(build_if_else(condition, then_expr, else_expr))
    }

    fn parse_else_expr(&mut self, budget: u64) -> (r: Result<Expr, ParseError>)
        ensures
            gives_expr(r, final(self)@, else_expr(old(self)@, budget as nat)),
        decreases budget, 4nat,
    {
        if self.check(TokenKind::If) {
            if budget == 0 {
                return Err(self.too_deep());
            }
            self.advance(1);
            return self.parse_if_expr(budget - 1);
        }
        match self.expect(TokenKind::FatArrow, "expected '=>' after else in expression form") {
            Ok(v) => v,
            Err(e) => {
                return Err(e);
            },
        };
        self.parse_if_expr_branch(budget)
    }

    /// Statements, and perhaps an expression at their end, up to a `}`.
    fn parse_body_items(&mut self, function: bool, budget: u64) -> (r: Result<
        (Vec<Stmt>, Option<Expr>),
        ParseError,
    >)
        ensures
            match body_items(old(self)@, Seq::empty(), function, budget as nat) {
                Ok(((stmts, tail), s1)) => r is Ok && stmts_view((r->Ok_0).0@) == stmts && opt_expr(
                    (r->Ok_0).1,
                ) == tail && final(self)@ == s1,
                Err(e) => r is Err && r->Err_0@ == e,
            },
        decreases budget, 1nat,
    {
        let ghost goal = body_items(self@, Seq::empty(), function, budget as nat);
        let mut stmts = no_stmts();
        let mut left: u64 = budget;
        while !self.check(TokenKind::RBrace)
            invariant
                left <= budget,
                goal == body_items(old(self)@, Seq::empty(), function, budget as nat),
                goal == body_items(self@, stmts_view(stmts@), function, left as nat),
            decreases left,
        {
            if self.check(TokenKind::Eof) {
                return Err(
                    if function {
                        self.error("unexpected end of input in function body")
                    } else {
                        self.error("unexpected end of input in if expression branch")
                    },
                );
            }
            if left == 0 {
                return Err(self.too_deep());
            }
            if self.starts_trailing_expr_block_statement() {
                let item = match self.parse_stmt(left) {
                    Ok(v) => v,
                    Err(e) => {
                        return Err(e);
                    },
                };
                push_stmt(&mut stmts, item);
            } else {
                let line: u32 = self.current_line_u32();
                let e = match self.parse_expr(left) {
                    Ok(v) => v,
                    Err(e) => {
                        return Err(e);
                    },
                };
                if self.check(TokenKind::RBrace) {
                    return Ok((stmts, Some(e)));
                }
                if function {
                    match self.consume_stmt_terminator("expected ';' after expression") {
                        Ok(v) => v,
                        Err(e) => {
                            return Err(e);
                        },
                    };
                } else {
                    match self.expect(
                        TokenKind::Semicolon,
                        "expected ';' after expression in if expression branch",
                    ) {
                        Ok(v) => v,
                        Err(e) => {
                            return Err(e);
                        },
                    };
                }
                push_stmt(&mut stmts, Stmt::Expr { expr: e, line });
            }
            left -= 1;
        }
        Ok((stmts, None))
    }

    /// The value of a body: the expression at its end, or its last statement.
    fn take_body_value(&self, stmts: Vec<Stmt>, tail: Option<Expr>, message: &str) -> (r: Result<
        (Vec<Stmt>, Expr),
        ParseError,
    >)
        ensures
            match body_value(self@, stmts_view(stmts@), opt_expr(tail), message@) {
                Ok((rest, e)) => r is Ok && stmts_view((r->Ok_0).0@) == rest && (r->Ok_0).1@ == e,
                Err(e) => r is Err && r->Err_0@ == e,
            },
    {
        reveal(body_value);
        let ghost all = stmts_view(stmts@);
        assert(all.len() == stmts@.len());
        match tail {
            Some(e) => Ok((stmts, e)),
            None => {
                let mut list = stmts;
                let popped = list.pop();
                match popped {
                    Some(last) => {
                        assert(last@ == all.last());
                        assert(stmts_view(list@) =~= all.drop_last());
                        match last {
                            Stmt::Expr { expr, line } => Ok((list, expr)),
                            _ => Err(self.error(message)),
                        }
                    },
                    None => Err(self.error(message)),
                }
            },
        }
    }

    /// The value of a branch of a conditional expression.
    fn build_branch_value(&self, stmts: Vec<Stmt>, tail: Option<Expr>) -> (r: Result<
        Expr,
        ParseError,
    >)
        ensures
            gives_expr(r, self@, branch_value(self@, stmts_view(stmts@), opt_expr(tail))),
    {
        reveal(branch_value);
        let (rest, e) = match self.take_body_value(
            stmts,
            tail,
            "if expression branch must end with an expression",
        ) {
            Ok(v) => v,
            Err(e) => {
                return Err(e);
            },
        };
        assert(stmts_view(rest@).len() == rest@.len());
        if rest.len() == 0 {
            Ok(e)
        } else {
            Ok(Expr::Block { stmts: rest, expr: Box::new(e) })
        }
    }

    fn parse_braced_items(&mut self, budget: u64) -> (r: Result<
        (Vec<Stmt>, Option<Expr>),
        ParseError,
    >)
        ensures
            match braced_items(old(self)@, budget as nat) {
                Ok(((stmts, tail), s1)) => r is Ok && stmts_view((r->Ok_0).0@) == stmts && opt_expr(
                    (r->Ok_0).1,
                ) == tail && final(self)@ == s1,
                Err(e) => r is Err && r->Err_0@ == e,
            },
        decreases budget, 2nat,
    {
        match self.expect(
            TokenKind::LBrace,
            "expected '{' after '=>' in if expression branch",
        ) {
            Ok(v) => v,
            Err(e) => {
                return Err(e);
            },
        };
        let items = match self.parse_body_items(false, budget) {
            Ok(v) => v,
            Err(e) => {
                return Err(e);
            },
        };
        match self.expect(TokenKind::RBrace, "expected '}' to close if expression branch") {
            Ok(v) => v,
            Err(e) => {
                return Err(e);
            },
        };
        Ok(items)
    }

    fn parse_if_expr_branch(&mut self, budget: u64) -> (r: Result<Expr, ParseError>)
        ensures
            gives_expr(r, final(self)@, if_branch(old(self)@, budget as nat)),
        decreases budget, 3nat,
    {
        let (stmts, tail) = match self.parse_braced_items(budget) {
            Ok(v) => v,
            Err(e) => {
                return Err(e);
            },
        };
        self.build_branch_value(stmts, tail)
    }

    fn parse_match_expr(&mut self, budget: u64) -> (r: Result<Expr, ParseError>)
        ensures
            gives_expr(r, final(self)@, match_expr(old(self)@, budget as nat)),
        decreases budget, 3nat,
    {
        let value = match self.parse_expr(budget) {
            Ok(v) => v,
            Err(e) => {
                return Err(e);
            },
        };
        match self.expect(TokenKind::LBrace, "expected '{' after match value") {
            Ok(v) => v,
            Err(e) => {
                return Err(e);
            },
        };
        let value_slot: LocalSlot = match self.allocate_hidden_local() {
            Ok(v) => v,
            Err(e) => {
                return Err(e);
            },
        };
        let result_slot: LocalSlot = match self.allocate_hidden_local() {
            Ok(v) => v,
            Err(e) => {
                return Err(e);
            },
        };
        let (arms, default) = match self.parse_match_arms(budget) {
            Ok(v) => v,
            Err(e) => {
                return Err(e);
            },
        };
        Ok(
            Expr::Match {
                value_slot,
                result_slot,
                value: Box::new(value),
                arms,
                default: Box::new(default),
            },
        )
    }

    fn parse_match_arms(&mut self, budget: u64) -> (r: Result<
        (Vec<(MatchPattern, Expr)>, Expr),
        ParseError,
    >)
        ensures
            match match_arms(old(self)@, Seq::empty(), None, budget as nat) {
                Ok(((arms, default), s1)) => r is Ok && arms_view((r->Ok_0).0@) == arms
                    && (r->Ok_0).1@ == default && final(self)@ == s1,
                Err(e) => r is Err && r->Err_0@ == e,
            },
        decreases budget, 2nat,
    {
        let ghost goal = match_arms(self@, Seq::empty(), None, budget as nat);
        let mut arms = no_arms();
        let mut default: Option<Expr> = None;
        let mut left: u64 = budget;
        while !self.check(TokenKind::RBrace)
            invariant
                left <= budget,
                goal == match_arms(old(self)@, Seq::empty(), None, budget as nat),
                goal == match_arms(self@, arms_view(arms@), opt_expr(default), left as nat),
            decreases left,
        {
            if self.check(TokenKind::Eof) {
                return Err(self.error("unexpected end of input in match expression"));
            }
            if left == 0 {
                return Err(self.too_deep());
            }
            let pattern_token_line: usize = self.current_line();
            let (pattern, arm_expr) = match self.parse_match_arm(left) {
                Ok(v) => v,
                Err(e) => {
                    return Err(e);
                },
            };
            if default.is_some() {
                let message = if pattern.is_some() {
                    "non-wildcard match arm cannot appear after '_' arm"
                } else {
                    "duplicate '_' match arm"
                };
                return Err(
                    ParseError {
                        line: pattern_token_line,
                        message: message.to_string(),
                        span: None,
                        code: None,
                    },
                );
            }
            if !self.match_kind(TokenKind::Comma) && !self.check(TokenKind::RBrace) {
                return Err(self.error("expected ',' or '}' after match arm"));
            }
            match pattern {
                Some(pattern) => {
                    push_arm(&mut arms, pattern, arm_expr);
                },
                None => {
                    default = Some(arm_expr);
                },
            }
            left -= 1;
        }
        self.advance(1);
        match default {
            Some(e) => Ok((arms, e)),
            None => Err(self.error("match expression requires a wildcard arm '_ => ...'")),
        }
    }

    fn parse_match_arm(&mut self, budget: u64) -> (r: Result<
        (Option<MatchPattern>, Expr),
        ParseError,
    >)
        ensures
            match match_arm(old(self)@, budget as nat) {
                Ok(((pattern, e), s1)) => r is Ok && opt_pattern((r->Ok_0).0) == pattern
                    && (r->Ok_0).1@ == e && final(self)@ == s1,
                Err(e) => r is Err && r->Err_0@ == e,
            },
        decreases budget, 1nat,
    {
        let pattern = match self.parse_match_pattern(budget) {
            Ok(v) => v,
            Err(e) => {
                return Err(e);
            },
        };
        match self.expect(TokenKind::FatArrow, "expected '=>' in match arm") {
            Ok(v) => v,
            Err(e) => {
                return Err(e);
            },
        };
        let arm_expr = match self.parse_expr(budget) {
            Ok(v) => v,
            Err(e) => {
                return Err(e);
            },
        };
        Ok((pattern, arm_expr))
    }
}

proof fn lemma_has_keys_push(entries: Seq<EntryV>, entry: EntryV)
    ensures
        has_keys(entries.push(entry)) == (has_keys(entries) || entry.key is Some),
{
    let after = entries.push(entry);
    if has_keys(entries) {
        let i = choose|i: int| 0 <= i < entries.len() && (#[trigger] entries[i]).key is Some;
        assert(after[i].key is Some);
    }
    if entry.key is Some {
        assert(after[entries.len() as int].key is Some);
    }
    if has_keys(after) {
        let i = choose|i: int| 0 <= i < after.len() && (#[trigger] after[i]).key is Some;
        if i < entries.len() {
            assert(entries[i].key is Some);
        }
    }
}

/// The models of names with what they are called elsewhere.
pub open spec fn pairs_view(s: Seq<(String, String)>) -> Seq<(Seq<char>, Seq<char>)> {
    Seq::new(s.len(), |i: int| (s[i].0@, s[i].1@))
}

pub open spec fn gives_schema(
    r: Result<TypeSchema, ParseError>,
    s: ParV,
    want: Parsed<SchemaV>,
) -> bool {
    match want {
        Ok((v, s1)) => r is Ok && r->Ok_0@ == v && s == s1,
        Err(e) => r is Err && r->Err_0@ == e,
    }
}

pub open spec fn gives_fields(
    r: Result<Vec<(String, TypeSchema)>, ParseError>,
    s: ParV,
    want: Parsed<Seq<(Seq<char>, SchemaV)>>,
) -> bool {
    match want {
        Ok((v, s1)) => r is Ok && fields_view(r->Ok_0@) == v && s == s1,
        Err(e) => r is Err && r->Err_0@ == e,
    }
}

pub open spec fn gives_pairs(
    r: Result<Vec<(String, String)>, ParseError>,
    s: ParV,
    want: Parsed<Seq<(Seq<char>, Seq<char>)>>,
) -> bool {
    match want {
        Ok((v, s1)) => r is Ok && pairs_view(r->Ok_0@) == v && s == s1,
        Err(e) => r is Err && r->Err_0@ == e,
    }
}

pub open spec fn gives_impl(
    r: Result<FunctionImpl, ParseError>,
    s: ParV,
    want: Parsed<FunctionImplV>,
) -> bool {
    match want {
        Ok((v, s1)) => r is Ok && r->Ok_0@ == v && s == s1,
        Err(e) => r is Err && r->Err_0@ == e,
    }
}

fn declared_type_of(name: &str) -> (r: Option<ValueType>)
    ensures
        r == declared_type(name@),
{
    if same_text(name, "unknown") {
        Some(ValueType::Unknown)
    } else if same_text(name, "int") {
        Some(ValueType::Int)
    } else if same_text(name, "float") {
        Some(ValueType::Float)
    } else if same_text(name, "bool") {
        Some(ValueType::Bool)
    } else if same_text(name, "string") {
        Some(ValueType::String)
    } else if same_text(name, "array") {
        Some(ValueType::Array)
    } else if same_text(name, "map") {
        Some(ValueType::Mapping)
    } else {
        None
    }
}

fn one_deeper(depth: usize) -> (r: usize)
    ensures
        r == deeper(depth),
{
    if depth < usize::MAX {
        depth + 1
    } else {
        depth
    }
}

impl<'a> Parser<'a> {
    // Statements.

    fn parse_stmt(&mut self, budget: u64) -> (r: Result<Stmt, ParseError>)
        ensures
            gives_stmt(r, final(self)@, stmt(old(self)@, budget as nat)),
        decreases budget, 0nat,
    {
        if budget == 0 {
            return Err(self.too_deep());
        }
        self.parse_statement(budget - 1)
    }

    #[verifier::spinoff_prover]
    #[verifier::rlimit(40)]
    fn parse_statement(&mut self, budget: u64) -> (r: Result<Stmt, ParseError>)
        ensures
            gives_stmt(r, final(self)@, statement(old(self)@, budget as nat)),
        decreases budget, 10nat,
    {
        if self.match_kind(TokenKind::Pub) {
            if self.match_kind(TokenKind::Fn) {
                return self.parse_fn_decl(true, budget);
            }
            return Err(self.error("expected 'fn' after 'pub'"));
        }
        if self.match_kind(TokenKind::Use) {
            return self.parse_use_stmt();
        }
        if self.config.dialect.allow_import_stmt && self.match_kind(TokenKind::Import) {
            return self.parse_js_import_stmt();
        }
        if self.config.dialect.allow_return_stmt && self.check_ident_literal(0, "return") {
            return self.parse_return_stmt(budget);
        }
        if self.match_kind(TokenKind::Fn) {
            return self.parse_fn_decl(false, budget);
        }
        if self.match_kind(TokenKind::Struct) {
            return self.parse_struct_decl(budget);
        }
        if self.match_kind(TokenKind::Let) {
            if self.config.dialect.allow_require_declaration
                && self.check_js_require_declaration_start() {
                return self.parse_js_require_declaration_after_let();
            }
            return self.parse_let_with_terminator(true, budget);
        }
        if self.match_kind(TokenKind::For) {
            return self.parse_for(budget);
        }
        if self.match_kind(TokenKind::If) {
            return self.parse_if(budget);
        }
        if self.match_kind(TokenKind::While) {
            return self.parse_while(budget);
        }
        if self.match_kind(TokenKind::Break) {
            return self.parse_loop_control_stmt(true);
        }
        if self.match_kind(TokenKind::Continue) {
            return self.parse_loop_control_stmt(false);
        }
        if self.check_index_assignment_start() {
            return self.parse_index_assign_with_terminator(budget);
        }
        if self.check_assignment_start() {
            return self.parse_assign_with_terminator(true, budget);
        }
        let line: u32 = self.current_line_u32();
        let e = match self.parse_expr(budget) {
            Ok(v) => v,
            Err(e) => {
                return Err(e);
            },
        };
        match self.consume_stmt_terminator("expected ';' after expression") {
            Ok(v) => v,
            Err(e) => {
                return Err(e);
            },
        };
        Ok(Stmt::Expr { expr: e, line })
    }

    fn parse_loop_control_stmt(&mut self, is_break: bool) -> (r: Result<Stmt, ParseError>)
        ensures
            gives_stmt(r, final(self)@, loop_control(old(self)@, is_break)),
    {
        reveal(loop_control);
        let line: u32 = self.last_line();
        if self.loop_depth == 0 {
            let message = if is_break {
                "'break' is only allowed inside loops"
            } else {
                "'continue' is only allowed inside loops"
            };
            return Err(
                ParseError {
                    line: line as usize,
                    message: message.to_string(),
                    span: None,
                    code: None,
                },
            );
        }
        if is_break {
            match self.consume_stmt_terminator("expected ';' after break") {
                Ok(v) => v,
                Err(e) => {
                    return Err(e);
                },
            };
            Ok(Stmt::Break { line })
        } else {
            match self.consume_stmt_terminator("expected ';' after continue") {
                Ok(v) => v,
                Err(e) => {
                    return Err(e);
                },
            };
            Ok(Stmt::Continue { line })
        }
    }

    fn parse_use_stmt(&mut self) -> (r: Result<Stmt, ParseError>)
        ensures
            gives_stmt(r, final(self)@, use_stmt(old(self)@)),
    {
        reveal(use_stmt);
        let line: u32 = self.last_line();
        let namespace = match self.expect_ident("expected namespace after 'use'") {
            Ok(v) => v,
            Err(e) => {
                return Err(e);
            },
        };
        if self.match_kind(TokenKind::Semicolon) {
            self.hosts.host_namespace_aliases.insert(namespace.clone(), namespace);
            return Ok(Stmt::Noop { line });
        }
        if self.match_kind(TokenKind::As) {
            let alias = match self.expect_ident("expected namespace alias after 'as'") {
                Ok(v) => v,
                Err(e) => {
                    return Err(e);
                },
            };
            match self.expect(TokenKind::Semicolon, "expected ';' after use alias") {
                Ok(v) => v,
                Err(e) => {
                    return Err(e);
                },
            };
            self.hosts.host_namespace_aliases.insert(alias, namespace);
            return Ok(Stmt::Noop { line });
        }
        if !self.check_path_separator() {
            let message = concat3(
                "unsupported use syntax for host namespace '",
                namespace.as_str(),
                "'; expected ';', 'as <alias>', or '::{...}'",
            );
            return Err(self.error(message.as_str()));
        }
        self.advance(2);
        if self.config.builtins.is_builtin_namespace(namespace.as_str()) {
            let message = concat3(
                "unsupported use list for builtin namespace '",
                namespace.as_str(),
                "'; import the namespace and call members through it",
            );
            return Err(self.error(message.as_str()));
        }
        self.parse_use_members(namespace, line)
    }

    /// What `use` takes from a namespace, behind its `::`.
    fn parse_use_members(&mut self, namespace: String, line: u32) -> (r: Result<Stmt, ParseError>)
        ensures
            gives_stmt(r, final(self)@, use_members(old(self)@, namespace@, line)),
    {
        reveal(use_members);
        if self.match_kind(TokenKind::Star) {
            self.hosts.add_wildcard(namespace);
            match self.expect(TokenKind::Semicolon, "expected ';' after host wildcard import") {
                Ok(v) => v,
                Err(e) => {
                    return Err(e);
                },
            };
            return Ok(Stmt::Noop { line });
        }
        match self.expect(TokenKind::LBrace, "expected '{' after host import path") {
            Ok(v) => v,
            Err(e) => {
                return Err(e);
            },
        };
        if self.match_kind(TokenKind::Star) {
            self.hosts.add_wildcard(namespace);
            match self.expect(TokenKind::RBrace, "expected '}' after '*'") {
                Ok(v) => v,
                Err(e) => {
                    return Err(e);
                },
            };
        } else {
            match self.parse_use_list(namespace.as_str()) {
                Ok(v) => v,
                Err(e) => {
                    return Err(e);
                },
            };
            match self.expect(TokenKind::RBrace, "expected '}' after use list") {
                Ok(v) => v,
                Err(e) => {
                    return Err(e);
                },
            };
        }
        match self.expect(TokenKind::Semicolon, "expected ';' after use list") {
            Ok(v) => v,
            Err(e) => {
                return Err(e);
            },
        };
        Ok(Stmt::Noop { line })
    }

    /// A name, and what it is called here.
    fn parse_renamed(&mut self, message: &str) -> (r: Result<(String, String), ParseError>)
        ensures
            match renamed(old(self)@, message@) {
                Ok(((name, local), s1)) => r is Ok && (r->Ok_0).0@ == name && (r->Ok_0).1@ == local
                    && final(self)@ == s1,
                Err(e) => r is Err && r->Err_0@ == e,
            },
    {
        let name = match self.expect_ident(message) {
            Ok(v) => v,
            Err(e) => {
                return Err(e);
            },
        };
        if self.match_kind(TokenKind::As) {
            let local = match self.expect_ident("expected local alias after 'as'") {
                Ok(v) => v,
                Err(e) => {
                    return Err(e);
                },
            };
            Ok((name, local))
        } else {
            let local = name.clone();
            Ok((name, local))
        }
    }

    fn parse_use_list(&mut self, namespace: &str) -> (r: Result<(), ParseError>)
        ensures
            gives_unit(r, final(self)@, use_list(old(self)@, namespace@)),
    {
        let ghost goal = use_list(self@, namespace@);
        loop
            invariant
                goal == use_list(old(self)@, namespace@),
                goal == use_list(self@, namespace@),
            decreases self@.ts.len() - self@.pos,
        {
            let (imported, local) = match self.parse_renamed(
                "expected host function name in use list",
            ) {
                Ok(v) => v,
                Err(e) => {
                    return Err(e);
                },
            };
            let target = concat3(namespace, "::", imported.as_str());
            match self.hosts.direct_host_call_aliases.get(local.as_str()) {
                Some(existing) => {
                    if !same_text(existing.as_str(), target.as_str()) {
                        let mut message = concat5(
                            "host import alias '",
                            local.as_str(),
                            "' already maps to '",
                            existing.as_str(),
                            "', cannot remap to '",
                        );
                        message.push_str(target.as_str());
                        message.push_str("'");
                        return Err(self.error(message.as_str()));
                    }
                },
                None => {},
            }
            self.hosts.direct_host_call_aliases.insert(local, target);
            if !self.check(TokenKind::Comma) {
                return Ok(());
            }
            self.advance(1);
            if self.check(TokenKind::RBrace) {
                return Ok(());
            }
        }
    }

    fn parse_js_named_import_list(&mut self) -> (r: Result<Vec<(String, String)>, ParseError>)
        ensures
            gives_pairs(r, final(self)@, named_imports(old(self)@)),
    {
        reveal(named_imports);
        let mut named: Vec<(String, String)> = Vec::new();
        assert(pairs_view(named@) =~= Seq::<(Seq<char>, Seq<char>)>::empty());
        let mut more = !self.check(TokenKind::RBrace);
        let ghost s0 = self@;
        let ghost goal = import_list(self@, Seq::empty());
        while more
            invariant
                goal == import_list(s0, Seq::empty()),
                s0 == old(self)@,
                at(s0, TokenKind::RBrace) ==> !more && self@ == s0 && pairs_view(named@)
                    == Seq::<(Seq<char>, Seq<char>)>::empty(),
                !at(s0, TokenKind::RBrace) && more ==> goal == import_list(
                    self@,
                    pairs_view(named@),
                ),
                !at(s0, TokenKind::RBrace) && !more ==> goal == Ok::<
                    (Seq<(Seq<char>, Seq<char>)>, ParV),
                    ParseErrorV,
                >((pairs_view(named@), self@)),
            decreases self@.ts.len() - self@.pos, (if more {
                1int
            } else {
                0int
            }),
        {
            reveal(named_imports);
            let ghost before = pairs_view(named@);
            let (imported, local) = match self.parse_renamed(
                "expected imported symbol in import list",
            ) {
                Ok(v) => v,
                Err(e) => {
                    return Err(e);
                },
            };
            let ghost pair = (imported@, local@);
            named.push((imported, local));
            assert(pairs_view(named@) =~= before.push(pair));
            more = false;
            if self.match_kind(TokenKind::Comma) {
                more = !self.check(TokenKind::RBrace);
            }
        }
        match self.expect(TokenKind::RBrace, "expected '}' after import list") {
            Ok(v) => v,
            Err(e) => {
                return Err(e);
            },
        };
        Ok(named)
    }

    /// The module that an import is from, up to the end of the statement.
    fn parse_import_source(&mut self) -> (r: Result<String, ParseError>)
        ensures
            gives_text(r, final(self)@, import_source(old(self)@)),
    {
        reveal(import_source);
        match self.expect(TokenKind::From, "expected 'from' in import statement") {
            Ok(v) => v,
            Err(e) => {
                return Err(e);
            },
        };
        let spec_text = match self.expect_string_literal("expected module string after 'from'") {
            Ok(v) => v,
            Err(e) => {
                return Err(e);
            },
        };
        match self.consume_stmt_terminator("expected ';' after import statement") {
            Ok(v) => v,
            Err(e) => {
                return Err(e);
            },
        };
        Ok(spec_text)
    }

    /// Lets a name stand for a module, where that is a namespace.
    fn add_namespace_alias(&mut self, alias: String, spec_text: String)
        ensures
            final(self)@ == with_import(old(self)@, alias@, spec_text@),
    {
        if self.config.builtins.is_builtin_namespace(spec_text.as_str())
            || is_virtual_host_namespace_spec(spec_text.as_str()) {
            self.hosts.host_namespace_aliases.insert(alias, spec_text);
        }
    }

    fn parse_namespace_alias(&mut self) -> (r: Result<String, ParseError>)
        ensures
            gives_text(r, final(self)@, namespace_alias(old(self)@)),
    {
        reveal(expect);
        match self.expect(TokenKind::As, "expected 'as' in namespace import") {
            Ok(v) => v,
            Err(e) => {
                return Err(e);
            },
        };
        self.expect_ident("expected namespace alias in import")
    }

    fn parse_js_import_stmt(&mut self) -> (r: Result<Stmt, ParseError>)
        ensures
            gives_stmt(r, final(self)@, import_stmt(old(self)@)),
    {
        reveal(import_stmt);
        let line: u32 = self.last_line();
        if self.match_kind(TokenKind::String) {
            match self.consume_stmt_terminator("expected ';' after import statement") {
                Ok(v) => v,
                Err(e) => {
                    return Err(e);
                },
            };
            return Ok(Stmt::Noop { line });
        }
        if self.match_kind(TokenKind::Star) {
            let alias = match self.parse_namespace_alias() {
                Ok(v) => v,
                Err(e) => {
                    return Err(e);
                },
            };
            let spec_text = match self.parse_import_source() {
                Ok(v) => v,
                Err(e) => {
                    return Err(e);
                },
            };
            self.add_namespace_alias(alias, spec_text);
            return Ok(Stmt::Noop { line });
        }
        if self.match_kind(TokenKind::LBrace) {
            let named = match self.parse_js_named_import_list() {
                Ok(v) => v,
                Err(e) => {
                    return Err(e);
                },
            };
            let spec_text = match self.parse_import_source() {
                Ok(v) => v,
                Err(e) => {
                    return Err(e);
                },
            };
            if is_virtual_host_namespace_spec(spec_text.as_str())
                && !self.config.builtins.is_builtin_namespace(spec_text.as_str()) {
                self.add_direct_aliases(spec_text.as_str(), &named);
            }
            return Ok(Stmt::Noop { line });
        }
        let default_ident = match self.expect_ident("expected import clause after 'import'") {
            Ok(v) => v,
            Err(e) => {
                return Err(e);
            },
        };
        match self.parse_import_more() {
            Ok(v) => v,
            Err(e) => {
                return Err(e);
            },
        };
        let spec_text = match self.parse_import_source() {
            Ok(v) => v,
            Err(e) => {
                return Err(e);
            },
        };
        self.add_namespace_alias(default_ident, spec_text);
        Ok(Stmt::Noop { line })
    }

    fn add_direct_aliases(&mut self, spec_text: &str, named: &Vec<(String, String)>)
        ensures
            final(self)@ == with_hosts(
                old(self)@,
                with_directs(old(self)@.hosts, spec_text@, pairs_view(named@), 0),
            ),
    {
        let ghost all = pairs_view(named@);
        let mut i: usize = 0;
        while i < named.len()
            invariant
                i <= named@.len(),
                all == pairs_view(named@),
                self@ == with_hosts(old(self)@, self@.hosts),
                with_directs(old(self)@.hosts, spec_text@, all, 0) == with_directs(
                    self@.hosts,
                    spec_text@,
                    all,
                    i as int,
                ),
            decreases named@.len() - i,
        {
            assert(all[i as int] == (named@[i as int].0@, named@[i as int].1@));
            let target = concat3(spec_text, "::", named[i].0.as_str());
            self.hosts.direct_host_call_aliases.insert(named[i].1.clone(), target);
            i += 1;
        }
    }

    /// What may stand behind the first name of an import.
    fn parse_import_more(&mut self) -> (r: Result<(), ParseError>)
        ensures
            gives_unit(r, final(self)@, import_more(old(self)@)),
    {
        reveal(import_more);
        if !self.match_kind(TokenKind::Comma) {
            return Ok(());
        }
        if self.match_kind(TokenKind::Star) {
            let _ = match self.parse_namespace_alias() {
                Ok(v) => v,
                Err(e) => {
                    return Err(e);
                },
            };
            return Ok(());
        }
        if self.match_kind(TokenKind::LBrace) {
            let _ = match self.parse_js_named_import_list() {
                Ok(v) => v,
                Err(e) => {
                    return Err(e);
                },
            };
            return Ok(());
        }
        Err(self.error("unsupported import clause after ','"))
    }

    /// Whether `= require("...")` stands at a position.
    fn check_require_at(&self, index: usize) -> (r: bool)
        ensures
            r == require_at(self@.ts, index as int),
    {
        let total: usize = self.tokens.len();
        if !(index < total && total - index > 4) {
            return false;
        }
        check_kind_at(&self.tokens, index, TokenKind::Equal) && check_kind_at(
            &self.tokens,
            index + 1,
            TokenKind::Ident,
        ) && same_text(self.tokens[index + 1].text.as_str(), "require") && check_kind_at(
            &self.tokens,
            index + 2,
            TokenKind::LParen,
        ) && check_kind_at(&self.tokens, index + 3, TokenKind::String) && check_kind_at(
            &self.tokens,
            index + 4,
            TokenKind::RParen,
        )
    }

    fn check_js_require_declaration_start(&self) -> (r: bool)
        ensures
            r == at_require(self@),
    {
        reveal(at_require);
        let total: usize = self.tokens.len();
        if self.check(TokenKind::LBrace) {
            let ghost ts = self@.ts;
            let mut cursor: usize = self.pos + 1;
            while cursor < total
                invariant
                    self.pos < cursor,
                    ts == self@.ts,
                    total == ts.len(),
                    at(self@, TokenKind::LBrace),
                    require_behind_brace(ts, self.pos + 1) == require_behind_brace(
                        ts,
                        cursor as int,
                    ),
                decreases total - cursor,
            {
                reveal(at_require);
                let kind = self.tokens[cursor].kind;
                assert(ts[cursor as int].kind == kind);
                if kind == TokenKind::RBrace {
                    return self.check_require_at(cursor + 1);
                }
                if kind == TokenKind::Eof {
                    return false;
                }
                cursor += 1;
            }
            return false;
        }
        self.check(TokenKind::Ident) && self.check_require_at(self.pos + 1)
    }

    fn parse_js_require_call(&mut self) -> (r: Result<String, ParseError>)
        ensures
            gives_text(r, final(self)@, require_call(old(self)@)),
    {
        reveal(require_call);
        if !self.check_ident_literal(0, "require") {
            return Err(self.error("expected 'require(...)' in declaration"));
        }
        self.advance(1);
        match self.expect(TokenKind::LParen, "expected '(' after require") {
            Ok(v) => v,
            Err(e) => {
                return Err(e);
            },
        };
        let spec_text = match self.expect_string_literal("expected module string in require") {
            Ok(v) => v,
            Err(e) => {
                return Err(e);
            },
        };
        match self.expect(TokenKind::RParen, "expected ')' after require module string") {
            Ok(v) => v,
            Err(e) => {
                return Err(e);
            },
        };
        Ok(spec_text)
    }

    /// A `require` call and the end of its statement.
    fn parse_required(&mut self) -> (r: Result<String, ParseError>)
        ensures
            gives_text(r, final(self)@, required(old(self)@)),
    {
        reveal(required);
        let spec_text = match self.parse_js_require_call() {
            Ok(v) => v,
            Err(e) => {
                return Err(e);
            },
        };
        match self.consume_stmt_terminator("expected ';' after require declaration") {
            Ok(v) => v,
            Err(e) => {
                return Err(e);
            },
        };
        Ok(spec_text)
    }

    fn skip_to_brace(&mut self) -> (r: Result<(), ParseError>)
        ensures
            gives_unit(r, final(self)@, to_brace(old(self)@)),
            r is Ok ==> at(final(self)@, TokenKind::RBrace),
    {
        let ghost goal = to_brace(self@);
        while !self.check(TokenKind::RBrace)
            invariant
                goal == to_brace(old(self)@),
                goal == to_brace(self@),
            decreases self@.ts.len() - self@.pos,
        {
            if self.check(TokenKind::Eof) || self.pos >= self.tokens.len() {
                return Err(self.error("unexpected end of input in require destructuring"));
            }
            self.advance(1);
        }
        Ok(())
    }

    fn parse_js_require_declaration_after_let(&mut self) -> (r: Result<Stmt, ParseError>)
        ensures
            gives_stmt(r, final(self)@, require_decl(old(self)@)),
    {
        reveal(require_decl);
        let line: u32 = self.last_line();
        if self.match_kind(TokenKind::LBrace) {
            match self.skip_to_brace() {
                Ok(v) => v,
                Err(e) => {
                    return Err(e);
                },
            };
            let _ = self.match_kind(TokenKind::RBrace);
            match self.expect(
                TokenKind::Equal,
                "expected '=' after destructuring in require declaration",
            ) {
                Ok(v) => v,
                Err(e) => {
                    return Err(e);
                },
            };
            let _ = match self.parse_required() {
                Ok(v) => v,
                Err(e) => {
                    return Err(e);
                },
            };
            return Ok(Stmt::Noop { line });
        }
        let alias = match self.expect_ident("expected identifier after 'let'") {
            Ok(v) => v,
            Err(e) => {
                return Err(e);
            },
        };
        match self.expect(
            TokenKind::Equal,
            "expected '=' in require declaration after identifier",
        ) {
            Ok(v) => v,
            Err(e) => {
                return Err(e);
            },
        };
        let spec_text = match self.parse_required() {
            Ok(v) => v,
            Err(e) => {
                return Err(e);
            },
        };
        self.add_namespace_alias(alias, spec_text);
        Ok(Stmt::Noop { line })
    }

    fn parse_return_stmt(&mut self, budget: u64) -> (r: Result<Stmt, ParseError>)
        requires
            old(self).pos < old(self).tokens@.len(),
        ensures
            gives_stmt(r, final(self)@, return_stmt(old(self)@, budget as nat)),
        decreases budget, 1nat,
    {
        let line: u32 = self.current_line_u32();
        self.advance(1);
        if self.function_body_depth == 0 {
            return Err(self.error("'return' is only valid inside function bodies"));
        }
        if self.match_kind(TokenKind::Semicolon) || self.check(TokenKind::RBrace) || self.check(
            TokenKind::Eof,
        ) {
            let nothing = Expr::Null;
            assert(nothing@ == ExprV::Null);
            return Ok(Stmt::Expr { expr: nothing, line });
        }
        let e = match self.parse_expr(budget) {
            Ok(v) => v,
            Err(e) => {
                return Err(e);
            },
        };
        match self.consume_stmt_terminator("expected ';' after return value") {
            Ok(v) => v,
            Err(e) => {
                return Err(e);
            },
        };
        Ok(Stmt::Expr { expr: e, line })
    }

    fn parse_optional_declared_return_type(&mut self) -> (r: Result<ValueType, ParseError>)
        ensures
            gives(r, final(self)@, return_type(old(self)@)),
    {
        reveal(return_type);
        if !(self.check(TokenKind::Minus) && self.check_ahead(1, TokenKind::Greater)) {
            return Ok(ValueType::Unknown);
        }
        if self.check_ahead(2, TokenKind::Null) {
            self.advance(3);
            return Ok(ValueType::Null);
        }
        self.advance(2);
        let span = self.current_span();
        let name = match self.expect_ident("expected return type after '->'") {
            Ok(v) => v,
            Err(e) => {
                return Err(e);
            },
        };
        match declared_type_of(name.as_str()) {
            Some(ty) => {
                if same_text(name.as_str(), "unknown") {
                    self.schemas.push_unknown(span);
                }
                Ok(ty)
            },
            None => {
                let message = concat3(
                    "unknown declared return type '",
                    name.as_str(),
                    "', expected unknown/null/int/float/bool/string/array/map",
                );
                Err(self.error(message.as_str()))
            },
        }
    }

    /// The head of a function: its name, its parameters and its result type.
    fn parse_fn_head(&mut self) -> (r: Result<(String, Vec<String>, ValueType), ParseError>)
        ensures
            match fn_head(old(self)@) {
                Ok(((name, params, ty), s1)) => r is Ok && (r->Ok_0).0@ == name && strings_view(
                    (r->Ok_0).1@,
                ) == params && (r->Ok_0).2 == ty && final(self)@ == s1,
                Err(e) => r is Err && r->Err_0@ == e,
            },
    {
        reveal(fn_head);
        let name = match self.expect_ident("expected function name after 'fn'") {
            Ok(v) => v,
            Err(e) => {
                return Err(e);
            },
        };
        match self.expect(TokenKind::LParen, "expected '(' after function name") {
            Ok(v) => v,
            Err(e) => {
                return Err(e);
            },
        };
        let params = if self.check(TokenKind::RParen) {
            no_texts()
        } else {
            match self.parse_ident_list("expected parameter name") {
                Ok(v) => v,
                Err(e) => {
                    return Err(e);
                },
            }
        };
        match self.expect(TokenKind::RParen, "expected ')' after parameters") {
            Ok(v) => v,
            Err(e) => {
                return Err(e);
            },
        };
        let return_type = match self.parse_optional_declared_return_type() {
            Ok(v) => v,
            Err(e) => {
                return Err(e);
            },
        };
        Ok((name, params, return_type))
    }

    fn declare_function(
        &mut self,
        name: &str,
        params: &Vec<String>,
        exported: bool,
        return_type: ValueType,
    ) -> (r: Result<FunctionDecl, ParseError>)
        ensures
            gives_decl(
                r,
                final(self)@,
                declare(old(self)@, name@, strings_view(params@), exported, return_type),
            ),
    {
        reveal(declare);
        if params.len() > 255 {
            return Err(self.error("function arity too large"));
        }
        if self.names.find_function(name).is_some() {
            let message = concat3("duplicate function '", name, "'");
            return Err(self.error(message.as_str()));
        }
        if self.names.locals.get(name).is_some() {
            let message = concat3("name '", name, "' already used by a local binding");
            return Err(self.error(message.as_str()));
        }
        if self.names.next_function == 0xFFFF {
            return Err(self.error("function index overflow"));
        }
        let decl = FunctionDecl {
            name: name.to_string(),
            arity: params.len() as u8,
            index: self.names.next_function,
            args: clone_strings(params),
            exported,
            return_type,
        };
        self.names.push_function(decl.clone());
        Ok(decl)
    }

    fn parse_fn_decl(&mut self, exported: bool, budget: u64) -> (r: Result<Stmt, ParseError>)
        ensures
            gives_stmt(r, final(self)@, fn_decl(old(self)@, exported, budget as nat)),
        decreases budget, 5nat,
    {
        let line: u32 = self.last_line();
        let (name, params, return_type) = match self.parse_fn_head() {
            Ok(v) => v,
            Err(e) => {
                return Err(e);
            },
        };
        let decl = match self.declare_function(name.as_str(), &params, exported, return_type) {
            Ok(v) => v,
            Err(e) => {
                return Err(e);
            },
        };
        reveal(declare);
        match self.parse_fn_body(&decl, budget) {
            Ok(v) => v,
            Err(e) => {
                return Err(e);
            },
        };
        Ok(
            Stmt::FuncDecl {
                name,
                index: decl.index,
                arity: decl.arity,
                args: params,
                exported,
                line,
            },
        )
    }

    fn parse_fn_body(&mut self, decl: &FunctionDecl, budget: u64) -> (r: Result<(), ParseError>)
        ensures
            gives_unit(r, final(self)@, fn_body(old(self)@, decl@, budget as nat)),
        decreases budget, 4nat,
    {
        if self.match_kind(TokenKind::Equal) {
            let function_impl = match self.parse_function_impl(&decl.args, false, budget) {
                Ok(v) => v,
                Err(e) => {
                    return Err(e);
                },
            };
            match self.expect(TokenKind::Semicolon, "expected ';' after function definition") {
                Ok(v) => v,
                Err(e) => {
                    return Err(e);
                },
            };
            self.names.put_impl(decl.index, function_impl);
            return Ok(());
        }
        if self.match_kind(TokenKind::LBrace) {
            let function_impl = match self.parse_function_impl(&decl.args, true, budget) {
                Ok(v) => v,
                Err(e) => {
                    return Err(e);
                },
            };
            match self.expect(TokenKind::RBrace, "expected '}' after function body") {
                Ok(v) => v,
                Err(e) => {
                    return Err(e);
                },
            };
            self.names.put_impl(decl.index, function_impl);
            let _ = self.match_kind(TokenKind::Semicolon);
            return Ok(());
        }
        self.expect(TokenKind::Semicolon, "expected ';' after function declaration")
    }

    fn parse_function_impl(&mut self, params: &Vec<String>, block: bool, budget: u64) -> (r: Result<
        FunctionImpl,
        ParseError,
    >)
        ensures
            gives_impl(
                r,
                final(self)@,
                function_impl(old(self)@, strings_view(params@), block, budget as nat),
            ),
        decreases budget, 3nat,
    {
        let (scope, param_slots) = match self.bind_params(params, "function") {
            Ok(v) => v,
            Err(e) => {
                return Err(e);
            },
        };
        let outer_depth: usize = self.function_body_depth;
        proof {
            lemma_param_slots_frame(
                old(self)@,
                strings_view(params@),
                0,
                Seq::empty(),
                Seq::empty(),
                "function"@,
            );
        }
        self.names.enter(scope);
        self.function_body_depth = one_deeper(outer_depth);
        let (body_stmts, body_expr) = match self.parse_function_content(block, budget) {
            Ok(v) => v,
            Err(e) => {
                return Err(e);
            },
        };
        match self.names.leave() {
            Some(capture_copies) => {
                self.function_body_depth = outer_depth;
                Ok(FunctionImpl { param_slots, capture_copies, body_stmts, body_expr })
            },
            None => Err(self.error("internal function capture state error")),
        }
    }

    fn parse_function_content(&mut self, block: bool, budget: u64) -> (r: Result<
        (Vec<Stmt>, Expr),
        ParseError,
    >)
        ensures
            match function_content(old(self)@, block, budget as nat) {
                Ok(((stmts, e), s1)) => r is Ok && stmts_view((r->Ok_0).0@) == stmts
                    && (r->Ok_0).1@ == e && final(self)@ == s1,
                Err(e) => r is Err && r->Err_0@ == e,
            },
        decreases budget, 2nat,
    {
        if block {
            let (stmts, tail) = match self.parse_body_items(true, budget) {
                Ok(v) => v,
                Err(e) => {
                    return Err(e);
                },
            };
            self.take_body_value(
                stmts,
                tail,
                "function body must end with an expression statement",
            )
        } else {
            let e = match self.parse_expr(budget) {
                Ok(v) => v,
                Err(e) => {
                    return Err(e);
                },
            };
            Ok((no_stmts(), e))
        }
    }

    fn parse_declared_type_schema(&mut self, budget: u64) -> (r: Result<TypeSchema, ParseError>)
        ensures
            gives_schema(r, final(self)@, type_schema(old(self)@, budget as nat)),
        decreases budget, 0nat,
    {
        if budget == 0 {
            return Err(self.too_deep());
        }
        if self.match_kind(TokenKind::LBracket) {
            let element = match self.parse_declared_type_schema(budget - 1) {
                Ok(v) => v,
                Err(e) => {
                    return Err(e);
                },
            };
            match self.expect(TokenKind::RBracket, "expected ']' after array type schema") {
                Ok(v) => v,
                Err(e) => {
                    return Err(e);
                },
            };
            return Ok(TypeSchema::Array(Box::new(element)));
        }
        if self.match_kind(TokenKind::LBrace) {
            let fields = match self.parse_object_type_schema_fields(budget - 1) {
                Ok(v) => v,
                Err(e) => {
                    return Err(e);
                },
            };
            match self.expect(TokenKind::RBrace, "expected '}' after object type schema") {
                Ok(v) => v,
                Err(e) => {
                    return Err(e);
                },
            };
            return Ok(TypeSchema::Object(fields));
        }
        if self.match_kind(TokenKind::Null) {
            return Ok(TypeSchema::Null);
        }
        let span = self.current_span();
        let name = match self.expect_ident("expected type schema") {
            Ok(v) => v,
            Err(e) => {
                return Err(e);
            },
        };
        Ok(self.named_type_schema(name, span))
    }

    /// The declared type that a name stands for.
    fn named_type_schema(&mut self, name: String, span: Span) -> (r: TypeSchema)
        ensures
            (r@, final(self)@) == named_schema(old(self)@, name@, span),
    {
        reveal(named_schema);
        match declared_type_of(name.as_str()) {
            Some(ValueType::Unknown) => {
                self.schemas.push_unknown(span);
                TypeSchema::Unknown
            },
            Some(ValueType::Int) => TypeSchema::Int,
            Some(ValueType::Float) => TypeSchema::Float,
            Some(ValueType::Bool) => TypeSchema::Bool,
            Some(ValueType::String) => TypeSchema::String,
            Some(ValueType::Array) => {
                let inner = TypeSchema::Unknown;
                assert(inner@ == SchemaV::Unknown);
                TypeSchema::Array(Box::new(inner))
            },
            Some(ValueType::Mapping) => {
                let inner = TypeSchema::Unknown;
                assert(inner@ == SchemaV::Unknown);
                TypeSchema::Mapping(Box::new(inner))
            },
            _ => {
                let line: usize = self.current_line();
                self.schemas.push_site(name.clone(), line, span);
                TypeSchema::Named(name)
            },
        }
    }

    fn parse_object_type_schema_fields(&mut self, budget: u64) -> (r: Result<
        Vec<(String, TypeSchema)>,
        ParseError,
    >)
        ensures
            gives_fields(r, final(self)@, schema_fields(old(self)@, budget as nat)),
        decreases budget, 2nat,
    {
        let ghost goal = schema_fields(self@, budget as nat);
        let mut fields: Vec<(String, TypeSchema)> = Vec::new();
        assert(fields_view(fields@) =~= Seq::<(Seq<char>, SchemaV)>::empty());
        if self.check(TokenKind::RBrace) {
            return Ok(fields);
        }
        let mut left: u64 = budget;
        loop
            invariant
                left <= budget,
                goal == schema_fields(old(self)@, budget as nat),
                goal == fields_rest(self@, fields_view(fields@), left as nat),
            decreases left,
        {
            let field = match self.expect_ident("expected field name in object type schema") {
                Ok(v) => v,
                Err(e) => {
                    return Err(e);
                },
            };
            match self.expect(TokenKind::Colon, "expected ':' after schema field name") {
                Ok(v) => v,
                Err(e) => {
                    return Err(e);
                },
            };
            let field_schema = match self.parse_declared_type_schema(left) {
                Ok(v) => v,
                Err(e) => {
                    return Err(e);
                },
            };
            put_field(&mut fields, field, field_schema);
            if !self.check(TokenKind::Comma) {
                return Ok(fields);
            }
            if self.check_ahead(1, TokenKind::RBrace) {
                self.advance(1);
                return Ok(fields);
            }
            if left == 0 {
                return Err(self.too_deep());
            }
            self.advance(1);
            left -= 1;
        }
    }

    fn parse_struct_decl(&mut self, budget: u64) -> (r: Result<Stmt, ParseError>)
        ensures
            gives_stmt(r, final(self)@, struct_decl(old(self)@, budget as nat)),
        decreases budget, 3nat,
    {
        let line: u32 = self.last_line();
        let name = match self.expect_ident("expected struct name after 'struct'") {
            Ok(v) => v,
            Err(e) => {
                return Err(e);
            },
        };
        match self.expect(TokenKind::LBrace, "expected '{' after struct name") {
            Ok(v) => v,
            Err(e) => {
                return Err(e);
            },
        };
        let fields = match self.parse_object_type_schema_fields(budget) {
            Ok(v) => v,
            Err(e) => {
                return Err(e);
            },
        };
        match self.expect(TokenKind::RBrace, "expected '}' after struct body") {
            Ok(v) => v,
            Err(e) => {
                return Err(e);
            },
        };
        assert(self.schemas@.structs.len() == self.schemas.structs@.len());
        if find_field(&self.schemas.structs, name.as_str()).is_some() {
            let message = concat3("duplicate struct schema '", name.as_str(), "'");
            return Err(self.error(message.as_str()));
        }
        self.schemas.push_struct(name, TypeSchema::Object(fields));
        Ok(Stmt::Noop { line })
    }

    /// The structure that a `let` declares, where it does.
    fn parse_declared_struct_name(&mut self) -> (r: Result<Option<String>, ParseError>)
        ensures
            match let_struct(old(self)@) {
                Ok((name, s1)) => r is Ok && opt_text(r->Ok_0) == name && final(self)@ == s1,
                Err(e) => r is Err && r->Err_0@ == e,
            },
    {
        reveal(let_struct);
        if !self.match_kind(TokenKind::Colon) {
            return Ok(None);
        }
        let span = self.current_span();
        let name = match self.expect_ident("expected struct name after ':'") {
            Ok(v) => v,
            Err(e) => {
                return Err(e);
            },
        };
        let line: usize = self.current_line();
        self.schemas.push_site(name.clone(), line, span);
        Ok(Some(name))
    }

    fn parse_let_name(&mut self) -> (r: Result<(String, bool), ParseError>)
        ensures
            match let_name(old(self)@) {
                Ok(((name, declared), s1)) => r is Ok && (r->Ok_0).0@ == name && (r->Ok_0).1
                    == declared && final(self)@ == s1,
                Err(e) => r is Err && r->Err_0@ == e,
            },
    {
        reveal(let_name);
        if self.config.dialect.allow_let_mut_binding && self.check_ident_literal(0, "mut") {
            self.advance(1);
            let name = match self.expect_ident("expected identifier after 'let mut'") {
                Ok(v) => v,
                Err(e) => {
                    return Err(e);
                },
            };
            return Ok((name, true));
        }
        let name = match self.expect_ident("expected identifier after 'let'") {
            Ok(v) => v,
            Err(e) => {
                return Err(e);
            },
        };
        Ok((name, false))
    }

    fn parse_let_with_terminator(&mut self, expect_terminator: bool, budget: u64) -> (r: Result<
        Stmt,
        ParseError,
    >)
        ensures
            gives_stmt(
                r,
                final(self)@,
                let_stmt(old(self)@, expect_terminator, budget as nat),
            ),
        decreases budget, 2nat,
    {
        let line: u32 = self.last_line();
        let (name, declared_mutable) = match self.parse_let_name() {
            Ok(v) => v,
            Err(e) => {
                return Err(e);
            },
        };
        let declared_struct = match self.parse_declared_struct_name() {
            Ok(v) => v,
            Err(e) => {
                return Err(e);
            },
        };
        let e = match self.parse_value(expect_terminator, "expected ';' after let", budget) {
            Ok(v) => v,
            Err(e) => {
                return Err(e);
            },
        };
        let index: LocalSlot = match self.bind_let(name, declared_mutable) {
            Ok(v) => v,
            Err(e) => {
                return Err(e);
            },
        };
        self.schemas.push_declared(index, declared_struct);
        Ok(Stmt::Let { index, expr: e, line })
    }

    /// A value behind `=`, and the end of its statement.
    fn parse_value(&mut self, expect_terminator: bool, message: &str, budget: u64) -> (r: Result<
        Expr,
        ParseError,
    >)
        ensures
            gives_expr(
                r,
                final(self)@,
                value(old(self)@, expect_terminator, message@, budget as nat),
            ),
        decreases budget, 1nat,
    {
        match self.expect(TokenKind::Equal, "expected '=' after identifier") {
            Ok(v) => v,
            Err(e) => {
                return Err(e);
            },
        };
        let e = match self.parse_expr(budget) {
            Ok(v) => v,
            Err(e) => {
                return Err(e);
            },
        };
        if expect_terminator {
            match self.consume_stmt_terminator(message) {
                Ok(v) => v,
                Err(e) => {
                    return Err(e);
                },
            };
        }
        Ok(e)
    }

    fn parse_assign_with_terminator(&mut self, expect_terminator: bool, budget: u64) -> (r: Result<
        Stmt,
        ParseError,
    >)
        ensures
            gives_stmt(r, final(self)@, assign(old(self)@, expect_terminator, budget as nat)),
        decreases budget, 2nat,
    {
        let line: u32 = self.current_line_u32();
        let name = match self.expect_ident("expected identifier before '='") {
            Ok(v) => v,
            Err(e) => {
                return Err(e);
            },
        };
        let e = match self.parse_value(expect_terminator, "expected ';' after assignment", budget) {
            Ok(v) => v,
            Err(e) => {
                return Err(e);
            },
        };
        let index: LocalSlot = match self.get_local(name.as_str()) {
            Ok(v) => v,
            Err(e) => {
                return Err(e);
            },
        };
        match self.require_local_mutable_for_operation(
            index,
            Some(name.as_str()),
            line,
            "assign to",
        ) {
            Ok(v) => v,
            Err(e) => {
                return Err(e);
            },
        };
        Ok(Stmt::Assign { index, expr: e, line })
    }

    /// The key of an assignment to a part of a local.
    fn parse_assign_key(&mut self, budget: u64) -> (r: Result<Expr, ParseError>)
        ensures
            gives_expr(r, final(self)@, assign_key(old(self)@, budget as nat)),
        decreases budget, 1nat,
    {
        if self.match_kind(TokenKind::LBracket) {
            let key = match self.parse_expr(budget) {
                Ok(v) => v,
                Err(e) => {
                    return Err(e);
                },
            };
            match self.expect(TokenKind::RBracket, "expected ']' after assignment index") {
                Ok(v) => v,
                Err(e) => {
                    return Err(e);
                },
            };
            return Ok(key);
        }
        if self.match_kind(TokenKind::Dot) {
            let member = match self.expect_ident("expected member name after '.'") {
                Ok(v) => v,
                Err(e) => {
                    return Err(e);
                },
            };
            return Ok(Expr::String(member));
        }
        Err(self.error("expected '[' or '.' in indexed assignment"))
    }

    fn parse_index_assign_with_terminator(&mut self, budget: u64) -> (r: Result<Stmt, ParseError>)
        ensures
            gives_stmt(r, final(self)@, index_assign(old(self)@, budget as nat)),
        decreases budget, 2nat,
    {
        let line: u32 = self.current_line_u32();
        let name = match self.expect_ident("expected identifier before indexed assignment") {
            Ok(v) => v,
            Err(e) => {
                return Err(e);
            },
        };
        let key = match self.parse_assign_key(budget) {
            Ok(v) => v,
            Err(e) => {
                return Err(e);
            },
        };
        match self.expect(TokenKind::Equal, "expected '=' after indexed assignment target") {
            Ok(v) => v,
            Err(e) => {
                return Err(e);
            },
        };
        let value = match self.parse_expr(budget) {
            Ok(v) => v,
            Err(e) => {
                return Err(e);
            },
        };
        match self.consume_stmt_terminator("expected ';' after indexed assignment") {
            Ok(v) => v,
            Err(e) => {
                return Err(e);
            },
        };
        let index: LocalSlot = match self.get_local(name.as_str()) {
            Ok(v) => v,
            Err(e) => {
                return Err(e);
            },
        };
        match self.require_local_mutable_for_operation(
            index,
            Some(name.as_str()),
            line,
            "mutate",
        ) {
            Ok(v) => v,
            Err(e) => {
                return Err(e);
            },
        };
        let e = build_call3(BuiltinFunction::SetAt, Expr::Var(index), key, value);
        Ok(Stmt::Assign { index, expr: e, line })
    }

    fn parse_for_clause(&mut self, budget: u64) -> (r: Result<Stmt, ParseError>)
        ensures
            gives_stmt(r, final(self)@, for_clause(old(self)@, budget as nat)),
        decreases budget, 3nat,
    {
        if self.check_assignment_start() {
            return self.parse_assign_with_terminator(false, budget);
        }
        let line: u32 = self.current_line_u32();
        let e = match self.parse_expr(budget) {
            Ok(v) => v,
            Err(e) => {
                return Err(e);
            },
        };
        Ok(Stmt::Expr { expr: e, line })
    }

    fn parse_for_start(&mut self, budget: u64) -> (r: Result<Stmt, ParseError>)
        ensures
            gives_stmt(r, final(self)@, for_start(old(self)@, budget as nat)),
        decreases budget, 4nat,
    {
        if self.match_kind(TokenKind::Let) {
            return self.parse_let_with_terminator(false, budget);
        }
        self.parse_for_clause(budget)
    }

    fn parse_loop_body(&mut self, message: &str, budget: u64) -> (r: Result<Vec<Stmt>, ParseError>)
        ensures
            gives_stmts(r, final(self)@, loop_body(old(self)@, message@, budget as nat)),
        decreases budget, 4nat,
    {
        let outer_depth: usize = self.loop_depth;
        self.loop_depth = one_deeper(outer_depth);
        let body = match self.parse_block(message, budget) {
            Ok(v) => v,
            Err(e) => {
                return Err(e);
            },
        };
        self.loop_depth = outer_depth;
        Ok(body)
    }

    fn parse_for(&mut self, budget: u64) -> (r: Result<Stmt, ParseError>)
        ensures
            gives_stmt(r, final(self)@, for_stmt(old(self)@, budget as nat)),
        decreases budget, 5nat,
    {
        let line: u32 = self.last_line();
        match self.expect(TokenKind::LParen, "expected '(' after 'for'") {
            Ok(v) => v,
            Err(e) => {
                return Err(e);
            },
        };
        let init = match self.parse_for_start(budget) {
            Ok(v) => v,
            Err(e) => {
                return Err(e);
            },
        };
        match self.expect(TokenKind::Semicolon, "expected ';' after for initializer") {
            Ok(v) => v,
            Err(e) => {
                return Err(e);
            },
        };
        let condition = match self.parse_expr(budget) {
            Ok(v) => v,
            Err(e) => {
                return Err(e);
            },
        };
        match self.expect(TokenKind::Semicolon, "expected ';' after for condition") {
            Ok(v) => v,
            Err(e) => {
                return Err(e);
            },
        };
        let post = match self.parse_for_clause(budget) {
            Ok(v) => v,
            Err(e) => {
                return Err(e);
            },
        };
        match self.expect(TokenKind::RParen, "expected ')' after for clauses") {
            Ok(v) => v,
            Err(e) => {
                return Err(e);
            },
        };
        let body = match self.parse_loop_body("expected '{' after for clauses", budget) {
            Ok(v) => v,
            Err(e) => {
                return Err(e);
            },
        };
        Ok(
            Stmt::For {
                init: Box::new(init),
                condition,
                post: Box::new(post),
                body,
                line,
            },
        )
    }

    fn parse_if(&mut self, budget: u64) -> (r: Result<Stmt, ParseError>)
        ensures
            gives_stmt(r, final(self)@, if_stmt(old(self)@, budget as nat)),
        decreases budget, 5nat,
    {
        let line: u32 = self.last_line();
        let condition = match self.parse_expr(budget) {
            Ok(v) => v,
            Err(e) => {
                return Err(e);
            },
        };
        let then_branch = match self.parse_block("expected '{' after if condition", budget) {
            Ok(v) => v,
            Err(e) => {
                return Err(e);
            },
        };
        let else_branch = match self.parse_else_branch(budget) {
            Ok(v) => v,
            Err(e) => {
                return Err(e);
            },
        };
        Ok(Stmt::IfElse { condition, then_branch, else_branch, line })
    }

    fn parse_else_branch(&mut self, budget: u64) -> (r: Result<Vec<Stmt>, ParseError>)
        ensures
            gives_stmts(r, final(self)@, else_branch(old(self)@, budget as nat)),
        decreases budget, 4nat,
    {
        if !self.match_kind(TokenKind::Else) {
            return Ok(no_stmts());
        }
        if self.check(TokenKind::If) {
            if budget == 0 {
                return Err(self.too_deep());
            }
            self.advance(1);
            let nested = match self.parse_if(budget - 1) {
                Ok(v) => v,
                Err(e) => {
                    return Err(e);
                },
            };
            let ghost want = seq![nested@];
            let mut stmts = no_stmts();
            push_stmt(&mut stmts, nested);
            assert(stmts_view(stmts@) =~= want);
            return Ok(stmts);
        }
        self.parse_block("expected '{' after else", budget)
    }

    fn parse_while(&mut self, budget: u64) -> (r: Result<Stmt, ParseError>)
        ensures
            gives_stmt(r, final(self)@, while_stmt(old(self)@, budget as nat)),
        decreases budget, 5nat,
    {
        let line: u32 = self.last_line();
        let condition = match self.parse_expr(budget) {
            Ok(v) => v,
            Err(e) => {
                return Err(e);
            },
        };
        let body = match self.parse_loop_body("expected '{' after while condition", budget) {
            Ok(v) => v,
            Err(e) => {
                return Err(e);
            },
        };
        Ok(Stmt::While { condition, body, line })
    }

    fn parse_block(&mut self, message: &str, budget: u64) -> (r: Result<Vec<Stmt>, ParseError>)
        ensures
            gives_stmts(r, final(self)@, block(old(self)@, message@, budget as nat)),
        decreases budget, 3nat,
    {
        let ghost goal = block(self@, message@, budget as nat);
        match self.expect(TokenKind::LBrace, message) {
            Ok(v) => v,
            Err(e) => {
                return Err(e);
            },
        };
        let mut stmts = no_stmts();
        let mut left: u64 = budget;
        while !self.check(TokenKind::RBrace)
            invariant
                left <= budget,
                goal == block(old(self)@, message@, budget as nat),
                goal == block_rest(self@, stmts_view(stmts@), left as nat),
            decreases left,
        {
            if self.check(TokenKind::Eof) {
                return Err(self.error("unexpected end of input in block"));
            }
            if left == 0 {
                return Err(self.too_deep());
            }
            let item = match self.parse_stmt(left) {
                Ok(v) => v,
                Err(e) => {
                    return Err(e);
                },
            };
            push_stmt(&mut stmts, item);
            left -= 1;
        }
        self.advance(1);
        Ok(stmts)
    }

    // Programs.

    /// A parser at the start of a source text, or what is wrong with its tokens.
    pub fn new(source: &str, source_id: SourceId, config: ParseConfig<'a>) -> (r: Result<
        Parser<'a>,
        ParseError,
    >)
        ensures
            match lexed_all(*config.dialect, source@, source_id, 0) {
                Ok(ts) => r is Ok && r->Ok_0@ == parse_start(config@, ts),
                Err(e) => r is Err && r->Err_0@ == e,
            },
    {
        let tokens = match lex_tokens(source, source_id, config.dialect) {
            Ok(v) => v,
            Err(e) => {
                return Err(e);
            },
        };
        Ok(
            Parser {
                config,
                tokens,
                pos: 0,
                names: Names::new(),
                hosts: HostNames::new(),
                schemas: Schemas::new(),
                loop_depth: 0,
                function_body_depth: 0,
            },
        )
    }

    /// A parser that knows the locals of a session.
    pub fn new_with_predeclared_locals(
        source: &str,
        source_id: SourceId,
        config: ParseConfig<'a>,
        predeclared_locals: &Vec<ReplLocalBinding>,
    ) -> (r: Result<Parser<'a>, ParseError>)
        ensures
            match lexed_all(*config.dialect, source@, source_id, 0) {
                Ok(ts) => match predeclared(
                    parse_start(config@, ts),
                    repl_bindings(predeclared_locals@),
                    0,
                ) {
                    Ok(s) => r is Ok && r->Ok_0@ == s,
                    Err(e) => r is Err && r->Err_0@ == e,
                },
                Err(e) => r is Err && r->Err_0@ == e,
            },
    {
        let ghost all = repl_bindings(predeclared_locals@);
        let mut parser = match Parser::new(source, source_id, config) {
            Ok(v) => v,
            Err(e) => {
                return Err(e);
            },
        };
        let ghost start = parser@;
        let mut i: usize = 0;
        while i < predeclared_locals.len()
            invariant
                i <= predeclared_locals@.len(),
                all == repl_bindings(predeclared_locals@),
                lexed_all(*config.dialect, source@, source_id, 0) is Ok,
                start == parse_start(
                    config@,
                    lexed_all(*config.dialect, source@, source_id, 0)->Ok_0,
                ),
                predeclared(start, all, 0) == predeclared(parser@, all, i as int),
            decreases predeclared_locals@.len() - i,
        {
            assert(all[i as int] == (
                predeclared_locals@[i as int].name@,
                predeclared_locals@[i as int].mutable,
            ));
            match parser.predeclare_local(&predeclared_locals[i]) {
                Ok(v) => v,
                Err(e) => {
                    return Err(e);
                },
            };
            i += 1;
        }
        Ok(parser)
    }

    fn predeclare_local(&mut self, binding: &ReplLocalBinding) -> (r: Result<(), ParseError>)
        ensures
            if bound_slot(old(self)@.names.locals, binding.name@) is Some {
                r is Err && r->Err_0@ == parse_error(
                    1,
                    "duplicate repl local '"@ + binding.name@ + "'"@,
                )
            } else {
                match allocate(old(self)@) {
                    Err(e) => r is Err && r->Err_0@ == e,
                    Ok((slot, s1)) => r is Ok && final(self)@ == with_names(
                        s1,
                        s1.names.bind_local(binding.name@, slot).with_mutable(
                            slot,
                            binding.mutable,
                        ),
                    ),
                }
            },
    {
        if self.names.locals.get(binding.name.as_str()).is_some() {
            let message = concat3("duplicate repl local '", binding.name.as_str(), "'");
            return Err(ParseError { line: 1, message, span: None, code: None });
        }
        let slot: LocalSlot = match self.allocate_hidden_local() {
            Ok(v) => v,
            Err(e) => {
                return Err(e);
            },
        };
        self.names.locals.bind(binding.name.clone(), slot);
        self.names.set_mutable(slot, binding.mutable);
        Ok(())
    }

    /// The statements of the source text.
    pub fn parse_program(&mut self) -> (r: Result<Vec<Stmt>, ParseError>)
        ensures
            gives_stmts(r, final(self)@, program(old(self)@)),
    {
        let ghost goal = program_rest(self@, Seq::empty(), budget());
        let mut stmts = no_stmts();
        let mut left: u64 = 0xFFFF_FFFF_FFFF_FFFF;
        while !self.check(TokenKind::Eof)
            invariant
                goal == program_rest(old(self)@, Seq::empty(), budget()),
                goal == program_rest(self@, stmts_view(stmts@), left as nat),
            decreases left,
        {
            if left == 0 {
                return Err(self.too_deep());
            }
            let item = match self.parse_stmt(left) {
                Ok(v) => v,
                Err(e) => {
                    return Err(e);
                },
            };
            push_stmt(&mut stmts, item);
            left -= 1;
        }
        match self.schemas.first_missing() {
            Some(k) => {
                assert(self.schemas@.sites[k as int].name == self.schemas.sites@[k as int].name@);
                let message = concat3(
                    "unknown struct schema '",
                    self.schemas.sites[k].name.as_str(),
                    "'",
                );
                Err(
                    ParseError {
                        line: self.schemas.sites[k].line,
                        message,
                        span: Some(self.schemas.sites[k].span),
                        code: None,
                    },
                )
            },
            None => Ok(stmts),
        }
    }

    pub fn local_count(&self) -> (r: usize)
        ensures
            r == self@.names.next_local,
    {
        self.names.next_local as usize
    }

    pub fn function_decls(&self) -> (r: Vec<FunctionDecl>)
        ensures
            decls_view(r@) == self@.names.functions,
    {
        let mut out: Vec<FunctionDecl> = Vec::new();
        let mut i: usize = 0;
        while i < self.names.function_list.len()
            invariant
                i <= self.names.function_list@.len(),
                out@.len() == i,
                forall|k: int| 0 <= k < i ==> (#[trigger] out@[k])@ == self.names.function_list@[k]@,
            decreases self.names.function_list@.len() - i,
        {
            out.push(self.names.function_list[i].clone());
            i += 1;
        }
        assert(decls_view(out@) =~= self@.names.functions);
        out
    }

    /// The bodies of the declared functions, with the parser used up.
    pub fn into_function_impls(self) -> (r: HashMap<u16, FunctionImpl>)
        ensures
            impls_view(r@) == self@.names.impls,
    {
        self.names.function_impls
    }

    /// The names of the program's own locals, by slot.
    pub fn local_bindings(&self) -> (r: Vec<(String, LocalSlot)>)
        ensures
            bindings_view(r@) == by_slot(
                self@.names.locals,
                0,
                self@.names.next_local as int,
            ),
    {
        self.names.locals.sorted(self.names.next_local)
    }

    /// The names of the program's own locals, by slot, and whether they may change.
    pub fn local_bindings_with_mutability(&self) -> (r: Vec<ReplLocalBinding>)
        ensures
            repl_bindings(r@) == self@.names.with_mutability(),
    {
        let pairs = self.local_bindings();
        let ghost all = bindings_view(pairs@);
        let mut out: Vec<ReplLocalBinding> = Vec::new();
        let mut i: usize = 0;
        while i < pairs.len()
            invariant
                i <= pairs@.len(),
                all == bindings_view(pairs@),
                out@.len() == i,
                forall|k: int|
                    0 <= k < i ==> (#[trigger] out@[k]).name@ == all[k].0 && out@[k].mutable
                        == self@.names.is_mutable(all[k].1),
            decreases pairs@.len() - i,
        {
            assert(all[i as int] == (pairs@[i as int].0@, pairs@[i as int].1));
            out.push(
                ReplLocalBinding {
                    name: pairs[i].0.clone(),
                    mutable: self.names.is_mutable(pairs[i].1),
                },
            );
            i += 1;
        }
        assert(repl_bindings(out@) =~= Seq::new(
            all.len(),
            |i: int| (all[i].0, self@.names.is_mutable(all[i].1)),
        ));
        out
    }

    pub fn struct_schemas(&self) -> (r: &Vec<(String, TypeSchema)>)
        ensures
            fields_view(r@) == self@.schemas.structs,
    {
        &self.schemas.structs
    }

    pub fn unknown_type_spans(&self) -> (r: &Vec<Span>)
        ensures
            r@ == self@.schemas.unknown,
    {
        &self.schemas.unknown_type_spans
    }

    /// The slots that were declared with a structure, in order.
    pub fn declared_structs(&self) -> (r: &Vec<(LocalSlot, String)>)
        ensures
            declared_view(r@) == self@.schemas.declared,
    {
        &self.schemas.declared
    }
}

/// The models of the locals of a session.
pub open spec fn repl_bindings(s: Seq<ReplLocalBinding>) -> Seq<(Seq<char>, bool)> {
    Seq::new(s.len(), |i: int| (s[i].name@, s[i].mutable))
}

/// Slots for parameters leave the rest of the state alone.
proof fn lemma_param_slots_frame(
    s: ParV,
    params: Seq<Seq<char>>,
    i: int,
    scope: BindingsV,
    slots: Seq<LocalSlot>,
    what: Seq<char>,
)
    ensures
        param_slots(s, params, i, scope, slots, what) matches Ok((v, s1)) ==> s1.body_depth
            == s.body_depth,
    decreases params.len() - i,
{
    if 0 <= i < params.len() && !(bound_slot(scope, params[i]) is Some) {
        match allocate(s) {
            Err(e) => {},
            Ok((slot, s1)) => {
                lemma_param_slots_frame(
                    s1,
                    params,
                    i + 1,
                    scope.push((params[i], slot)),
                    slots.push(slot),
                    what,
                );
            },
        }
    }
}

} // verus!
