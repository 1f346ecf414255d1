//! The grammar: what a list of tokens means.

use vstd::prelude::*;
use crate::builtins::{builtin_arity, builtin_index, builtin_name, BuiltinFunction};
use crate::check::joined;
use crate::errors::{parse_error, ParseErrorV};
use crate::host::{host_accepts_arity, host_return_type, HostFunctions};
use crate::ir::{
    BinOp, ClosureV, ExprV, FunctionDeclV, FunctionImplV, LocalSlot, MatchTypePattern, PatternV,
    StmtV, UnOp, ValueType,
};
use crate::lexer::{Dialect, TokenKind, TokenV};
use crate::names::{
    arg_names, bound_slot, by_slot, decl_named, goes_on, name_of, scoped_slot, BindingsV, NamesV,
};
use crate::namespaces::{BuiltinNamespaces, HostNamesV};
use crate::scan::{bracket_followed_by, if_is_expression, is_kind};
use crate::schema::{has_field, with_field, SchemaV, SchemasV};
use crate::source_map::Span;
use crate::template::template_fault;
use crate::text::{decimal, valid_ident};

verus! {

/// What a parser is told before it starts.
pub struct ParseConfigV {
    pub dialect: Dialect,
    pub host: HostFunctions,
    pub builtins: BuiltinNamespaces,
    pub allow_implicit_externs: bool,
    pub allow_implicit_semicolons: bool,
    pub enforce_mutable_bindings: bool,
}

/// The state of a parser.
pub struct ParV {
    pub config: ParseConfigV,
    pub ts: Seq<TokenV>,
    pub pos: int,
    pub names: NamesV,
    pub hosts: HostNamesV,
    pub schemas: SchemasV,
    pub loop_depth: usize,
    pub body_depth: usize,
}

/// What a part of the grammar makes of the tokens at hand.
pub type Parsed<T> = Result<(T, ParV), ParseErrorV>;

// ---------------------------------------------------------------------------
// Tokens.

pub open spec fn at(s: ParV, kind: TokenKind) -> bool {
    is_kind(s.ts, s.pos, kind)
}

pub open spec fn ahead(s: ParV, n: int, kind: TokenKind) -> bool {
    is_kind(s.ts, s.pos + n, kind)
}

pub open spec fn skip(s: ParV, n: int) -> ParV {
    ParV { pos: s.pos + n, ..s }
}

/// The text of the token at hand.
pub open spec fn text(s: ParV) -> Seq<char> {
    s.ts[s.pos].text
}

pub open spec fn word_ahead(s: ParV, n: int, word: Seq<char>) -> bool {
    ahead(s, n, TokenKind::Ident) && s.ts[s.pos + n].text == word
}

pub open spec fn line_of(s: ParV) -> usize {
    if 0 <= s.pos < s.ts.len() {
        s.ts[s.pos].line
    } else {
        1
    }
}

/// A line in the width that statements hold.
pub open spec fn line_u32(s: ParV) -> u32 {
    if line_of(s) <= u32::MAX {
        line_of(s) as u32
    } else {
        u32::MAX
    }
}

/// The line of the token before the one at hand.
pub open spec fn previous_line(s: ParV) -> usize {
    let p = if s.pos > 0 {
        s.pos - 1
    } else {
        0
    };
    if p < s.ts.len() {
        s.ts[p].line
    } else {
        1
    }
}

/// The low 32 bits of that line.
pub open spec fn last_line(s: ParV) -> u32 {
    (previous_line(s) as int % 0x1_0000_0000) as u32
}

pub open spec fn span_of(s: ParV) -> Span {
    if 0 <= s.pos < s.ts.len() {
        s.ts[s.pos].span
    } else if s.ts.len() > 0 {
        Span {
            source_id: s.ts.last().span.source_id,
            lo: s.ts.last().span.hi,
            hi: s.ts.last().span.hi,
        }
    } else {
        Span { source_id: 0, lo: 0, hi: 0 }
    }
}

pub open spec fn fault(s: ParV, message: Seq<char>) -> ParseErrorV {
    parse_error(line_of(s), message)
}

pub open spec fn fault_here(s: ParV, message: Seq<char>) -> ParseErrorV {
    ParseErrorV { line: line_of(s), message, span: Some(span_of(s)), code: None }
}

/// The end of the number of steps that a parser takes.
pub open spec fn too_deep(s: ParV) -> ParseErrorV {
    fault(s, "input is nested too deeply"@)
}

#[verifier::opaque]
pub open spec fn expect(s: ParV, kind: TokenKind, message: Seq<char>) -> Result<
    ParV,
    ParseErrorV,
> {
    if at(s, kind) {
        Ok(skip(s, 1))
    } else {
        Err(fault_here(s, message))
    }
}

/// A token of a kind, by its text.
pub open spec fn expect_text(s: ParV, kind: TokenKind, message: Seq<char>) -> Parsed<Seq<char>> {
    if at(s, kind) {
        Ok((text(s), skip(s, 1)))
    } else {
        Err(fault_here(s, message))
    }
}

pub open spec fn expect_ident(s: ParV, message: Seq<char>) -> Parsed<Seq<char>> {
    expect_text(s, TokenKind::Ident, message)
}

pub open spec fn expect_segment(s: ParV, message: Seq<char>) -> Parsed<Seq<char>> {
    if at(s, TokenKind::Match) {
        Ok(("match"@, skip(s, 1)))
    } else {
        expect_ident(s, message)
    }
}

pub open spec fn at_path_separator(s: ParV) -> bool {
    at(s, TokenKind::Colon) && ahead(s, 1, TokenKind::Colon)
}

pub open spec fn at_assignment(s: ParV) -> bool {
    at(s, TokenKind::Ident) && ahead(s, 1, TokenKind::Equal)
}

#[verifier::opaque]
pub open spec fn at_index_assignment(s: ParV) -> bool {
    at(s, TokenKind::Ident) && ((ahead(s, 1, TokenKind::Dot) && ahead(s, 2, TokenKind::Ident)
        && ahead(s, 3, TokenKind::Equal)) || (ahead(s, 1, TokenKind::LBracket)
        && bracket_followed_by(s.ts, s.pos + 1, 0, TokenKind::Equal, TokenKind::Equal)))
}

/// The end of a statement: a `;`, or a line break where the language allows that.
#[verifier::opaque]
pub open spec fn terminator(s: ParV, message: Seq<char>) -> Result<ParV, ParseErrorV> {
    if at(s, TokenKind::Semicolon) {
        Ok(skip(s, 1))
    } else if s.config.allow_implicit_semicolons && (at(s, TokenKind::RBrace) || at(
        s,
        TokenKind::Eof,
    ) || line_of(s) > previous_line(s)) {
        Ok(s)
    } else {
        Err(fault(s, message))
    }
}

/// Whether a statement starts here that is no expression.
#[verifier::opaque]
pub open spec fn starts_statement(s: ParV) -> bool {
    at(s, TokenKind::Pub) || at(s, TokenKind::Use) || (s.config.dialect.allow_import_stmt && at(
        s,
        TokenKind::Import,
    )) || at(s, TokenKind::Fn) || at(s, TokenKind::Let) || at(s, TokenKind::For) || at(
        s,
        TokenKind::While,
    ) || at(s, TokenKind::Break) || at(s, TokenKind::Continue) || (
    s.config.dialect.allow_return_stmt && word_ahead(s, 0, "return"@)) || at_assignment(s)
        || at_index_assignment(s) || (at(s, TokenKind::If) && !if_is_expression(s.ts, s.pos))
}

/// An integer that only fits with a minus sign.
#[verifier::opaque]
pub open spec fn out_of_range(s: ParV) -> ParseErrorV {
    fault_here(
        s,
        "integer literal '"@ + text(s) + "' is out of range for i64; write '-"@ + text(s)
            + "' for i64::MIN"@,
    )
}

/// Names with commas between them, the rest of them from here.
pub open spec fn ident_list(s: ParV, names: Seq<Seq<char>>, message: Seq<char>) -> Parsed<
    Seq<Seq<char>>,
>
    decreases s.ts.len() - s.pos,
{
    match expect_ident(s, message) {
        Err(e) => Err(e),
        Ok((name, s1)) => if at(s1, TokenKind::Comma) {
            ident_list(skip(s1, 1), names.push(name), message)
        } else {
            Ok((names.push(name), s1))
        },
    }
}

// ---------------------------------------------------------------------------
// Names.

pub open spec fn with_names(s: ParV, names: NamesV) -> ParV {
    ParV { names, ..s }
}

pub open spec fn allocate(s: ParV) -> Parsed<LocalSlot> {
    if s.names.full() {
        Err(fault(s, "local index overflow"@))
    } else {
        Ok((s.names.next_local, with_names(s, s.names.allocated())))
    }
}

#[verifier::opaque]
pub open spec fn capture_or_direct(s: ParV, name: Seq<char>, source: LocalSlot) -> Parsed<
    LocalSlot,
> {
    if s.names.captures.len() == 0 {
        Ok((source, s))
    } else {
        match bound_slot(s.names.captures.last().by_name, name) {
            Some(slot) => Ok((slot, s)),
            None => match allocate(s) {
                Err(e) => Err(e),
                Ok((slot, s1)) => Ok(
                    (
                        slot,
                        with_names(
                            s1,
                            s1.names.with_mutable(slot, s1.names.is_mutable(source)).capture(
                                name,
                                source,
                                slot,
                            ),
                        ),
                    ),
                ),
            },
        }
    }
}

#[verifier::opaque]
pub open spec fn get_local(s: ParV, name: Seq<char>) -> Parsed<LocalSlot> {
    let n = s.names.scopes.len() as int;
    if n > 0 && bound_slot(s.names.scopes.last(), name) is Some {
        Ok((bound_slot(s.names.scopes.last(), name)->0, s))
    } else if n > 0 && scoped_slot(s.names.scopes, name, n - 1) is Some {
        capture_or_direct(s, name, scoped_slot(s.names.scopes, name, n - 1)->0)
    } else {
        match bound_slot(s.names.locals, name) {
            Some(source) => capture_or_direct(s, name, source),
            None => Err(fault(s, "unknown local '"@ + name + "'"@)),
        }
    }
}

pub open spec fn wrong_arity(s: ParV, name: Seq<char>, arity: u8) -> ParseErrorV {
    fault(s, "function '"@ + name + "' expects "@ + decimal(arity as nat) + " arguments"@)
}

pub open spec fn arity_too_large(s: ParV) -> ParseErrorV {
    fault(s, "function arity too large"@)
}

/// A function that was not declared before.
#[verifier::opaque]
pub open spec fn new_function(
    s: ParV,
    name: Seq<char>,
    arity: u8,
    exported: bool,
    return_type: ValueType,
) -> Parsed<FunctionDeclV> {
    if bound_slot(s.names.locals, name) is Some {
        Err(fault(s, "name '"@ + name + "' already used by a local binding"@))
    } else if s.names.next_function == 0xFFFF {
        Err(fault(s, "function index overflow"@))
    } else {
        let decl = FunctionDeclV {
            name,
            arity,
            index: s.names.next_function,
            args: arg_names(arity as nat),
            exported,
            return_type,
        };
        Ok((decl, with_names(s, s.names.with_decl(decl))))
    }
}

#[verifier::opaque]
pub open spec fn define_builtin(s: ParV, name: Seq<char>, arity: u8) -> Parsed<FunctionDeclV> {
    match s.names.decl(name) {
        Some(decl) => Ok((decl, s)),
        None => new_function(s, name, arity, true, ValueType::Unknown),
    }
}

#[verifier::opaque]
pub open spec fn define_external(s: ParV, name: Seq<char>, arity: u8) -> Parsed<FunctionDeclV> {
    match s.names.decl(name) {
        Some(decl) => if decl.arity != arity {
            Err(wrong_arity(s, name, decl.arity))
        } else {
            Ok((decl, s))
        },
        None => new_function(s, name, arity, true, ValueType::Unknown),
    }
}

#[verifier::opaque]
pub open spec fn define_host(s: ParV, name: Seq<char>, arity: u8) -> Parsed<FunctionDeclV> {
    match s.names.decl(name) {
        Some(decl) => if decl.arity != arity && !host_accepts_arity(s.config.host, name, arity) {
            Err(wrong_arity(s, name, decl.arity))
        } else {
            Ok((decl, s))
        },
        None => new_function(s, name, arity, false, host_return_type(s.config.host, name)),
    }
}

#[verifier::opaque]
pub open spec fn resolve_function(s: ParV, name: Seq<char>, args: nat) -> Parsed<FunctionDeclV> {
    match s.names.decl(name) {
        Some(decl) => if decl.arity != args {
            Err(wrong_arity(s, name, decl.arity))
        } else {
            Ok((decl, s))
        },
        None => if name == "print"@ {
            if args > 255 {
                Err(arity_too_large(s))
            } else if args != 1 {
                Err(wrong_arity(s, name, 1))
            } else {
                define_builtin(s, name, 1)
            }
        } else if s.config.allow_implicit_externs {
            if args > 255 {
                Err(arity_too_large(s))
            } else {
                define_external(s, name, args as u8)
            }
        } else {
            Err(fault(s, "unknown function '"@ + name + "'"@))
        },
    }
}

/// What a slot is called in messages.
#[verifier::opaque]
pub open spec fn display_name(s: ParV, slot: LocalSlot, hint: Option<Seq<char>>) -> Seq<char> {
    match hint {
        Some(name) => name,
        None => match s.names.slot_name(slot) {
            Some(name) => name,
            None => "#"@ + decimal(slot as nat),
        },
    }
}

/// What is wrong with changing a slot.
#[verifier::opaque]
pub open spec fn immutable(
    s: ParV,
    slot: LocalSlot,
    hint: Option<Seq<char>>,
    line: u32,
    action: Seq<char>,
) -> Option<ParseErrorV> {
    if !s.config.enforce_mutable_bindings || s.names.is_mutable(slot) {
        None
    } else {
        let display = display_name(s, slot, hint);
        Some(
            ParseErrorV {
                line: line as usize,
                message: "cannot "@ + action + " immutable local '"@ + display
                    + "'; declare it as 'let mut "@ + display + " = ...'"@,
                span: None,
                code: Some("E_IMMUTABLE_LOCAL"@),
            },
        )
    }
}

/// The state once a `let` has said whether its slot may change.
#[verifier::opaque]
pub open spec fn let_mutability(s: ParV, slot: LocalSlot, declared: bool, created: bool) -> ParV {
    if s.config.enforce_mutable_bindings && (created || declared) {
        with_names(s, s.names.with_mutable(slot, declared))
    } else {
        s
    }
}

/// The slot of a `let`.
#[verifier::opaque]
pub open spec fn let_slot(s: ParV, name: Seq<char>, declared: bool) -> Parsed<LocalSlot> {
    let inner = s.names.scopes.len() > 0;
    let known = if inner {
        bound_slot(s.names.scopes.last(), name)
    } else {
        bound_slot(s.names.locals, name)
    };
    match known {
        Some(slot) => Ok((slot, let_mutability(s, slot, declared, false))),
        None => match allocate(s) {
            Err(e) => Err(e),
            Ok((slot, s1)) => Ok(
                (
                    slot,
                    let_mutability(
                        with_names(
                            s1,
                            if inner {
                                s1.names.bind_inner(name, slot)
                            } else {
                                s1.names.bind_local(name, slot)
                            },
                        ),
                        slot,
                        declared,
                        true,
                    ),
                ),
            ),
        },
    }
}

/// Parameters with a slot each, from position `i` on.
pub open spec fn param_slots(
    s: ParV,
    params: Seq<Seq<char>>,
    i: int,
    scope: BindingsV,
    slots: Seq<LocalSlot>,
    what: Seq<char>,
) -> Parsed<(BindingsV, Seq<LocalSlot>)>
    decreases params.len() - i,
{
    if i < 0 || i >= params.len() {
        Ok(((scope, slots), s))
    } else if bound_slot(scope, params[i]) is Some {
        Err(fault(s, "duplicate "@ + what + " parameter '"@ + params[i] + "'"@))
    } else {
        match allocate(s) {
            Err(e) => Err(e),
            Ok((slot, s1)) => param_slots(
                s1,
                params,
                i + 1,
                scope.push((params[i], slot)),
                slots.push(slot),
                what,
            ),
        }
    }
}

// ---------------------------------------------------------------------------
// Expressions that calls and accesses stand for.

pub open spec fn call0(b: BuiltinFunction) -> ExprV {
    ExprV::Call(builtin_index(b), Seq::empty())
}

pub open spec fn call1(b: BuiltinFunction, x: ExprV) -> ExprV {
    ExprV::Call(builtin_index(b), seq![x])
}

pub open spec fn call2(b: BuiltinFunction, x: ExprV, y: ExprV) -> ExprV {
    ExprV::Call(builtin_index(b), seq![x, y])
}

pub open spec fn call3(b: BuiltinFunction, x: ExprV, y: ExprV, z: ExprV) -> ExprV {
    ExprV::Call(builtin_index(b), seq![x, y, z])
}

pub open spec fn binary(op: BinOp, x: ExprV, y: ExprV) -> ExprV {
    ExprV::Binary(op, Box::new(x), Box::new(y))
}

pub open spec fn unary(op: UnOp, x: ExprV) -> ExprV {
    ExprV::Unary(op, Box::new(x))
}

pub open spec fn if_else(c: ExprV, t: ExprV, e: ExprV) -> ExprV {
    ExprV::IfElse(Box::new(c), Box::new(t), Box::new(e))
}

/// A value bound to a slot for the length of an expression.
#[verifier::opaque]
pub open spec fn bind_hidden(s: ParV, slot: LocalSlot, value: ExprV, body: ExprV) -> Parsed<ExprV> {
    match allocate(s) {
        Err(e) => Err(e),
        Ok((result_slot, s1)) => Ok(
            (
                ExprV::Match {
                    value_slot: slot,
                    result_slot,
                    value: Box::new(value),
                    arms: Seq::empty(),
                    default: Box::new(body),
                },
                s1,
            ),
        ),
    }
}

/// A pattern with flags written into it.
#[verifier::opaque]
pub open spec fn flagged_pattern(pattern: ExprV, flags: ExprV) -> ExprV {
    call2(
        BuiltinFunction::Concat,
        call2(
            BuiltinFunction::Concat,
            call2(BuiltinFunction::Concat, ExprV::Str("(?"@), flags),
            ExprV::Str(")"@),
        ),
        pattern,
    )
}

pub open spec fn takes_flags(b: BuiltinFunction) -> bool {
    b == BuiltinFunction::ReMatch || b == BuiltinFunction::ReFind || b
        == BuiltinFunction::ReReplace || b == BuiltinFunction::ReSplit || b
        == BuiltinFunction::ReCaptures
}

/// A call of a built-in function. A pattern function takes its flags as one argument
/// more, behind the others.
#[verifier::opaque]
pub open spec fn builtin_call(s: ParV, b: BuiltinFunction, args: Seq<ExprV>) -> Result<
    ExprV,
    ParseErrorV,
> {
    if args.len() > 255 {
        Err(arity_too_large(s))
    } else if args.len() == builtin_arity(b) {
        Ok(ExprV::Call(builtin_index(b), args))
    } else if args.len() == builtin_arity(b) + 1 && takes_flags(b) {
        Ok(
            ExprV::Call(
                builtin_index(b),
                args.drop_last().update(0, flagged_pattern(args[0], args.last())),
            ),
        )
    } else {
        Err(wrong_arity(s, builtin_name(b), builtin_arity(b)))
    }
}

/// `<=` and `>=`: both sides are evaluated once, in order.
#[verifier::opaque]
pub open spec fn non_strict(s: ParV, op: BinOp, lhs: ExprV, rhs: ExprV) -> Parsed<ExprV> {
    match allocate(s) {
        Err(e) => Err(e),
        Ok((l, s1)) => match allocate(s1) {
            Err(e) => Err(e),
            Ok((r, s2)) => Ok(
                (
                    ExprV::Block(
                        seq![
                            StmtV::Let { index: l, expr: lhs, line: last_line(s2) },
                            StmtV::Let { index: r, expr: rhs, line: last_line(s2) },
                        ],
                        Box::new(
                            binary(
                                BinOp::Or,
                                binary(op, ExprV::Var(l), ExprV::Var(r)),
                                binary(BinOp::Eq, ExprV::Var(l), ExprV::Var(r)),
                            ),
                        ),
                    ),
                    s2,
                ),
            ),
        },
    }
}

/// The part of a container from one position to another: a negative end counts from
/// the back.
#[verifier::opaque]
pub open spec fn slice_of(container: LocalSlot, start: LocalSlot, end: ExprV) -> ExprV {
    call3(
        BuiltinFunction::Slice,
        ExprV::Var(container),
        ExprV::Var(start),
        binary(BinOp::Sub, end, ExprV::Var(start)),
    )
}

#[verifier::opaque]
pub open spec fn slice_body(
    s: ParV,
    container: LocalSlot,
    start_slot: LocalSlot,
    start: ExprV,
    end: Option<ExprV>,
) -> Parsed<ExprV> {
    let len = call1(BuiltinFunction::Len, ExprV::Var(container));
    match end {
        None => bind_hidden(s, start_slot, start, slice_of(container, start_slot, len)),
        Some(end_expr) => match allocate(s) {
            Err(e) => Err(e),
            Ok((end_slot, s1)) => {
                let end_var = ExprV::Var(end_slot);
                let adjusted = if_else(
                    binary(BinOp::Lt, end_var, ExprV::Int(0)),
                    binary(BinOp::Add, len, end_var),
                    end_var,
                );
                match bind_hidden(
                    s1,
                    end_slot,
                    end_expr,
                    slice_of(container, start_slot, adjusted),
                ) {
                    Err(e) => Err(e),
                    Ok((inner, s2)) => bind_hidden(s2, start_slot, start, inner),
                }
            },
        },
    }
}

#[verifier::opaque]
pub open spec fn slice_access(
    s: ParV,
    container: ExprV,
    start: Option<ExprV>,
    end: Option<ExprV>,
) -> Parsed<ExprV> {
    let start_expr = match start {
        Some(e) => e,
        None => ExprV::Int(0),
    };
    match container {
        ExprV::Var(slot) => match allocate(s) {
            Err(e) => Err(e),
            Ok((start_slot, s1)) => slice_body(s1, slot, start_slot, start_expr, end),
        },
        _ => match allocate(s) {
            Err(e) => Err(e),
            Ok((slot, s1)) => match allocate(s1) {
                Err(e) => Err(e),
                Ok((start_slot, s2)) => match slice_body(s2, slot, start_slot, start_expr, end) {
                    Err(e) => Err(e),
                    Ok((body, s3)) => bind_hidden(s3, slot, container, body),
                },
            },
        },
    }
}

#[verifier::opaque]
pub open spec fn type_check(value: ExprV, expected: Seq<char>) -> ExprV {
    binary(BinOp::Eq, call1(BuiltinFunction::TypeOf, value), ExprV::Str(expected))
}

#[verifier::opaque]
pub open spec fn optional_map_lookup(container: LocalSlot, key: LocalSlot) -> ExprV {
    let c = ExprV::Var(container);
    let k = ExprV::Var(key);
    if_else(
        binary(
            BinOp::Eq,
            call1(BuiltinFunction::Len, call3(BuiltinFunction::SetAt, c, k, ExprV::Null)),
            call1(BuiltinFunction::Len, c),
        ),
        call2(BuiltinFunction::Get, c, k),
        ExprV::Null,
    )
}

#[verifier::opaque]
pub open spec fn optional_index_lookup(container: LocalSlot, key: LocalSlot) -> ExprV {
    let c = ExprV::Var(container);
    let k = ExprV::Var(key);
    if_else(
        type_check(k, "int"@),
        if_else(
            binary(BinOp::Lt, k, ExprV::Int(0)),
            ExprV::Null,
            if_else(
                binary(BinOp::Lt, k, call1(BuiltinFunction::Len, c)),
                call2(BuiltinFunction::Get, c, k),
                ExprV::Null,
            ),
        ),
        ExprV::Null,
    )
}

/// What an access with `?.` looks up once container and key stand in slots.
#[verifier::opaque]
pub open spec fn optional_lookup(container: LocalSlot, key: LocalSlot) -> ExprV {
    let c = ExprV::Var(container);
    if_else(
        type_check(c, "null"@),
        ExprV::Null,
        if_else(
            type_check(c, "map"@),
            optional_map_lookup(container, key),
            if_else(
                type_check(c, "array"@),
                optional_index_lookup(container, key),
                if_else(
                    type_check(c, "string"@),
                    optional_index_lookup(container, key),
                    ExprV::Null,
                ),
            ),
        ),
    )
}

#[verifier::opaque]
pub open spec fn optional_get(s: ParV, container: ExprV, key: ExprV) -> Parsed<ExprV> {
    match allocate(s) {
        Err(e) => Err(e),
        Ok((c, s1)) => match allocate(s1) {
            Err(e) => Err(e),
            Ok((k, s2)) => match bind_hidden(s2, k, key, optional_lookup(c, k)) {
                Err(e) => Err(e),
                Ok((inner, s3)) => bind_hidden(s3, c, container, inner),
            },
        },
    }
}

/// An array of values, from position `i` on.
pub open spec fn array_from(values: Seq<ExprV>, i: int, out: ExprV) -> ExprV
    decreases values.len() - i,
{
    if i < 0 || i >= values.len() {
        out
    } else {
        array_from(values, i + 1, call2(BuiltinFunction::ArrayPush, out, values[i]))
    }
}

pub open spec fn array_of(values: Seq<ExprV>) -> ExprV {
    array_from(values, 0, call0(BuiltinFunction::ArrayNew))
}

/// An entry between braces: with a key, or without.
pub struct EntryV {
    pub key: Option<ExprV>,
    pub value: ExprV,
}

/// A map of entries, from position `i` on. Entries without a key are counted.
pub open spec fn map_from(entries: Seq<EntryV>, i: int, out: ExprV, next: i64) -> ExprV
    decreases entries.len() - i,
{
    if i < 0 || i >= entries.len() {
        out
    } else {
        match entries[i].key {
            Some(key) => map_from(
                entries,
                i + 1,
                call3(BuiltinFunction::SetAt, out, key, entries[i].value),
                next,
            ),
            None => map_from(
                entries,
                i + 1,
                call3(BuiltinFunction::SetAt, out, ExprV::Int(next), entries[i].value),
                if next < i64::MAX {
                    (next + 1) as i64
                } else {
                    next
                },
            ),
        }
    }
}

pub open spec fn entry_values(entries: Seq<EntryV>) -> Seq<ExprV> {
    Seq::new(entries.len(), |i: int| entries[i].value)
}

pub open spec fn has_keys(entries: Seq<EntryV>) -> bool {
    exists|i: int| 0 <= i < entries.len() && (#[trigger] entries[i]).key is Some
}

/// What entries between braces stand for: a map where one has a key, else an array.
#[verifier::opaque]
pub open spec fn brace_value(entries: Seq<EntryV>) -> ExprV {
    if has_keys(entries) {
        map_from(entries, 0, call0(BuiltinFunction::MapNew), 0)
    } else {
        array_of(entry_values(entries))
    }
}

/// What a mutable borrow may borrow from: a local, or a part of one.
pub open spec fn borrow_root(e: ExprV) -> Option<LocalSlot> {
    match e {
        ExprV::Var(slot) => Some(slot),
        ExprV::Call(index, args) => if index == builtin_index(BuiltinFunction::Get) && args.len()
            == 2 {
            match args[0] {
                ExprV::Var(slot) => Some(slot),
                _ => None,
            }
        } else {
            None
        },
        _ => None,
    }
}

#[verifier::opaque]
pub open spec fn mutable_borrow(s: ParV, e: ExprV) -> Result<ExprV, ParseErrorV> {
    match borrow_root(e) {
        None => Err(
            fault(s, "mutable borrow target must be a local, local field, or local index"@),
        ),
        Some(slot) => match immutable(s, slot, None, line_u32(s), "take a mutable borrow of"@) {
            Some(error) => Err(error),
            None => Ok(unary(UnOp::BorrowMut, e)),
        },
    }
}

// ---------------------------------------------------------------------------
// Printing.

#[verifier::opaque]
pub open spec fn print_call(s: ParV, argument: ExprV) -> Parsed<ExprV> {
    match resolve_function(s, "print"@, 1) {
        Err(e) => Err(e),
        Ok((decl, s1)) => Ok((ExprV::Call(decl.index, seq![argument]), s1)),
    }
}

pub open spec fn with_newline(e: ExprV) -> ExprV {
    binary(BinOp::Add, e, ExprV::Str("\n"@))
}

pub open spec fn to_text(e: ExprV) -> ExprV {
    call1(BuiltinFunction::ToString, e)
}

/// The arguments of a plain print with spaces between them, from position `i` on.
pub open spec fn spaced(args: Seq<ExprV>, i: int, out: ExprV) -> ExprV
    decreases args.len() - i,
{
    if i < 0 || i >= args.len() {
        out
    } else {
        spaced(
            args,
            i + 1,
            binary(BinOp::Add, binary(BinOp::Add, out, ExprV::Str(" "@)), to_text(args[i])),
        )
    }
}

#[verifier::opaque]
pub open spec fn plain_text(args: Seq<ExprV>) -> ExprV {
    if args.len() == 0 {
        ExprV::Str(""@)
    } else if args.len() == 1 {
        args[0]
    } else {
        spaced(args, 1, to_text(args[0]))
    }
}

/// A template with its arguments, given what is wrong with it.
#[verifier::opaque]
pub open spec fn template_call(
    s: ParV,
    callee: Seq<char>,
    template: Seq<char>,
    values: Seq<ExprV>,
    wrong: Option<usize>,
) -> Result<ExprV, ParseErrorV> {
    match wrong {
        Some(offset) => Err(
            fault(
                s,
                callee + " format string is invalid near byte "@ + decimal(offset as nat),
            ),
        ),
        None => Ok(
            call2(BuiltinFunction::FormatTemplate, ExprV::Str(template), array_of(values)),
        ),
    }
}

/// A template, the first of several arguments, with the others.
#[verifier::opaque]
pub open spec fn formatted_text(s: ParV, callee: Seq<char>, args: Seq<ExprV>) -> Result<
    ExprV,
    ParseErrorV,
> {
    match args[0] {
        ExprV::Str(template) => template_call(
            s,
            callee,
            template,
            args.skip(1),
            template_fault(template, (args.len() - 1) as nat),
        ),
        _ => Err(
            fault(
                s,
                callee + " formatting requires a string literal as the first argument"@,
            ),
        ),
    }
}

/// What `print` or `println` writes.
#[verifier::opaque]
pub open spec fn printed(s: ParV, newline: bool, args: Seq<ExprV>) -> Result<ExprV, ParseErrorV> {
    if s.config.dialect.allow_macro_calls {
        if args.len() == 0 {
            if newline {
                Ok(ExprV::Str("\n"@))
            } else {
                Err(fault(s, "print expects at least one argument"@))
            }
        } else if args.len() == 1 {
            Ok(
                if newline {
                    with_newline(to_text(args[0]))
                } else {
                    args[0]
                },
            )
        } else if newline {
            match formatted_text(s, "println"@, args) {
                Err(e) => Err(e),
                Ok(e) => Ok(with_newline(e)),
            }
        } else {
            formatted_text(s, "print"@, args)
        }
    } else if newline {
        Ok(
            if args.len() == 0 {
                ExprV::Str("\n"@)
            } else {
                with_newline(to_text(plain_text(args)))
            },
        )
    } else {
        Ok(plain_text(args))
    }
}

#[verifier::opaque]
pub open spec fn print_stmt(s: ParV, newline: bool, args: Seq<ExprV>) -> Parsed<ExprV> {
    match printed(s, newline, args) {
        Err(e) => Err(e),
        Ok(rendered) => print_call(s, rendered),
    }
}

/// A call that the language itself gives a meaning.
#[verifier::opaque]
pub open spec fn language_call(s: ParV, name: Seq<char>, args: Seq<ExprV>) -> Parsed<
    Option<ExprV>,
> {
    if name == "print"@ || name == "println"@ {
        match print_stmt(s, name == "println"@, args) {
            Err(e) => Err(e),
            Ok((e, s1)) => Ok((Some(e), s1)),
        }
    } else if name == "type"@ {
        if args.len() != 1 {
            Err(fault(s, "type expects exactly one argument"@))
        } else {
            Ok((Some(call1(BuiltinFunction::TypeOf, args[0])), s))
        }
    } else if name == "assert"@ {
        match builtin_call(s, BuiltinFunction::Assert, args) {
            Err(e) => Err(e),
            Ok(e) => Ok((Some(e), s)),
        }
    } else {
        Ok((None, s))
    }
}

#[verifier::opaque]
pub open spec fn host_call(s: ParV, name: Seq<char>, args: Seq<ExprV>) -> Parsed<ExprV> {
    if args.len() > 255 {
        Err(arity_too_large(s))
    } else {
        match define_host(s, name, args.len() as u8) {
            Err(e) => Err(e),
            Ok((decl, s1)) => Ok((ExprV::Call(decl.index, args), s1)),
        }
    }
}

#[verifier::opaque]
pub open spec fn declared_call(s: ParV, name: Seq<char>, args: Seq<ExprV>) -> Parsed<ExprV> {
    match resolve_function(s, name, args.len()) {
        Err(e) => Err(e),
        Ok((decl, s1)) => Ok((ExprV::Call(decl.index, args), s1)),
    }
}

/// A call of a bare name: of a local, of a declared function, of one that the language
/// knows, or of one of the host.
#[verifier::opaque]
pub open spec fn named_call(s: ParV, name: Seq<char>, args: Seq<ExprV>) -> Parsed<ExprV> {
    if s.names.has_binding(name) {
        match get_local(s, name) {
            Err(e) => Err(e),
            Ok((slot, s1)) => Ok((ExprV::LocalCall(slot, args), s1)),
        }
    } else if s.names.decl(name) is Some {
        if (name == "print"@ || name == "println"@) && !s.names.impls.dom().contains(
            s.names.decl(name)->0.index,
        ) {
            print_stmt(s, name == "println"@, args)
        } else {
            declared_call(s, name, args)
        }
    } else {
        match language_call(s, name, args) {
            Err(e) => Err(e),
            Ok((Some(e), s1)) => Ok((e, s1)),
            Ok((None, s1)) => match s1.hosts.direct_target(name) {
                Some(target) => host_call(s1, target, args),
                None => declared_call(s1, name, args),
            },
        }
    }
}

pub open spec fn unknown_builtin(s: ParV, root: Seq<char>, member: Seq<char>) -> ParseErrorV {
    fault(s, "unknown builtin function '"@ + root + "::"@ + member + "'"@)
}

/// A call of a member of a namespace of built-in functions.
#[verifier::opaque]
pub open spec fn builtin_member_call(
    s: ParV,
    root: Seq<char>,
    member: Seq<char>,
    args: Seq<ExprV>,
) -> Result<ExprV, ParseErrorV> {
    match s.config.builtins.member(root, member) {
        Some(b) => builtin_call(s, b, args),
        None => Err(unknown_builtin(s, root, member)),
    }
}

/// A call of a path with `::`.
#[verifier::opaque]
pub open spec fn path_call(
    s: ParV,
    name: Seq<char>,
    path: Seq<Seq<char>>,
    args: Seq<ExprV>,
) -> Parsed<
    ExprV,
> {
    if path.len() == 1 && s.hosts.builtin_root(s.config.builtins, name) is Some {
        match builtin_member_call(
            s,
            s.hosts.builtin_root(s.config.builtins, name)->0,
            path[0],
            args,
        ) {
            Err(e) => Err(e),
            Ok(e) => Ok((e, s)),
        }
    } else {
        match s.hosts.path_target(name, path) {
            Some(target) => host_call(s, target, args),
            None => Err(
                fault(
                    s,
                    "unknown namespace call '"@ + name + "::"@ + joined(
                        path,
                        "::"@,
                        path.len() as int,
                    ) + "'; import builtin namespaces first ("@ + s.config.builtins.hint@
                        + "), and for host calls import the matching host namespace or alias"@,
                ),
            ),
        }
    }
}

/// A call of a path with dots, or nothing where the path reaches nothing.
#[verifier::opaque]
pub open spec fn dotted_target(
    s: ParV,
    base: Seq<char>,
    path: Seq<Seq<char>>,
    args: Seq<ExprV>,
) -> Parsed<Option<ExprV>> {
    if base == "console"@ && path.len() == 1 && path[0] == "log"@ {
        match print_call(s, plain_text(args)) {
            Err(e) => Err(e),
            Ok((e, s1)) => Ok((Some(e), s1)),
        }
    } else if s.hosts.builtin_root(s.config.builtins, base) is Some {
        let root = s.hosts.builtin_root(s.config.builtins, base)->0;
        if path.len() != 1 {
            Err(unknown_builtin(s, root, joined(path, "::"@, path.len() as int)))
        } else {
            match builtin_member_call(s, root, path[0], args) {
                Err(e) => Err(e),
                Ok(e) => Ok((Some(e), s)),
            }
        }
    } else {
        match s.hosts.path_target(base, path) {
            Some(target) => match host_call(s, target, args) {
                Err(e) => Err(e),
                Ok((e, s1)) => Ok((Some(e), s1)),
            },
            None => Ok((None, s)),
        }
    }
}

// ---------------------------------------------------------------------------
// Looking ahead.

/// Whether names with commas between them and `) =>` follow, where `ident` says whether a
/// name comes next.
pub open spec fn arrow_params(ts: Seq<TokenV>, i: int, ident: bool) -> bool
    decreases ts.len() - i,
{
    if i < 0 || i >= ts.len() {
        false
    } else if ident {
        ts[i].kind == TokenKind::Ident && arrow_params(ts, i + 1, false)
    } else if ts[i].kind == TokenKind::Comma {
        arrow_params(ts, i + 1, true)
    } else {
        ts[i].kind == TokenKind::RParen && is_kind(ts, i + 1, TokenKind::FatArrow)
    }
}

#[verifier::opaque]
pub open spec fn at_parenthesized_arrow(s: ParV) -> bool {
    at(s, TokenKind::LParen) && (if ahead(s, 1, TokenKind::RParen) {
        ahead(s, 2, TokenKind::FatArrow)
    } else {
        arrow_params(s.ts, s.pos + 1, true)
    })
}

pub open spec fn at_single_arrow(s: ParV) -> bool {
    at(s, TokenKind::Ident) && ahead(s, 1, TokenKind::FatArrow)
}

pub open spec fn is_key(s: ParV) -> bool {
    at(s, TokenKind::Ident) || at(s, TokenKind::String) || at(s, TokenKind::Int) || at(
        s,
        TokenKind::IntMinMagnitude,
    ) || at(s, TokenKind::Float) || at(s, TokenKind::True) || at(s, TokenKind::False) || at(
        s,
        TokenKind::Null,
    )
}

/// Whether an entry with a key starts here.
#[verifier::opaque]
pub open spec fn at_map_entry(s: ParV) -> bool {
    if at(s, TokenKind::LBracket) {
        bracket_followed_by(s.ts, s.pos, 0, TokenKind::Colon, TokenKind::Equal)
    } else {
        is_key(s) && (ahead(s, 1, TokenKind::Colon) || ahead(s, 1, TokenKind::Equal))
    }
}

/// A key that is no expression in brackets.
#[verifier::opaque]
pub open spec fn map_key(s: ParV) -> Parsed<ExprV> {
    if at(s, TokenKind::Ident) || at(s, TokenKind::String) {
        Ok((ExprV::Str(text(s)), skip(s, 1)))
    } else if at(s, TokenKind::Int) {
        Ok((ExprV::Int(s.ts[s.pos].number), skip(s, 1)))
    } else if at(s, TokenKind::IntMinMagnitude) {
        Err(out_of_range(s))
    } else if at(s, TokenKind::Float) {
        Ok((ExprV::Float(text(s)), skip(s, 1)))
    } else if at(s, TokenKind::True) {
        Ok((ExprV::Bool(true), skip(s, 1)))
    } else if at(s, TokenKind::False) {
        Ok((ExprV::Bool(false), skip(s, 1)))
    } else if at(s, TokenKind::Null) {
        Ok((ExprV::Null, skip(s, 1)))
    } else {
        Err(fault(s, "map keys must be identifier/string/int/float/bool/null literals"@))
    }
}

/// The type that a pattern names.
pub open spec fn type_pattern(name: Seq<char>) -> Option<MatchTypePattern> {
    if name == "Int"@ || name == "int"@ {
        Some(MatchTypePattern::Int)
    } else if name == "Float"@ || name == "float"@ {
        Some(MatchTypePattern::Float)
    } else if name == "Number"@ || name == "number"@ {
        Some(MatchTypePattern::Number)
    } else if name == "Bool"@ || name == "bool"@ {
        Some(MatchTypePattern::Bool)
    } else if name == "String"@ || name == "string"@ {
        Some(MatchTypePattern::String)
    } else if name == "Array"@ || name == "array"@ {
        Some(MatchTypePattern::Array)
    } else if name == "Map"@ || name == "map"@ {
        Some(MatchTypePattern::Mapping)
    } else {
        None
    }
}

/// The rest of a pattern behind `Some`.
#[verifier::opaque]
pub open spec fn some_pattern(s: ParV) -> Parsed<MatchTypePattern> {
    match expect(s, TokenKind::LParen, "expected '(' after Some in match type pattern"@) {
        Err(e) => Err(e),
        Ok(s1) => match expect_ident(s1, "expected type name inside Some(...)"@) {
            Err(e) => Err(e),
            Ok((name, s2)) => match type_pattern(name) {
                None => Err(
                    fault(
                        s2,
                        "unknown match type pattern; expected one of Int/Float/Number/Bool/String/Array/Map"@,
                    ),
                ),
                Some(pattern) => match expect(
                    s2,
                    TokenKind::RParen,
                    "expected ')' after Some(TypeName) match pattern"@,
                ) {
                    Err(e) => Err(e),
                    Ok(s3) => Ok((pattern, s3)),
                },
            },
        },
    }
}

pub open spec fn bad_pattern(s: ParV) -> ParseErrorV {
    fault(
        s,
        "match patterns currently support int/string/null literals, type patterns via Some(TypeName), and '_'"@,
    )
}

/// The pattern of an arm: nothing for `_`.
pub open spec fn match_pattern(s: ParV, b: nat) -> Parsed<Option<PatternV>>
    decreases b,
{
    if b == 0 {
        Err(too_deep(s))
    } else if at(s, TokenKind::LParen) {
        match match_pattern(skip(s, 1), (b - 1) as nat) {
            Err(e) => Err(e),
            Ok((pattern, s1)) => match expect(
                s1,
                TokenKind::RParen,
                "expected ')' after parenthesized match pattern"@,
            ) {
                Err(e) => Err(e),
                Ok(s2) => Ok((pattern, s2)),
            },
        }
    } else if at(s, TokenKind::Int) {
        Ok((Some(PatternV::Int(s.ts[s.pos].number)), skip(s, 1)))
    } else if at(s, TokenKind::IntMinMagnitude) {
        Err(out_of_range(s))
    } else if at(s, TokenKind::String) {
        Ok((Some(PatternV::Str(text(s))), skip(s, 1)))
    } else if at(s, TokenKind::Null) {
        Ok((Some(PatternV::Null), skip(s, 1)))
    } else if at(s, TokenKind::Ident) {
        if text(s) == "_"@ {
            Ok((None, skip(s, 1)))
        } else if text(s) == "Some"@ {
            match some_pattern(skip(s, 1)) {
                Err(e) => Err(e),
                Ok((pattern, s1)) => Ok((Some(PatternV::Type(pattern)), s1)),
            }
        } else {
            Err(bad_pattern(skip(s, 1)))
        }
    } else {
        Err(bad_pattern(s))
    }
}

/// The segments of a path behind its first `::`.
pub open spec fn path_segments(s: ParV, path: Seq<Seq<char>>) -> Parsed<Seq<Seq<char>>>
    decreases s.ts.len() - s.pos,
{
    match expect_segment(s, "expected function name after '::'"@) {
        Err(e) => Err(e),
        Ok((name, s1)) => if at_path_separator(s1) {
            path_segments(skip(s1, 2), path.push(name))
        } else {
            Ok((path.push(name), s1))
        },
    }
}

/// The segments of a path behind its first dot.
pub open spec fn dotted_segments(s: ParV, path: Seq<Seq<char>>) -> Parsed<Seq<Seq<char>>>
    decreases s.ts.len() - s.pos,
{
    match expect_segment(s, "expected member name after '.'"@) {
        Err(e) => Err(e),
        Ok((name, s1)) => if at(s1, TokenKind::Dot) {
            dotted_segments(skip(s1, 1), path.push(name))
        } else {
            Ok((path.push(name), s1))
        },
    }
}

// ---------------------------------------------------------------------------
// Expressions. The number `b` bounds the steps that are still to be taken: one for every
// level of nesting, and one for every turn of a repetition.

pub open spec fn expr(s: ParV, b: nat) -> Parsed<ExprV>
    decreases b, 0nat,
{
    if b == 0 {
        Err(too_deep(s))
    } else {
        or_expr(s, (b - 1) as nat)
    }
}

/// The binary operator of a level that stands here.
pub open spec fn or_op(s: ParV) -> Option<BinOp> {
    if at(s, TokenKind::PipePipe) {
        Some(BinOp::Or)
    } else {
        None
    }
}

pub open spec fn and_op(s: ParV) -> Option<BinOp> {
    if at(s, TokenKind::AmpersandAmpersand) {
        Some(BinOp::And)
    } else {
        None
    }
}

pub open spec fn term_op(s: ParV) -> Option<BinOp> {
    if at(s, TokenKind::Plus) {
        Some(BinOp::Add)
    } else if at(s, TokenKind::Minus) {
        Some(BinOp::Sub)
    } else {
        None
    }
}

pub open spec fn factor_op(s: ParV) -> Option<BinOp> {
    if at(s, TokenKind::Star) {
        Some(BinOp::Mul)
    } else if at(s, TokenKind::Slash) {
        Some(BinOp::Div)
    } else if at(s, TokenKind::Percent) {
        Some(BinOp::Mod)
    } else {
        None
    }
}

pub open spec fn at_comparison(s: ParV) -> bool {
    at(s, TokenKind::EqualEqual) || at(s, TokenKind::BangEqual) || at(s, TokenKind::Less) || at(
        s,
        TokenKind::LessEqual,
    ) || at(s, TokenKind::Greater) || at(s, TokenKind::GreaterEqual)
}

/// A comparison by the operator at `s`, once both sides are known.
#[verifier::opaque]
pub open spec fn compared(s: ParV, after: ParV, e: ExprV, r: ExprV) -> Parsed<ExprV> {
    if at(s, TokenKind::EqualEqual) {
        Ok((binary(BinOp::Eq, e, r), after))
    } else if at(s, TokenKind::BangEqual) {
        Ok((unary(UnOp::Not, binary(BinOp::Eq, e, r)), after))
    } else if at(s, TokenKind::Less) {
        Ok((binary(BinOp::Lt, e, r), after))
    } else if at(s, TokenKind::LessEqual) {
        non_strict(after, BinOp::Lt, e, r)
    } else if at(s, TokenKind::Greater) {
        Ok((binary(BinOp::Gt, e, r), after))
    } else {
        non_strict(after, BinOp::Gt, e, r)
    }
}

pub open spec fn or_expr(s: ParV, b: nat) -> Parsed<ExprV>
    decreases b, 21nat,
{
    match and_expr(s, b) {
        Err(e) => Err(e),
        Ok((e, s1)) => or_rest(s1, e, b),
    }
}

/// The rest of a chain of operators, grouped to the left.
pub open spec fn or_rest(s: ParV, e: ExprV, b: nat) -> Parsed<ExprV>
    decreases b, 20nat,
{
    let op = or_op(s);
    match op {
        None => Ok((e, s)),
        Some(op) => if b == 0 {
            Err(too_deep(s))
        } else {
            match and_expr(skip(s, 1), b) {
                Err(e) => Err(e),
                Ok((r, s1)) => or_rest(s1, binary(op, e, r), (b - 1) as nat),
            }
        },
    }
}

pub open spec fn and_expr(s: ParV, b: nat) -> Parsed<ExprV>
    decreases b, 19nat,
{
    match comparison(s, b) {
        Err(e) => Err(e),
        Ok((e, s1)) => and_rest(s1, e, b),
    }
}

/// The rest of a chain of operators, grouped to the left.
pub open spec fn and_rest(s: ParV, e: ExprV, b: nat) -> Parsed<ExprV>
    decreases b, 18nat,
{
    let op = and_op(s);
    match op {
        None => Ok((e, s)),
        Some(op) => if b == 0 {
            Err(too_deep(s))
        } else {
            match comparison(skip(s, 1), b) {
                Err(e) => Err(e),
                Ok((r, s1)) => and_rest(s1, binary(op, e, r), (b - 1) as nat),
            }
        },
    }
}

pub open spec fn comparison(s: ParV, b: nat) -> Parsed<ExprV>
    decreases b, 17nat,
{
    match term(s, b) {
        Err(e) => Err(e),
        Ok((e, s1)) => comparison_rest(s1, e, b),
    }
}

/// The rest of a chain of comparisons, grouped to the left.
pub open spec fn comparison_rest(s: ParV, e: ExprV, b: nat) -> Parsed<ExprV>
    decreases b, 16nat,
{
    if !at_comparison(s) {
        Ok((e, s))
    } else if b == 0 {
        Err(too_deep(s))
    } else {
        match term(skip(s, 1), b) {
            Err(e) => Err(e),
            Ok((r, s1)) => match compared(s, s1, e, r) {
                Err(e) => Err(e),
                Ok((c, s2)) => comparison_rest(s2, c, (b - 1) as nat),
            },
        }
    }
}

pub open spec fn term(s: ParV, b: nat) -> Parsed<ExprV>
    decreases b, 15nat,
{
    match factor(s, b) {
        Err(e) => Err(e),
        Ok((e, s1)) => term_rest(s1, e, b),
    }
}

/// The rest of a chain of operators, grouped to the left.
pub open spec fn term_rest(s: ParV, e: ExprV, b: nat) -> Parsed<ExprV>
    decreases b, 14nat,
{
    let op = term_op(s);
    match op {
        None => Ok((e, s)),
        Some(op) => if b == 0 {
            Err(too_deep(s))
        } else {
            match factor(skip(s, 1), b) {
                Err(e) => Err(e),
                Ok((r, s1)) => term_rest(s1, binary(op, e, r), (b - 1) as nat),
            }
        },
    }
}

pub open spec fn factor(s: ParV, b: nat) -> Parsed<ExprV>
    decreases b, 13nat,
{
    match unary_expr(s, b) {
        Err(e) => Err(e),
        Ok((e, s1)) => factor_rest(s1, e, b),
    }
}

/// The rest of a chain of operators, grouped to the left.
pub open spec fn factor_rest(s: ParV, e: ExprV, b: nat) -> Parsed<ExprV>
    decreases b, 12nat,
{
    let op = factor_op(s);
    match op {
        None => Ok((e, s)),
        Some(op) => if b == 0 {
            Err(too_deep(s))
        } else {
            match unary_expr(skip(s, 1), b) {
                Err(e) => Err(e),
                Ok((r, s1)) => factor_rest(s1, binary(op, e, r), (b - 1) as nat),
            }
        },
    }
}

pub open spec fn unary_expr(s: ParV, b: nat) -> Parsed<ExprV>
    decreases b, 11nat,
{
    if b == 0 {
        Err(too_deep(s))
    } else if at(s, TokenKind::Ampersand) {
        if word_ahead(s, 1, "mut"@) {
            match unary_expr(skip(s, 2), (b - 1) as nat) {
                Err(e) => Err(e),
                Ok((e, s1)) => match mutable_borrow(s1, e) {
                    Err(e) => Err(e),
                    Ok(r) => Ok((r, s1)),
                },
            }
        } else {
            prefixed(UnOp::Borrow, skip(s, 1), (b - 1) as nat)
        }
    } else if s.config.dialect.allow_typeof_operator && word_ahead(s, 0, "typeof"@) {
        match unary_expr(skip(s, 1), (b - 1) as nat) {
            Err(e) => Err(e),
            Ok((e, s1)) => Ok((call1(BuiltinFunction::TypeOf, e), s1)),
        }
    } else if at(s, TokenKind::Minus) {
        if ahead(s, 1, TokenKind::IntMinMagnitude) {
            Ok((ExprV::Int(i64::MIN), skip(s, 2)))
        } else {
            prefixed(UnOp::Neg, skip(s, 1), (b - 1) as nat)
        }
    } else if at(s, TokenKind::Bang) {
        prefixed(UnOp::Not, skip(s, 1), (b - 1) as nat)
    } else {
        primary(s, b)
    }
}

/// An operator before an operand.
pub open spec fn prefixed(op: UnOp, s: ParV, b: nat) -> Parsed<ExprV>
    decreases b, 12nat,
{
    match unary_expr(s, b) {
        Err(e) => Err(e),
        Ok((e, s1)) => Ok((unary(op, e), s1)),
    }
}

pub open spec fn primary(s: ParV, b: nat) -> Parsed<ExprV>
    decreases b, 10nat,
{
    if at(s, TokenKind::If) {
        if_expr(skip(s, 1), b)
    } else if at(s, TokenKind::Match) {
        match_expr(skip(s, 1), b)
    } else if at(s, TokenKind::True) {
        Ok((ExprV::Bool(true), skip(s, 1)))
    } else if at(s, TokenKind::False) {
        Ok((ExprV::Bool(false), skip(s, 1)))
    } else if at(s, TokenKind::Null) {
        Ok((ExprV::Null, skip(s, 1)))
    } else if at(s, TokenKind::IntMinMagnitude) {
        Err(out_of_range(s))
    } else if at(s, TokenKind::Int) {
        Ok((ExprV::Int(s.ts[s.pos].number), skip(s, 1)))
    } else if at(s, TokenKind::Float) {
        Ok((ExprV::Float(text(s)), skip(s, 1)))
    } else if at(s, TokenKind::String) {
        Ok((ExprV::Str(text(s)), skip(s, 1)))
    } else if at(s, TokenKind::Pipe) {
        closure_literal(skip(s, 1), b)
    } else if at(s, TokenKind::PipePipe) {
        closure(skip(s, 1), Seq::empty(), b)
    } else if s.config.dialect.allow_arrow_closure && at_parenthesized_arrow(s) {
        parenthesized_arrow(s, b)
    } else if s.config.dialect.allow_arrow_closure && at_single_arrow(s) {
        arrow_body(skip(s, 2), seq![text(s)], b)
    } else if at(s, TokenKind::Ident) {
        named(skip(s, 1), text(s), b)
    } else if at(s, TokenKind::LParen) {
        match expr(skip(s, 1), b) {
            Err(e) => Err(e),
            Ok((e, s1)) => match expect(s1, TokenKind::RParen, "expected ')' after expression"@) {
                Err(e) => Err(e),
                Ok(s2) => postfix(s2, e, b),
            },
        }
    } else if at(s, TokenKind::LBracket) {
        match array_literal(skip(s, 1), b) {
            Err(e) => Err(e),
            Ok((e, s1)) => postfix(s1, e, b),
        }
    } else if at(s, TokenKind::LBrace) {
        match brace_literal(skip(s, 1), b) {
            Err(e) => Err(e),
            Ok((e, s1)) => postfix(s1, e, b),
        }
    } else {
        Err(fault(s, "expected expression"@))
    }
}

/// What a name at the start of an expression stands for.
pub open spec fn named(s: ParV, name: Seq<char>, b: nat) -> Parsed<ExprV>
    decreases b, 9nat,
{
    if s.config.dialect.allow_dotted_call {
        match dotted_call(s, name, b) {
            Err(e) => Err(e),
            Ok((Some(e), s1)) => Ok((e, s1)),
            Ok((None, s1)) => undotted(s1, name, b),
        }
    } else {
        undotted(s, name, b)
    }
}

pub open spec fn undotted(s: ParV, name: Seq<char>, b: nat) -> Parsed<ExprV>
    decreases b, 8nat,
{
    if at_path_separator(s) {
        if s.config.dialect.allow_namespace_path_separator {
            namespaced_call(skip(s, 2), name, b)
        } else {
            Err(
                fault(
                    s,
                    "namespace calls use '.' in this language (for example 'json.encode(...)'), not '::'"@,
                ),
            )
        }
    } else {
        match plain_name(s, name, b) {
            Err(e) => Err(e),
            Ok((e, s1)) => postfix(s1, e, b),
        }
    }
}

/// A call of a path, behind its first `::`.
pub open spec fn namespaced_call(s: ParV, name: Seq<char>, b: nat) -> Parsed<ExprV>
    decreases b, 7nat,
{
    match path_segments(s, Seq::empty()) {
        Err(e) => Err(e),
        Ok((path, s1)) => match expect(
            s1,
            TokenKind::LParen,
            "expected '(' after namespaced function name"@,
        ) {
            Err(e) => Err(e),
            Ok(s2) => match call_args(s2, b) {
                Err(e) => Err(e),
                Ok((args, s3)) => path_call(s3, name, path, args),
            },
        },
    }
}

/// A macro call, a call or a name alone.
pub open spec fn plain_name(s: ParV, name: Seq<char>, b: nat) -> Parsed<ExprV>
    decreases b, 7nat,
{
    if s.config.dialect.allow_macro_calls && at(s, TokenKind::Bang) {
        match expect(skip(s, 1), TokenKind::LParen, "expected '(' after macro name"@) {
            Err(e) => Err(e),
            Ok(s1) => match call_args(s1, b) {
                Err(e) => Err(e),
                Ok((args, s2)) => Err(fault(s2, "unknown macro '"@ + name + "!'"@)),
            },
        }
    } else if at(s, TokenKind::LParen) {
        match call_args(skip(s, 1), b) {
            Err(e) => Err(e),
            Ok((args, s1)) => named_call(s1, name, args),
        }
    } else if s.names.has_binding(name) {
        match get_local(s, name) {
            Err(e) => Err(e),
            Ok((slot, s1)) => Ok((ExprV::Var(slot), s1)),
        }
    } else {
        match s.names.decl(name) {
            Some(decl) => Ok((ExprV::FunctionRef(decl.index), s)),
            None => Err(fault(s, "unknown local '"@ + name + "'"@)),
        }
    }
}

/// A call of a path with dots, or nothing where this is none: the position is then where
/// it was.
pub open spec fn dotted_call(s: ParV, base: Seq<char>, b: nat) -> Parsed<Option<ExprV>>
    decreases b, 7nat,
{
    if !at(s, TokenKind::Dot) {
        Ok((None, s))
    } else {
        match dotted_segments(skip(s, 1), Seq::empty()) {
            Err(e) => Err(e),
            Ok((path, s1)) => if !at(s1, TokenKind::LParen) {
                Ok((None, ParV { pos: s.pos, ..s1 }))
            } else {
                match call_args(skip(s1, 1), b) {
                    Err(e) => Err(e),
                    Ok((args, s2)) => match dotted_target(s2, base, path, args) {
                        Err(e) => Err(e),
                        Ok((Some(e), s3)) => Ok((Some(e), s3)),
                        Ok((None, s3)) => Ok((None, ParV { pos: s.pos, ..s3 })),
                    },
                }
            },
        }
    }
}

/// The arguments of a call behind its `(`.
pub open spec fn call_args(s: ParV, b: nat) -> Parsed<Seq<ExprV>>
    decreases b, 2nat,
{
    if at(s, TokenKind::RParen) {
        Ok((Seq::empty(), skip(s, 1)))
    } else {
        args_rest(s, Seq::empty(), b)
    }
}

pub open spec fn args_rest(s: ParV, args: Seq<ExprV>, b: nat) -> Parsed<Seq<ExprV>>
    decreases b, 1nat,
{
    match expr(s, b) {
        Err(e) => Err(e),
        Ok((e, s1)) => if at(s1, TokenKind::Comma) {
            if b == 0 {
                Err(too_deep(s1))
            } else {
                args_rest(skip(s1, 1), args.push(e), (b - 1) as nat)
            }
        } else {
            match expect(s1, TokenKind::RParen, "expected ')' after arguments"@) {
                Err(e) => Err(e),
                Ok(s2) => Ok((args.push(e), s2)),
            }
        },
    }
}

/// The accesses behind an expression.
pub open spec fn postfix(s: ParV, e: ExprV, b: nat) -> Parsed<ExprV>
    decreases b, 4nat,
{
    if at(s, TokenKind::LBracket) || at(s, TokenKind::Dot) || at(s, TokenKind::Question) {
        if b == 0 {
            Err(too_deep(s))
        } else {
            match access(s, e, b) {
                Err(e) => Err(e),
                Ok((r, s1)) => postfix(s1, r, (b - 1) as nat),
            }
        }
    } else {
        Ok((e, s))
    }
}

/// One access.
pub open spec fn access(s: ParV, e: ExprV, b: nat) -> Parsed<ExprV>
    decreases b, 3nat,
{
    if at(s, TokenKind::LBracket) {
        if ahead(s, 1, TokenKind::Colon) {
            slice_end(skip(s, 2), e, None, b)
        } else {
            match expr(skip(s, 1), b) {
                Err(e) => Err(e),
                Ok((first, s1)) => if at(s1, TokenKind::Colon) {
                    slice_end(skip(s1, 1), e, Some(first), b)
                } else {
                    match expect(
                        s1,
                        TokenKind::RBracket,
                        "expected ']' after index expression"@,
                    ) {
                        Err(e) => Err(e),
                        Ok(s2) => Ok((call2(BuiltinFunction::Get, e, first), s2)),
                    }
                },
            }
        }
    } else if at(s, TokenKind::Dot) {
        member_access(skip(s, 1), e)
    } else {
        optional_access(skip(s, 1), e, b)
    }
}

/// The end of a slice, behind its colon.
pub open spec fn slice_end(s: ParV, e: ExprV, start: Option<ExprV>, b: nat) -> Parsed<ExprV>
    decreases b, 2nat,
{
    let end: Parsed<Option<ExprV>> = if at(s, TokenKind::RBracket) {
        Ok((None, s))
    } else {
        match expr(s, b) {
            Err(e) => Err(e),
            Ok((x, s1)) => Ok((Some(x), s1)),
        }
    };
    match end {
        Err(e) => Err(e),
        Ok((x, s1)) => match expect(
            s1,
            TokenKind::RBracket,
            "expected ']' after slice expression"@,
        ) {
            Err(e) => Err(e),
            Ok(s2) => slice_access(s2, e, start, x),
        },
    }
}

/// A member behind a dot.
#[verifier::opaque]
pub open spec fn member_access(s: ParV, e: ExprV) -> Parsed<ExprV> {
    match expect_segment(s, "expected member name after '.'"@) {
        Err(e) => Err(e),
        Ok((member, s1)) => if member == "copy"@ {
            match expect(s1, TokenKind::LParen, "expected '(' after '.copy' (use '.copy()')"@) {
                Err(e) => Err(e),
                Ok(s2) => match expect(
                    s2,
                    TokenKind::RParen,
                    "copy does not take arguments; use '.copy()'"@,
                ) {
                    Err(e) => Err(e),
                    Ok(s3) => Ok((unary(UnOp::ToOwned, e), s3)),
                },
            }
        } else if member == "length"@ {
            Ok((call1(BuiltinFunction::Len, e), s1))
        } else if member == "keys"@ {
            Ok((call1(BuiltinFunction::Keys, e), s1))
        } else {
            Ok((call2(BuiltinFunction::Get, e, ExprV::Str(member)), s1))
        },
    }
}

/// A member or an index behind `?`.
pub open spec fn optional_access(s: ParV, e: ExprV, b: nat) -> Parsed<ExprV>
    decreases b, 2nat,
{
    match expect(s, TokenKind::Dot, "expected '.' after '?' in optional access"@) {
        Err(e) => Err(e),
        Ok(s1) => if at(s1, TokenKind::LBracket) {
            match expr(skip(s1, 1), b) {
                Err(e) => Err(e),
                Ok((key, s2)) => match expect(
                    s2,
                    TokenKind::RBracket,
                    "expected ']' after optional index expression"@,
                ) {
                    Err(e) => Err(e),
                    Ok(s3) => optional_get(s3, e, key),
                },
            }
        } else {
            match expect_segment(s1, "expected member name after '?.'"@) {
                Err(e) => Err(e),
                Ok((member, s2)) => optional_get(s2, e, ExprV::Str(member)),
            }
        },
    }
}

/// An array behind its `[`.
pub open spec fn array_literal(s: ParV, b: nat) -> Parsed<ExprV>
    decreases b, 2nat,
{
    let start = call0(BuiltinFunction::ArrayNew);
    if at(s, TokenKind::RBracket) {
        Ok((start, skip(s, 1)))
    } else {
        array_rest(s, start, b)
    }
}

pub open spec fn array_rest(s: ParV, out: ExprV, b: nat) -> Parsed<ExprV>
    decreases b, 1nat,
{
    match expr(s, b) {
        Err(e) => Err(e),
        Ok((e, s1)) => {
            let next = call2(BuiltinFunction::ArrayPush, out, e);
            if at(s1, TokenKind::Comma) {
                if b == 0 {
                    Err(too_deep(s1))
                } else {
                    array_rest(skip(s1, 1), next, (b - 1) as nat)
                }
            } else {
                match expect(s1, TokenKind::RBracket, "expected ']' after array literal"@) {
                    Err(e) => Err(e),
                    Ok(s2) => Ok((next, s2)),
                }
            }
        },
    }
}

/// What stands between braces, behind the first.
pub open spec fn brace_literal(s: ParV, b: nat) -> Parsed<ExprV>
    decreases b, 4nat,
{
    if at(s, TokenKind::RBrace) {
        Ok((call0(BuiltinFunction::MapNew), skip(s, 1)))
    } else {
        match brace_entries(s, Seq::empty(), b) {
            Err(e) => Err(e),
            Ok((entries, s1)) => Ok((brace_value(entries), s1)),
        }
    }
}

pub open spec fn brace_entries(s: ParV, entries: Seq<EntryV>, b: nat) -> Parsed<Seq<EntryV>>
    decreases b, 3nat,
{
    match brace_entry(s, b) {
        Err(e) => Err(e),
        Ok((entry, s1)) => if at(s1, TokenKind::Comma) && !ahead(s1, 1, TokenKind::RBrace) {
            if b == 0 {
                Err(too_deep(s1))
            } else {
                brace_entries(skip(s1, 1), entries.push(entry), (b - 1) as nat)
            }
        } else {
            let s2 = if at(s1, TokenKind::Comma) {
                skip(s1, 1)
            } else {
                s1
            };
            match expect(s2, TokenKind::RBrace, "expected '}' after brace literal"@) {
                Err(e) => Err(e),
                Ok(s3) => Ok((entries.push(entry), s3)),
            }
        },
    }
}

pub open spec fn brace_entry(s: ParV, b: nat) -> Parsed<EntryV>
    decreases b, 2nat,
{
    if at_map_entry(s) {
        match entry_key(s, b) {
            Err(e) => Err(e),
            Ok((key, s1)) => if at(s1, TokenKind::Colon) || at(s1, TokenKind::Equal) {
                match expr(skip(s1, 1), b) {
                    Err(e) => Err(e),
                    Ok((value, s2)) => Ok((EntryV { key: Some(key), value }, s2)),
                }
            } else {
                Err(fault(s1, "expected ':' or '=' after map key"@))
            },
        }
    } else {
        match expr(s, b) {
            Err(e) => Err(e),
            Ok((value, s1)) => Ok((EntryV { key: None, value }, s1)),
        }
    }
}

pub open spec fn entry_key(s: ParV, b: nat) -> Parsed<ExprV>
    decreases b, 1nat,
{
    if at(s, TokenKind::LBracket) {
        match expr(skip(s, 1), b) {
            Err(e) => Err(e),
            Ok((key, s1)) => match expect(
                s1,
                TokenKind::RBracket,
                "expected ']' after map key expression"@,
            ) {
                Err(e) => Err(e),
                Ok(s2) => Ok((key, s2)),
            },
        }
    } else {
        map_key(s)
    }
}

/// A closure behind its first `|`.
pub open spec fn closure_literal(s: ParV, b: nat) -> Parsed<ExprV>
    decreases b, 2nat,
{
    let params: Parsed<Seq<Seq<char>>> = if at(s, TokenKind::Pipe) {
        Ok((Seq::empty(), s))
    } else {
        ident_list(s, Seq::empty(), "expected closure parameter name"@)
    };
    match params {
        Err(e) => Err(e),
        Ok((names, s1)) => match expect(
            s1,
            TokenKind::Pipe,
            "expected '|' after closure parameters"@,
        ) {
            Err(e) => Err(e),
            Ok(s2) => closure(s2, names, b),
        },
    }
}

pub open spec fn parenthesized_arrow(s: ParV, b: nat) -> Parsed<ExprV>
    decreases b, 3nat,
{
    let params: Parsed<Seq<Seq<char>>> = if ahead(s, 1, TokenKind::RParen) {
        Ok((Seq::empty(), skip(s, 1)))
    } else {
        ident_list(skip(s, 1), Seq::empty(), "expected arrow parameter name"@)
    };
    match params {
        Err(e) => Err(e),
        Ok((names, s1)) => match expect(
            s1,
            TokenKind::RParen,
            "expected ')' after arrow parameters"@,
        ) {
            Err(e) => Err(e),
            Ok(s2) => match expect(
                s2,
                TokenKind::FatArrow,
                "expected '=>' after arrow parameters"@,
            ) {
                Err(e) => Err(e),
                Ok(s3) => arrow_body(s3, names, b),
            },
        },
    }
}

/// The body of an arrow closure.
pub open spec fn arrow_body(s: ParV, params: Seq<Seq<char>>, b: nat) -> Parsed<ExprV>
    decreases b, 2nat,
{
    if at(s, TokenKind::LBrace) {
        Err(fault(s, "arrow closures with block bodies are not supported in this subset"@))
    } else {
        closure(s, params, b)
    }
}

/// A closure behind its parameters.
pub open spec fn closure(s: ParV, params: Seq<Seq<char>>, b: nat) -> Parsed<ExprV>
    decreases b, 1nat,
{
    match param_slots(s, params, 0, Seq::empty(), Seq::empty(), "closure"@) {
        Err(e) => Err(e),
        Ok(((scope, slots), s1)) => match expr(with_names(s1, s1.names.entered(scope)), b) {
            Err(e) => Err(e),
            Ok((body, s2)) => if s2.names.captures.len() == 0 {
                Err(fault(s2, "internal closure capture state error"@))
            } else {
                Ok(
                    (
                        ExprV::Closure(
                            ClosureV {
                                params: slots,
                                captures: s2.names.captures.last().copies,
                                body: Box::new(body),
                            },
                        ),
                        with_names(s2, s2.names.left()),
                    ),
                )
            },
        },
    }
}

/// A conditional expression behind its `if`.
pub open spec fn if_expr(s: ParV, b: nat) -> Parsed<ExprV>
    decreases b, 5nat,
{
    match expr(s, b) {
        Err(e) => Err(e),
        Ok((condition, s1)) => match expect(
            s1,
            TokenKind::FatArrow,
            "expected '=>' after if condition in expression form"@,
        ) {
            Err(e) => Err(e),
            Ok(s2) => match if_branch(s2, b) {
                Err(e) => Err(e),
                Ok((yes, s3)) => match expect(
                    s3,
                    TokenKind::Else,
                    "if expression requires an else branch"@,
                ) {
                    Err(e) => Err(e),
                    Ok(s4) => match else_expr(s4, b) {
                        Err(e) => Err(e),
                        Ok((no, s5)) => Ok((if_else(condition, yes, no), s5)),
                    },
                },
            },
        },
    }
}

/// The other branch of a conditional expression, behind its `else`.
pub open spec fn else_expr(s: ParV, b: nat) -> Parsed<ExprV>
    decreases b, 4nat,
{
    if at(s, TokenKind::If) {
        if b == 0 {
            Err(too_deep(s))
        } else {
            if_expr(skip(s, 1), (b - 1) as nat)
        }
    } else {
        match expect(s, TokenKind::FatArrow, "expected '=>' after else in expression form"@) {
            Err(e) => Err(e),
            Ok(s1) => if_branch(s1, b),
        }
    }
}

/// Statements, and perhaps an expression at their end, up to a `}`.
pub open spec fn body_items(s: ParV, stmts: Seq<StmtV>, function: bool, b: nat) -> Parsed<
    (Seq<StmtV>, Option<ExprV>),
>
    decreases b, 1nat,
{
    if at(s, TokenKind::RBrace) {
        Ok(((stmts, None), s))
    } else if at(s, TokenKind::Eof) {
        Err(
            fault(
                s,
                if function {
                    "unexpected end of input in function body"@
                } else {
                    "unexpected end of input in if expression branch"@
                },
            ),
        )
    } else if b == 0 {
        Err(too_deep(s))
    } else if starts_statement(s) {
        match stmt(s, b) {
            Err(e) => Err(e),
            Ok((st, s1)) => body_items(s1, stmts.push(st), function, (b - 1) as nat),
        }
    } else {
        match expr(s, b) {
            Err(e) => Err(e),
            Ok((e, s1)) => if at(s1, TokenKind::RBrace) {
                Ok(((stmts, Some(e)), s1))
            } else {
                match item_end(s1, function) {
                    Err(e) => Err(e),
                    Ok(s2) => body_items(
                        s2,
                        stmts.push(StmtV::Expr { expr: e, line: line_u32(s) }),
                        function,
                        (b - 1) as nat,
                    ),
                }
            },
        }
    }
}

/// The end of an expression between statements.
pub open spec fn item_end(s: ParV, function: bool) -> Result<ParV, ParseErrorV> {
    if function {
        terminator(s, "expected ';' after expression"@)
    } else {
        expect(
            s,
            TokenKind::Semicolon,
            "expected ';' after expression in if expression branch"@,
        )
    }
}

/// The value of a body: the expression at its end, or its last statement.
#[verifier::opaque]
pub open spec fn body_value(
    s: ParV,
    stmts: Seq<StmtV>,
    tail: Option<ExprV>,
    message: Seq<char>,
) -> Result<(Seq<StmtV>, ExprV), ParseErrorV> {
    match tail {
        Some(e) => Ok((stmts, e)),
        None => if stmts.len() > 0 {
            match stmts.last() {
                StmtV::Expr { expr, line } => Ok((stmts.drop_last(), expr)),
                _ => Err(fault(s, message)),
            }
        } else {
            Err(fault(s, message))
        },
    }
}

/// The value of a branch of a conditional expression.
#[verifier::opaque]
pub open spec fn branch_value(s: ParV, stmts: Seq<StmtV>, tail: Option<ExprV>) -> Parsed<ExprV> {
    match body_value(s, stmts, tail, "if expression branch must end with an expression"@) {
        Err(e) => Err(e),
        Ok((rest, e)) => Ok(
            (
                if rest.len() == 0 {
                    e
                } else {
                    ExprV::Block(rest, Box::new(e))
                },
                s,
            ),
        ),
    }
}

/// The items of a branch of a conditional expression, with their braces.
pub open spec fn braced_items(s: ParV, b: nat) -> Parsed<(Seq<StmtV>, Option<ExprV>)>
    decreases b, 2nat,
{
    match expect(s, TokenKind::LBrace, "expected '{' after '=>' in if expression branch"@) {
        Err(e) => Err(e),
        Ok(s1) => match body_items(s1, Seq::empty(), false, b) {
            Err(e) => Err(e),
            Ok((items, s2)) => match expect(
                s2,
                TokenKind::RBrace,
                "expected '}' to close if expression branch"@,
            ) {
                Err(e) => Err(e),
                Ok(s3) => Ok((items, s3)),
            },
        },
    }
}

/// A branch of a conditional expression.
pub open spec fn if_branch(s: ParV, b: nat) -> Parsed<ExprV>
    decreases b, 3nat,
{
    match braced_items(s, b) {
        Err(e) => Err(e),
        Ok(((stmts, tail), s1)) => branch_value(s1, stmts, tail),
    }
}

/// A `match` behind its keyword.
pub open spec fn match_expr(s: ParV, b: nat) -> Parsed<ExprV>
    decreases b, 3nat,
{
    match expr(s, b) {
        Err(e) => Err(e),
        Ok((value, s1)) => match expect(s1, TokenKind::LBrace, "expected '{' after match value"@) {
            Err(e) => Err(e),
            Ok(s2) => match allocate(s2) {
                Err(e) => Err(e),
                Ok((value_slot, s3)) => match allocate(s3) {
                    Err(e) => Err(e),
                    Ok((result_slot, s4)) => match match_arms(s4, Seq::empty(), None, b) {
                        Err(e) => Err(e),
                        Ok(((arms, default), s5)) => Ok(
                            (
                                ExprV::Match {
                                    value_slot,
                                    result_slot,
                                    value: Box::new(value),
                                    arms,
                                    default: Box::new(default),
                                },
                                s5,
                            ),
                        ),
                    },
                },
            },
        },
    }
}

/// The arms of a `match`, and its wildcard arm.
pub open spec fn match_arms(
    s: ParV,
    arms: Seq<(PatternV, ExprV)>,
    default: Option<ExprV>,
    b: nat,
) -> Parsed<(Seq<(PatternV, ExprV)>, ExprV)>
    decreases b, 2nat,
{
    if at(s, TokenKind::RBrace) {
        match default {
            Some(e) => Ok(((arms, e), skip(s, 1))),
            None => Err(
                fault(skip(s, 1), "match expression requires a wildcard arm '_ => ...'"@),
            ),
        }
    } else if at(s, TokenKind::Eof) {
        Err(fault(s, "unexpected end of input in match expression"@))
    } else if b == 0 {
        Err(too_deep(s))
    } else {
        match match_arm(s, b) {
            Err(e) => Err(e),
            Ok(((pattern, e), s1)) => if default is Some {
                Err(
                    fault(
                        s,
                        if pattern is Some {
                            "non-wildcard match arm cannot appear after '_' arm"@
                        } else {
                            "duplicate '_' match arm"@
                        },
                    ),
                )
            } else if !at(s1, TokenKind::Comma) && !at(s1, TokenKind::RBrace) {
                Err(fault(s1, "expected ',' or '}' after match arm"@))
            } else {
                let s2 = if at(s1, TokenKind::Comma) {
                    skip(s1, 1)
                } else {
                    s1
                };
                match pattern {
                    Some(p) => match_arms(s2, arms.push((p, e)), default, (b - 1) as nat),
                    None => match_arms(s2, arms, Some(e), (b - 1) as nat),
                }
            },
        }
    }
}

pub open spec fn match_arm(s: ParV, b: nat) -> Parsed<(Option<PatternV>, ExprV)>
    decreases b, 1nat,
{
    match match_pattern(s, b) {
        Err(e) => Err(e),
        Ok((pattern, s1)) => match expect(s1, TokenKind::FatArrow, "expected '=>' in match arm"@) {
            Err(e) => Err(e),
            Ok(s2) => match expr(s2, b) {
                Err(e) => Err(e),
                Ok((e, s3)) => Ok(((pattern, e), s3)),
            },
        },
    }
}

// ---------------------------------------------------------------------------
// Statements.

pub open spec fn with_hosts(s: ParV, hosts: HostNamesV) -> ParV {
    ParV { hosts, ..s }
}

pub open spec fn with_schemas(s: ParV, schemas: SchemasV) -> ParV {
    ParV { schemas, ..s }
}

pub open spec fn stmt(s: ParV, b: nat) -> Parsed<StmtV>
    decreases b, 0nat,
{
    if b == 0 {
        Err(too_deep(s))
    } else {
        statement(s, (b - 1) as nat)
    }
}

pub open spec fn statement(s: ParV, b: nat) -> Parsed<StmtV>
    decreases b, 10nat,
{
    if at(s, TokenKind::Pub) {
        if ahead(s, 1, TokenKind::Fn) {
            fn_decl(skip(s, 2), true, b)
        } else {
            Err(fault(skip(s, 1), "expected 'fn' after 'pub'"@))
        }
    } else if at(s, TokenKind::Use) {
        use_stmt(skip(s, 1))
    } else if s.config.dialect.allow_import_stmt && at(s, TokenKind::Import) {
        import_stmt(skip(s, 1))
    } else if s.config.dialect.allow_return_stmt && word_ahead(s, 0, "return"@) {
        return_stmt(s, b)
    } else if at(s, TokenKind::Fn) {
        fn_decl(skip(s, 1), false, b)
    } else if at(s, TokenKind::Struct) {
        struct_decl(skip(s, 1), b)
    } else if at(s, TokenKind::Let) {
        if s.config.dialect.allow_require_declaration && at_require(skip(s, 1)) {
            require_decl(skip(s, 1))
        } else {
            let_stmt(skip(s, 1), true, b)
        }
    } else if at(s, TokenKind::For) {
        for_stmt(skip(s, 1), b)
    } else if at(s, TokenKind::If) {
        if_stmt(skip(s, 1), b)
    } else if at(s, TokenKind::While) {
        while_stmt(skip(s, 1), b)
    } else if at(s, TokenKind::Break) {
        loop_control(skip(s, 1), true)
    } else if at(s, TokenKind::Continue) {
        loop_control(skip(s, 1), false)
    } else if at_index_assignment(s) {
        index_assign(s, b)
    } else if at_assignment(s) {
        assign(s, true, b)
    } else {
        match expr(s, b) {
            Err(e) => Err(e),
            Ok((e, s1)) => match terminator(s1, "expected ';' after expression"@) {
                Err(e) => Err(e),
                Ok(s2) => Ok((StmtV::Expr { expr: e, line: line_u32(s) }, s2)),
            },
        }
    }
}

/// `break` or `continue` behind its keyword.
#[verifier::opaque]
pub open spec fn loop_control(s: ParV, is_break: bool) -> Parsed<StmtV> {
    if s.loop_depth == 0 {
        Err(
            parse_error(
                last_line(s) as usize,
                if is_break {
                    "'break' is only allowed inside loops"@
                } else {
                    "'continue' is only allowed inside loops"@
                },
            ),
        )
    } else {
        match terminator(
            s,
            if is_break {
                "expected ';' after break"@
            } else {
                "expected ';' after continue"@
            },
        ) {
            Err(e) => Err(e),
            Ok(s1) => Ok(
                (
                    if is_break {
                        StmtV::Break(last_line(s))
                    } else {
                        StmtV::Continue(last_line(s))
                    },
                    s1,
                ),
            ),
        }
    }
}

/// A statement that leaves nothing to run.
pub open spec fn noop(line: u32, end: Result<ParV, ParseErrorV>) -> Parsed<StmtV> {
    match end {
        Err(e) => Err(e),
        Ok(s) => Ok((StmtV::Noop(line), s)),
    }
}

/// `use` behind its keyword.
#[verifier::opaque]
pub open spec fn use_stmt(s: ParV) -> Parsed<StmtV> {
    let line = last_line(s);
    match expect_ident(s, "expected namespace after 'use'"@) {
        Err(e) => Err(e),
        Ok((namespace, s1)) => if at(s1, TokenKind::Semicolon) {
            Ok(
                (
                    StmtV::Noop(line),
                    with_hosts(skip(s1, 1), s1.hosts.with_namespace(namespace, namespace)),
                ),
            )
        } else if at(s1, TokenKind::As) {
            match expect_ident(skip(s1, 1), "expected namespace alias after 'as'"@) {
                Err(e) => Err(e),
                Ok((alias, s2)) => match expect(
                    s2,
                    TokenKind::Semicolon,
                    "expected ';' after use alias"@,
                ) {
                    Err(e) => Err(e),
                    Ok(s3) => Ok(
                        (
                            StmtV::Noop(line),
                            with_hosts(s3, s3.hosts.with_namespace(alias, namespace)),
                        ),
                    ),
                },
            }
        } else if !at_path_separator(s1) {
            Err(
                fault(
                    s1,
                    "unsupported use syntax for host namespace '"@ + namespace
                        + "'; expected ';', 'as <alias>', or '::{...}'"@,
                ),
            )
        } else if s1.config.builtins.has(namespace) {
            Err(
                fault(
                    skip(s1, 2),
                    "unsupported use list for builtin namespace '"@ + namespace
                        + "'; import the namespace and call members through it"@,
                ),
            )
        } else {
            use_members(skip(s1, 2), namespace, line)
        },
    }
}

/// What `use` takes from a namespace, behind its `::`.
#[verifier::opaque]
pub open spec fn use_members(s: ParV, namespace: Seq<char>, line: u32) -> Parsed<StmtV> {
    if at(s, TokenKind::Star) {
        noop(
            line,
            expect(
                with_hosts(skip(s, 1), s.hosts.with_wildcard(namespace)),
                TokenKind::Semicolon,
                "expected ';' after host wildcard import"@,
            ),
        )
    } else {
        match expect(s, TokenKind::LBrace, "expected '{' after host import path"@) {
            Err(e) => Err(e),
            Ok(s1) => if at(s1, TokenKind::Star) {
                match expect(
                    with_hosts(skip(s1, 1), s1.hosts.with_wildcard(namespace)),
                    TokenKind::RBrace,
                    "expected '}' after '*'"@,
                ) {
                    Err(e) => Err(e),
                    Ok(s2) => noop(
                        line,
                        expect(s2, TokenKind::Semicolon, "expected ';' after use list"@),
                    ),
                }
            } else {
                match use_list(s1, namespace) {
                    Err(e) => Err(e),
                    Ok(s2) => match expect(
                        s2,
                        TokenKind::RBrace,
                        "expected '}' after use list"@,
                    ) {
                        Err(e) => Err(e),
                        Ok(s3) => noop(
                            line,
                            expect(s3, TokenKind::Semicolon, "expected ';' after use list"@),
                        ),
                    },
                }
            },
        }
    }
}

/// A name, and what it is called here.
pub open spec fn renamed(s: ParV, message: Seq<char>) -> Parsed<(Seq<char>, Seq<char>)> {
    match expect_ident(s, message) {
        Err(e) => Err(e),
        Ok((name, s1)) => if at(s1, TokenKind::As) {
            match expect_ident(skip(s1, 1), "expected local alias after 'as'"@) {
                Err(e) => Err(e),
                Ok((local, s2)) => Ok(((name, local), s2)),
            }
        } else {
            Ok(((name, name), s1))
        },
    }
}

/// Names from a namespace of the host, with commas between them.
pub open spec fn use_list(s: ParV, namespace: Seq<char>) -> Result<ParV, ParseErrorV>
    decreases s.ts.len() - s.pos,
{
    match renamed(s, "expected host function name in use list"@) {
        Err(e) => Err(e),
        Ok(((imported, local), s1)) => {
            let target = namespace + "::"@ + imported;
            if s1.hosts.direct.dom().contains(local) && s1.hosts.direct[local] != target {
                Err(
                    fault(
                        s1,
                        "host import alias '"@ + local + "' already maps to '"@
                            + s1.hosts.direct[local] + "', cannot remap to '"@ + target + "'"@,
                    ),
                )
            } else {
                let s2 = with_hosts(s1, s1.hosts.with_direct(local, target));
                if !at(s2, TokenKind::Comma) {
                    Ok(s2)
                } else if ahead(s2, 1, TokenKind::RBrace) {
                    Ok(skip(s2, 1))
                } else {
                    use_list(skip(s2, 1), namespace)
                }
            }
        },
    }
}

/// Names from a module, with commas between them.
pub open spec fn import_list(s: ParV, names: Seq<(Seq<char>, Seq<char>)>) -> Parsed<
    Seq<(Seq<char>, Seq<char>)>,
>
    decreases s.ts.len() - s.pos,
{
    match renamed(s, "expected imported symbol in import list"@) {
        Err(e) => Err(e),
        Ok((pair, s1)) => if !at(s1, TokenKind::Comma) {
            Ok((names.push(pair), s1))
        } else if ahead(s1, 1, TokenKind::RBrace) {
            Ok((names.push(pair), skip(s1, 1)))
        } else {
            import_list(skip(s1, 1), names.push(pair))
        },
    }
}

#[verifier::opaque]
pub open spec fn named_imports(s: ParV) -> Parsed<Seq<(Seq<char>, Seq<char>)>> {
    let list: Parsed<Seq<(Seq<char>, Seq<char>)>> = if at(s, TokenKind::RBrace) {
        Ok((Seq::empty(), s))
    } else {
        import_list(s, Seq::empty())
    };
    match list {
        Err(e) => Err(e),
        Ok((names, s1)) => match expect(s1, TokenKind::RBrace, "expected '}' after import list"@) {
            Err(e) => Err(e),
            Ok(s2) => Ok((names, s2)),
        },
    }
}

/// The module that an import is from, up to the end of the statement.
#[verifier::opaque]
pub open spec fn import_source(s: ParV) -> Parsed<Seq<char>> {
    match expect(s, TokenKind::From, "expected 'from' in import statement"@) {
        Err(e) => Err(e),
        Ok(s1) => match expect_text(
            s1,
            TokenKind::String,
            "expected module string after 'from'"@,
        ) {
            Err(e) => Err(e),
            Ok((spec, s2)) => match terminator(s2, "expected ';' after import statement"@) {
                Err(e) => Err(e),
                Ok(s3) => Ok((spec, s3)),
            },
        },
    }
}

/// The state once a name stands for a module, where that is a namespace.
pub open spec fn with_import(s: ParV, alias: Seq<char>, spec: Seq<char>) -> ParV {
    if s.config.builtins.has(spec) || valid_ident(spec) {
        with_hosts(s, s.hosts.with_namespace(alias, spec))
    } else {
        s
    }
}

/// Host names from a namespace, from position `i` on.
pub open spec fn with_directs(
    hosts: HostNamesV,
    spec: Seq<char>,
    names: Seq<(Seq<char>, Seq<char>)>,
    i: int,
) -> HostNamesV
    decreases names.len() - i,
{
    if i < 0 || i >= names.len() {
        hosts
    } else {
        with_directs(
            hosts.with_direct(names[i].1, spec + "::"@ + names[i].0),
            spec,
            names,
            i + 1,
        )
    }
}

pub open spec fn namespace_alias(s: ParV) -> Parsed<Seq<char>> {
    match expect(s, TokenKind::As, "expected 'as' in namespace import"@) {
        Err(e) => Err(e),
        Ok(s1) => expect_ident(s1, "expected namespace alias in import"@),
    }
}

/// `import` behind its keyword.
#[verifier::opaque]
pub open spec fn import_stmt(s: ParV) -> Parsed<StmtV> {
    let line = last_line(s);
    if at(s, TokenKind::String) {
        noop(line, terminator(skip(s, 1), "expected ';' after import statement"@))
    } else if at(s, TokenKind::Star) {
        match namespace_alias(skip(s, 1)) {
            Err(e) => Err(e),
            Ok((alias, s1)) => match import_source(s1) {
                Err(e) => Err(e),
                Ok((spec, s2)) => Ok((StmtV::Noop(line), with_import(s2, alias, spec))),
            },
        }
    } else if at(s, TokenKind::LBrace) {
        match named_imports(skip(s, 1)) {
            Err(e) => Err(e),
            Ok((names, s1)) => match import_source(s1) {
                Err(e) => Err(e),
                Ok((spec, s2)) => Ok(
                    (
                        StmtV::Noop(line),
                        if valid_ident(spec) && !s2.config.builtins.has(spec) {
                            with_hosts(s2, with_directs(s2.hosts, spec, names, 0))
                        } else {
                            s2
                        },
                    ),
                ),
            },
        }
    } else {
        match expect_ident(s, "expected import clause after 'import'"@) {
            Err(e) => Err(e),
            Ok((name, s1)) => match import_more(s1) {
                Err(e) => Err(e),
                Ok(s2) => match import_source(s2) {
                    Err(e) => Err(e),
                    Ok((spec, s3)) => Ok((StmtV::Noop(line), with_import(s3, name, spec))),
                },
            },
        }
    }
}

/// What may stand behind the first name of an import. It binds nothing.
#[verifier::opaque]
pub open spec fn import_more(s: ParV) -> Result<ParV, ParseErrorV> {
    if !at(s, TokenKind::Comma) {
        Ok(s)
    } else if ahead(s, 1, TokenKind::Star) {
        match namespace_alias(skip(s, 2)) {
            Err(e) => Err(e),
            Ok((alias, s1)) => Ok(s1),
        }
    } else if ahead(s, 1, TokenKind::LBrace) {
        match named_imports(skip(s, 2)) {
            Err(e) => Err(e),
            Ok((names, s1)) => Ok(s1),
        }
    } else {
        Err(fault(skip(s, 1), "unsupported import clause after ','"@))
    }
}

/// Whether `= require("...")` stands at a position.
pub open spec fn require_at(ts: Seq<TokenV>, i: int) -> bool {
    is_kind(ts, i, TokenKind::Equal) && is_kind(ts, i + 1, TokenKind::Ident) && ts[i + 1].text
        == "require"@ && is_kind(ts, i + 2, TokenKind::LParen) && is_kind(
        ts,
        i + 3,
        TokenKind::String,
    ) && is_kind(ts, i + 4, TokenKind::RParen)
}

/// Whether the first `}` from a position on is followed by `= require("...")`.
pub open spec fn require_behind_brace(ts: Seq<TokenV>, i: int) -> bool
    decreases ts.len() - i,
{
    if i < 0 || i >= ts.len() || ts[i].kind == TokenKind::Eof {
        false
    } else if ts[i].kind == TokenKind::RBrace {
        require_at(ts, i + 1)
    } else {
        require_behind_brace(ts, i + 1)
    }
}

#[verifier::opaque]
pub open spec fn at_require(s: ParV) -> bool {
    if at(s, TokenKind::LBrace) {
        require_behind_brace(s.ts, s.pos + 1)
    } else {
        at(s, TokenKind::Ident) && require_at(s.ts, s.pos + 1)
    }
}

/// The state at the next `}`.
pub open spec fn to_brace(s: ParV) -> Result<ParV, ParseErrorV>
    decreases s.ts.len() - s.pos,
{
    if at(s, TokenKind::RBrace) {
        Ok(s)
    } else if at(s, TokenKind::Eof) || s.pos < 0 || s.pos >= s.ts.len() {
        Err(fault(s, "unexpected end of input in require destructuring"@))
    } else {
        to_brace(skip(s, 1))
    }
}

/// `require("...")`.
#[verifier::opaque]
pub open spec fn require_call(s: ParV) -> Parsed<Seq<char>> {
    if !word_ahead(s, 0, "require"@) {
        Err(fault(s, "expected 'require(...)' in declaration"@))
    } else {
        match expect(skip(s, 1), TokenKind::LParen, "expected '(' after require"@) {
            Err(e) => Err(e),
            Ok(s1) => match expect_text(
                s1,
                TokenKind::String,
                "expected module string in require"@,
            ) {
                Err(e) => Err(e),
                Ok((spec, s2)) => match expect(
                    s2,
                    TokenKind::RParen,
                    "expected ')' after require module string"@,
                ) {
                    Err(e) => Err(e),
                    Ok(s3) => Ok((spec, s3)),
                },
            },
        }
    }
}

/// A `require` call and the end of its statement.
#[verifier::opaque]
pub open spec fn required(s: ParV) -> Parsed<Seq<char>> {
    match require_call(s) {
        Err(e) => Err(e),
        Ok((spec, s1)) => match terminator(s1, "expected ';' after require declaration"@) {
            Err(e) => Err(e),
            Ok(s2) => Ok((spec, s2)),
        },
    }
}

/// A declaration by `require`, behind its `let`.
#[verifier::opaque]
pub open spec fn require_decl(s: ParV) -> Parsed<StmtV> {
    let line = last_line(s);
    if at(s, TokenKind::LBrace) {
        match to_brace(skip(s, 1)) {
            Err(e) => Err(e),
            Ok(s1) => match expect(
                skip(s1, 1),
                TokenKind::Equal,
                "expected '=' after destructuring in require declaration"@,
            ) {
                Err(e) => Err(e),
                Ok(s2) => match required(s2) {
                    Err(e) => Err(e),
                    Ok((spec, s3)) => Ok((StmtV::Noop(line), s3)),
                },
            },
        }
    } else {
        match expect_ident(s, "expected identifier after 'let'"@) {
            Err(e) => Err(e),
            Ok((alias, s1)) => match expect(
                s1,
                TokenKind::Equal,
                "expected '=' in require declaration after identifier"@,
            ) {
                Err(e) => Err(e),
                Ok(s2) => match required(s2) {
                    Err(e) => Err(e),
                    Ok((spec, s3)) => Ok((StmtV::Noop(line), with_import(s3, alias, spec))),
                },
            },
        }
    }
}

/// `return`, from its keyword on.
pub open spec fn return_stmt(s: ParV, b: nat) -> Parsed<StmtV>
    decreases b, 1nat,
{
    let line = line_u32(s);
    let s1 = skip(s, 1);
    if s1.body_depth == 0 {
        Err(fault(s1, "'return' is only valid inside function bodies"@))
    } else if at(s1, TokenKind::Semicolon) {
        Ok((StmtV::Expr { expr: ExprV::Null, line }, skip(s1, 1)))
    } else if at(s1, TokenKind::RBrace) || at(s1, TokenKind::Eof) {
        Ok((StmtV::Expr { expr: ExprV::Null, line }, s1))
    } else {
        match expr(s1, b) {
            Err(e) => Err(e),
            Ok((e, s2)) => match terminator(s2, "expected ';' after return value"@) {
                Err(e) => Err(e),
                Ok(s3) => Ok((StmtV::Expr { expr: e, line }, s3)),
            },
        }
    }
}

/// The type that a name declares.
pub open spec fn declared_type(name: Seq<char>) -> Option<ValueType> {
    if name == "unknown"@ {
        Some(ValueType::Unknown)
    } else if name == "int"@ {
        Some(ValueType::Int)
    } else if name == "float"@ {
        Some(ValueType::Float)
    } else if name == "bool"@ {
        Some(ValueType::Bool)
    } else if name == "string"@ {
        Some(ValueType::String)
    } else if name == "array"@ {
        Some(ValueType::Array)
    } else if name == "map"@ {
        Some(ValueType::Mapping)
    } else {
        None
    }
}

/// The result type of a function, where one is declared.
#[verifier::opaque]
pub open spec fn return_type(s: ParV) -> Parsed<ValueType> {
    if !(at(s, TokenKind::Minus) && ahead(s, 1, TokenKind::Greater)) {
        Ok((ValueType::Unknown, s))
    } else if ahead(s, 2, TokenKind::Null) {
        Ok((ValueType::Null, skip(s, 3)))
    } else {
        let s1 = skip(s, 2);
        match expect_ident(s1, "expected return type after '->'"@) {
            Err(e) => Err(e),
            Ok((name, s2)) => match declared_type(name) {
                Some(ty) => Ok(
                    (
                        ty,
                        if name == "unknown"@ {
                            with_schemas(s2, s2.schemas.with_unknown(span_of(s1)))
                        } else {
                            s2
                        },
                    ),
                ),
                None => Err(
                    fault(
                        s2,
                        "unknown declared return type '"@ + name
                            + "', expected unknown/null/int/float/bool/string/array/map"@,
                    ),
                ),
            },
        }
    }
}

/// The head of a function, behind its `fn`: its name, its parameters and its result type.
#[verifier::opaque]
pub open spec fn fn_head(s: ParV) -> Parsed<(Seq<char>, Seq<Seq<char>>, ValueType)> {
    match expect_ident(s, "expected function name after 'fn'"@) {
        Err(e) => Err(e),
        Ok((name, s1)) => match expect(
            s1,
            TokenKind::LParen,
            "expected '(' after function name"@,
        ) {
            Err(e) => Err(e),
            Ok(s2) => {
                let params: Parsed<Seq<Seq<char>>> = if at(s2, TokenKind::RParen) {
                    Ok((Seq::empty(), s2))
                } else {
                    ident_list(s2, Seq::empty(), "expected parameter name"@)
                };
                match params {
                    Err(e) => Err(e),
                    Ok((names, s3)) => match expect(
                        s3,
                        TokenKind::RParen,
                        "expected ')' after parameters"@,
                    ) {
                        Err(e) => Err(e),
                        Ok(s4) => match return_type(s4) {
                            Err(e) => Err(e),
                            Ok((ty, s5)) => Ok(((name, names, ty), s5)),
                        },
                    },
                }
            },
        },
    }
}

/// The declaration of a function by its head.
#[verifier::opaque]
pub open spec fn declare(
    s: ParV,
    name: Seq<char>,
    params: Seq<Seq<char>>,
    exported: bool,
    ty: ValueType,
) -> Parsed<FunctionDeclV> {
    if params.len() > 255 {
        Err(arity_too_large(s))
    } else if s.names.decl(name) is Some {
        Err(fault(s, "duplicate function '"@ + name + "'"@))
    } else if bound_slot(s.names.locals, name) is Some {
        Err(fault(s, "name '"@ + name + "' already used by a local binding"@))
    } else if s.names.next_function == 0xFFFF {
        Err(fault(s, "function index overflow"@))
    } else {
        let decl = FunctionDeclV {
            name,
            arity: params.len() as u8,
            index: s.names.next_function,
            args: params,
            exported,
            return_type: ty,
        };
        Ok((decl, with_names(s, s.names.with_decl(decl))))
    }
}

/// A function behind its `fn`.
pub open spec fn fn_decl(s: ParV, exported: bool, b: nat) -> Parsed<StmtV>
    decreases b, 5nat,
{
    match fn_head(s) {
        Err(e) => Err(e),
        Ok(((name, params, ty), s1)) => match declare(s1, name, params, exported, ty) {
            Err(e) => Err(e),
            Ok((decl, s2)) => match fn_body(s2, decl, b) {
                Err(e) => Err(e),
                Ok(s3) => Ok(
                    (
                        StmtV::FuncDecl {
                            name,
                            index: decl.index,
                            arity: decl.arity,
                            args: params,
                            exported,
                            line: last_line(s),
                        },
                        s3,
                    ),
                ),
            },
        },
    }
}

/// The body of a function, where it has one, and the end of its declaration.
pub open spec fn fn_body(s: ParV, decl: FunctionDeclV, b: nat) -> Result<ParV, ParseErrorV>
    decreases b, 4nat,
{
    if at(s, TokenKind::Equal) {
        match function_impl(skip(s, 1), decl.args, false, b) {
            Err(e) => Err(e),
            Ok((f, s1)) => match expect(
                s1,
                TokenKind::Semicolon,
                "expected ';' after function definition"@,
            ) {
                Err(e) => Err(e),
                Ok(s2) => Ok(with_names(s2, s2.names.with_impl(decl.index, f))),
            },
        }
    } else if at(s, TokenKind::LBrace) {
        match function_impl(skip(s, 1), decl.args, true, b) {
            Err(e) => Err(e),
            Ok((f, s1)) => match expect(
                s1,
                TokenKind::RBrace,
                "expected '}' after function body"@,
            ) {
                Err(e) => Err(e),
                Ok(s2) => {
                    let s3 = with_names(s2, s2.names.with_impl(decl.index, f));
                    Ok(
                        if at(s3, TokenKind::Semicolon) {
                            skip(s3, 1)
                        } else {
                            s3
                        },
                    )
                },
            },
        }
    } else {
        expect(s, TokenKind::Semicolon, "expected ';' after function declaration"@)
    }
}

/// One more, but not beyond the largest number.
pub open spec fn deeper(depth: usize) -> usize {
    if depth < usize::MAX {
        (depth + 1) as usize
    } else {
        depth
    }
}

/// What a function does: an expression, or a block that ends with one.
pub open spec fn function_impl(s: ParV, params: Seq<Seq<char>>, block: bool, b: nat) -> Parsed<
    FunctionImplV,
>
    decreases b, 3nat,
{
    match param_slots(s, params, 0, Seq::empty(), Seq::empty(), "function"@) {
        Err(e) => Err(e),
        Ok(((scope, slots), s1)) => match function_content(
            ParV {
                names: s1.names.entered(scope),
                body_depth: deeper(s1.body_depth),
                ..s1
            },
            block,
            b,
        ) {
            Err(e) => Err(e),
            Ok(((stmts, value), s2)) => if s2.names.captures.len() == 0 {
                Err(fault(s2, "internal function capture state error"@))
            } else {
                Ok(
                    (
                        FunctionImplV {
                            params: slots,
                            captures: s2.names.captures.last().copies,
                            body_stmts: stmts,
                            body_expr: value,
                        },
                        ParV { names: s2.names.left(), body_depth: s.body_depth, ..s2 },
                    ),
                )
            },
        },
    }
}

pub open spec fn function_content(s: ParV, block: bool, b: nat) -> Parsed<(Seq<StmtV>, ExprV)>
    decreases b, 2nat,
{
    if block {
        match body_items(s, Seq::empty(), true, b) {
            Err(e) => Err(e),
            Ok(((stmts, tail), s1)) => match body_value(
                s1,
                stmts,
                tail,
                "function body must end with an expression statement"@,
            ) {
                Err(e) => Err(e),
                Ok(content) => Ok((content, s1)),
            },
        }
    } else {
        match expr(s, b) {
            Err(e) => Err(e),
            Ok((e, s1)) => Ok(((Seq::empty(), e), s1)),
        }
    }
}

/// A declared type.
pub open spec fn type_schema(s: ParV, b: nat) -> Parsed<SchemaV>
    decreases b, 0nat,
{
    if b == 0 {
        Err(too_deep(s))
    } else if at(s, TokenKind::LBracket) {
        match type_schema(skip(s, 1), (b - 1) as nat) {
            Err(e) => Err(e),
            Ok((element, s1)) => match expect(
                s1,
                TokenKind::RBracket,
                "expected ']' after array type schema"@,
            ) {
                Err(e) => Err(e),
                Ok(s2) => Ok((SchemaV::Array(Box::new(element)), s2)),
            },
        }
    } else if at(s, TokenKind::LBrace) {
        match schema_fields(skip(s, 1), (b - 1) as nat) {
            Err(e) => Err(e),
            Ok((fields, s1)) => match expect(
                s1,
                TokenKind::RBrace,
                "expected '}' after object type schema"@,
            ) {
                Err(e) => Err(e),
                Ok(s2) => Ok((SchemaV::Object(fields), s2)),
            },
        }
    } else if at(s, TokenKind::Null) {
        Ok((SchemaV::Null, skip(s, 1)))
    } else {
        match expect_ident(s, "expected type schema"@) {
            Err(e) => Err(e),
            Ok((name, s1)) => Ok(named_schema(s1, name, span_of(s))),
        }
    }
}

/// The declared type that a name stands for.
#[verifier::opaque]
pub open spec fn named_schema(s: ParV, name: Seq<char>, span: Span) -> (SchemaV, ParV) {
    match declared_type(name) {
        Some(ValueType::Unknown) => (
            SchemaV::Unknown,
            with_schemas(s, s.schemas.with_unknown(span)),
        ),
        Some(ValueType::Int) => (SchemaV::Int, s),
        Some(ValueType::Float) => (SchemaV::Float, s),
        Some(ValueType::Bool) => (SchemaV::Bool, s),
        Some(ValueType::String) => (SchemaV::Str, s),
        Some(ValueType::Array) => (SchemaV::Array(Box::new(SchemaV::Unknown)), s),
        Some(ValueType::Mapping) => (SchemaV::Mapping(Box::new(SchemaV::Unknown)), s),
        _ => (
            SchemaV::Named(name),
            with_schemas(s, s.schemas.with_site(name, line_of(s), span)),
        ),
    }
}

/// The fields of a structure.
pub open spec fn schema_fields(s: ParV, b: nat) -> Parsed<Seq<(Seq<char>, SchemaV)>>
    decreases b, 2nat,
{
    if at(s, TokenKind::RBrace) {
        Ok((Seq::empty(), s))
    } else {
        fields_rest(s, Seq::empty(), b)
    }
}

pub open spec fn fields_rest(s: ParV, fields: Seq<(Seq<char>, SchemaV)>, b: nat) -> Parsed<
    Seq<(Seq<char>, SchemaV)>,
>
    decreases b, 1nat,
{
    match expect_ident(s, "expected field name in object type schema"@) {
        Err(e) => Err(e),
        Ok((name, s1)) => match expect(
            s1,
            TokenKind::Colon,
            "expected ':' after schema field name"@,
        ) {
            Err(e) => Err(e),
            Ok(s2) => match type_schema(s2, b) {
                Err(e) => Err(e),
                Ok((schema, s3)) => {
                    let next = with_field(fields, name, schema);
                    if !at(s3, TokenKind::Comma) {
                        Ok((next, s3))
                    } else if ahead(s3, 1, TokenKind::RBrace) {
                        Ok((next, skip(s3, 1)))
                    } else if b == 0 {
                        Err(too_deep(s3))
                    } else {
                        fields_rest(skip(s3, 1), next, (b - 1) as nat)
                    }
                },
            },
        },
    }
}

/// A structure behind its `struct`.
pub open spec fn struct_decl(s: ParV, b: nat) -> Parsed<StmtV>
    decreases b, 3nat,
{
    match expect_ident(s, "expected struct name after 'struct'"@) {
        Err(e) => Err(e),
        Ok((name, s1)) => match expect(s1, TokenKind::LBrace, "expected '{' after struct name"@) {
            Err(e) => Err(e),
            Ok(s2) => match schema_fields(s2, b) {
                Err(e) => Err(e),
                Ok((fields, s3)) => match expect(
                    s3,
                    TokenKind::RBrace,
                    "expected '}' after struct body"@,
                ) {
                    Err(e) => Err(e),
                    Ok(s4) => if has_field(s4.schemas.structs, name) {
                        Err(fault(s4, "duplicate struct schema '"@ + name + "'"@))
                    } else {
                        Ok(
                            (
                                StmtV::Noop(last_line(s)),
                                with_schemas(
                                    s4,
                                    s4.schemas.with_struct(name, SchemaV::Object(fields)),
                                ),
                            ),
                        )
                    },
                },
            },
        },
    }
}

/// The structure that a `let` declares, where it does.
#[verifier::opaque]
pub open spec fn let_struct(s: ParV) -> Parsed<Option<Seq<char>>> {
    if !at(s, TokenKind::Colon) {
        Ok((None, s))
    } else {
        let s1 = skip(s, 1);
        match expect_ident(s1, "expected struct name after ':'"@) {
            Err(e) => Err(e),
            Ok((name, s2)) => Ok(
                (
                    Some(name),
                    with_schemas(s2, s2.schemas.with_site(name, line_of(s2), span_of(s1))),
                ),
            ),
        }
    }
}

/// The end of a statement where one is due.
pub open spec fn end_if(s: ParV, due: bool, message: Seq<char>) -> Result<ParV, ParseErrorV> {
    if due {
        terminator(s, message)
    } else {
        Ok(s)
    }
}

/// The name that a `let` binds, and whether it is declared to change.
#[verifier::opaque]
pub open spec fn let_name(s: ParV) -> Parsed<(Seq<char>, bool)> {
    let declared = s.config.dialect.allow_let_mut_binding && word_ahead(s, 0, "mut"@);
    match expect_ident(
        if declared {
            skip(s, 1)
        } else {
            s
        },
        if declared {
            "expected identifier after 'let mut'"@
        } else {
            "expected identifier after 'let'"@
        },
    ) {
        Err(e) => Err(e),
        Ok((name, s1)) => Ok(((name, declared), s1)),
    }
}

/// `let` behind its keyword.
pub open spec fn let_stmt(s: ParV, due: bool, b: nat) -> Parsed<StmtV>
    decreases b, 2nat,
{
    match let_name(s) {
        Err(e) => Err(e),
        Ok(((name, declared), s1)) => match let_struct(s1) {
            Err(e) => Err(e),
            Ok((shape, s2)) => match value(s2, due, "expected ';' after let"@, b) {
                Err(e) => Err(e),
                Ok((e, s3)) => match let_slot(s3, name, declared) {
                    Err(e) => Err(e),
                    Ok((index, s4)) => Ok(
                        (
                            StmtV::Let { index, expr: e, line: last_line(s) },
                            with_schemas(s4, s4.schemas.with_declared(index, shape)),
                        ),
                    ),
                },
            },
        },
    }
}

/// A value behind `=`, and the end of its statement.
pub open spec fn value(s: ParV, due: bool, message: Seq<char>, b: nat) -> Parsed<ExprV>
    decreases b, 1nat,
{
    match expect(s, TokenKind::Equal, "expected '=' after identifier"@) {
        Err(e) => Err(e),
        Ok(s1) => match expr(s1, b) {
            Err(e) => Err(e),
            Ok((e, s2)) => match end_if(s2, due, message) {
                Err(e) => Err(e),
                Ok(s3) => Ok((e, s3)),
            },
        },
    }
}

/// An assignment to a name.
pub open spec fn assign(s: ParV, due: bool, b: nat) -> Parsed<StmtV>
    decreases b, 2nat,
{
    match expect_ident(s, "expected identifier before '='"@) {
        Err(e) => Err(e),
        Ok((name, s1)) => match value(s1, due, "expected ';' after assignment"@, b) {
            Err(e) => Err(e),
            Ok((e, s2)) => match get_local(s2, name) {
                Err(e) => Err(e),
                Ok((index, s3)) => match immutable(
                    s3,
                    index,
                    Some(name),
                    line_u32(s),
                    "assign to"@,
                ) {
                    Some(error) => Err(error),
                    None => Ok((StmtV::Assign { index, expr: e, line: line_u32(s) }, s3)),
                },
            },
        },
    }
}

/// The key of an assignment to a part of a local.
pub open spec fn assign_key(s: ParV, b: nat) -> Parsed<ExprV>
    decreases b, 1nat,
{
    if at(s, TokenKind::LBracket) {
        match expr(skip(s, 1), b) {
            Err(e) => Err(e),
            Ok((key, s1)) => match expect(
                s1,
                TokenKind::RBracket,
                "expected ']' after assignment index"@,
            ) {
                Err(e) => Err(e),
                Ok(s2) => Ok((key, s2)),
            },
        }
    } else if at(s, TokenKind::Dot) {
        match expect_ident(skip(s, 1), "expected member name after '.'"@) {
            Err(e) => Err(e),
            Ok((member, s1)) => Ok((ExprV::Str(member), s1)),
        }
    } else {
        Err(fault(s, "expected '[' or '.' in indexed assignment"@))
    }
}

/// An assignment to a part of a local.
pub open spec fn index_assign(s: ParV, b: nat) -> Parsed<StmtV>
    decreases b, 2nat,
{
    match expect_ident(s, "expected identifier before indexed assignment"@) {
        Err(e) => Err(e),
        Ok((name, s1)) => match assign_key(s1, b) {
            Err(e) => Err(e),
            Ok((key, s2)) => match expect(
                s2,
                TokenKind::Equal,
                "expected '=' after indexed assignment target"@,
            ) {
                Err(e) => Err(e),
                Ok(s3) => match expr(s3, b) {
                    Err(e) => Err(e),
                    Ok((v, s4)) => match terminator(
                        s4,
                        "expected ';' after indexed assignment"@,
                    ) {
                        Err(e) => Err(e),
                        Ok(s5) => match get_local(s5, name) {
                            Err(e) => Err(e),
                            Ok((index, s6)) => match immutable(
                                s6,
                                index,
                                Some(name),
                                line_u32(s),
                                "mutate"@,
                            ) {
                                Some(error) => Err(error),
                                None => Ok(
                                    (
                                        StmtV::Assign {
                                            index,
                                            expr: call3(
                                                BuiltinFunction::SetAt,
                                                ExprV::Var(index),
                                                key,
                                                v,
                                            ),
                                            line: line_u32(s),
                                        },
                                        s6,
                                    ),
                                ),
                            },
                        },
                    },
                },
            },
        },
    }
}

/// An assignment or an expression in the head of a `for`.
pub open spec fn for_clause(s: ParV, b: nat) -> Parsed<StmtV>
    decreases b, 3nat,
{
    if at_assignment(s) {
        assign(s, false, b)
    } else {
        match expr(s, b) {
            Err(e) => Err(e),
            Ok((e, s1)) => Ok((StmtV::Expr { expr: e, line: line_u32(s) }, s1)),
        }
    }
}

pub open spec fn for_start(s: ParV, b: nat) -> Parsed<StmtV>
    decreases b, 4nat,
{
    if at(s, TokenKind::Let) {
        let_stmt(skip(s, 1), false, b)
    } else {
        for_clause(s, b)
    }
}

/// The body of a loop.
pub open spec fn loop_body(s: ParV, message: Seq<char>, b: nat) -> Parsed<Seq<StmtV>>
    decreases b, 4nat,
{
    match block(ParV { loop_depth: deeper(s.loop_depth), ..s }, message, b) {
        Err(e) => Err(e),
        Ok((stmts, s1)) => Ok((stmts, ParV { loop_depth: s.loop_depth, ..s1 })),
    }
}

/// `for` behind its keyword.
pub open spec fn for_stmt(s: ParV, b: nat) -> Parsed<StmtV>
    decreases b, 5nat,
{
    match expect(s, TokenKind::LParen, "expected '(' after 'for'"@) {
        Err(e) => Err(e),
        Ok(s1) => match for_start(s1, b) {
            Err(e) => Err(e),
            Ok((init, s2)) => match expect(
                s2,
                TokenKind::Semicolon,
                "expected ';' after for initializer"@,
            ) {
                Err(e) => Err(e),
                Ok(s3) => match expr(s3, b) {
                    Err(e) => Err(e),
                    Ok((condition, s4)) => match expect(
                        s4,
                        TokenKind::Semicolon,
                        "expected ';' after for condition"@,
                    ) {
                        Err(e) => Err(e),
                        Ok(s5) => match for_clause(s5, b) {
                            Err(e) => Err(e),
                            Ok((post, s6)) => match expect(
                                s6,
                                TokenKind::RParen,
                                "expected ')' after for clauses"@,
                            ) {
                                Err(e) => Err(e),
                                Ok(s7) => match loop_body(
                                    s7,
                                    "expected '{' after for clauses"@,
                                    b,
                                ) {
                                    Err(e) => Err(e),
                                    Ok((body, s8)) => Ok(
                                        (
                                            StmtV::For {
                                                init: Box::new(init),
                                                condition,
                                                post: Box::new(post),
                                                body,
                                                line: last_line(s),
                                            },
                                            s8,
                                        ),
                                    ),
                                },
                            },
                        },
                    },
                },
            },
        },
    }
}

/// `if` behind its keyword.
pub open spec fn if_stmt(s: ParV, b: nat) -> Parsed<StmtV>
    decreases b, 5nat,
{
    match expr(s, b) {
        Err(e) => Err(e),
        Ok((condition, s1)) => match block(s1, "expected '{' after if condition"@, b) {
            Err(e) => Err(e),
            Ok((then_branch, s2)) => match else_branch(s2, b) {
                Err(e) => Err(e),
                Ok((else_branch, s3)) => Ok(
                    (
                        StmtV::IfElse { condition, then_branch, else_branch, line: last_line(s) },
                        s3,
                    ),
                ),
            },
        },
    }
}

/// The other branch of an `if`, where it has one.
pub open spec fn else_branch(s: ParV, b: nat) -> Parsed<Seq<StmtV>>
    decreases b, 4nat,
{
    if !at(s, TokenKind::Else) {
        Ok((Seq::empty(), s))
    } else if ahead(s, 1, TokenKind::If) {
        if b == 0 {
            Err(too_deep(skip(s, 1)))
        } else {
            match if_stmt(skip(s, 2), (b - 1) as nat) {
                Err(e) => Err(e),
                Ok((st, s1)) => Ok((seq![st], s1)),
            }
        }
    } else {
        block(skip(s, 1), "expected '{' after else"@, b)
    }
}

/// `while` behind its keyword.
pub open spec fn while_stmt(s: ParV, b: nat) -> Parsed<StmtV>
    decreases b, 5nat,
{
    match expr(s, b) {
        Err(e) => Err(e),
        Ok((condition, s1)) => match loop_body(s1, "expected '{' after while condition"@, b) {
            Err(e) => Err(e),
            Ok((body, s2)) => Ok((StmtV::While { condition, body, line: last_line(s) }, s2)),
        },
    }
}

/// Statements between braces.
pub open spec fn block(s: ParV, message: Seq<char>, b: nat) -> Parsed<Seq<StmtV>>
    decreases b, 3nat,
{
    match expect(s, TokenKind::LBrace, message) {
        Err(e) => Err(e),
        Ok(s1) => block_rest(s1, Seq::empty(), b),
    }
}

pub open spec fn block_rest(s: ParV, stmts: Seq<StmtV>, b: nat) -> Parsed<Seq<StmtV>>
    decreases b, 2nat,
{
    if at(s, TokenKind::RBrace) {
        Ok((stmts, skip(s, 1)))
    } else if at(s, TokenKind::Eof) {
        Err(fault(s, "unexpected end of input in block"@))
    } else if b == 0 {
        Err(too_deep(s))
    } else {
        match stmt(s, b) {
            Err(e) => Err(e),
            Ok((st, s1)) => block_rest(s1, stmts.push(st), (b - 1) as nat),
        }
    }
}

// ---------------------------------------------------------------------------
// Programs.

/// The statements of a program, the rest of them from here.
pub open spec fn program_rest(s: ParV, stmts: Seq<StmtV>, b: nat) -> Parsed<Seq<StmtV>>
    decreases b,
{
    if at(s, TokenKind::Eof) {
        Ok((stmts, s))
    } else if b == 0 {
        Err(too_deep(s))
    } else {
        match stmt(s, b) {
            Err(e) => Err(e),
            Ok((st, s1)) => program_rest(s1, stmts.push(st), (b - 1) as nat),
        }
    }
}

/// The number of steps that a parser takes at most along one way through the grammar.
pub open spec fn budget() -> nat {
    0xFFFF_FFFF_FFFF_FFFF
}

/// The statements of a program. Every structure that it names is declared.
pub open spec fn program(s: ParV) -> Parsed<Seq<StmtV>> {
    match program_rest(s, Seq::empty(), budget()) {
        Err(e) => Err(e),
        Ok((stmts, s1)) => match s1.schemas.missing(0) {
            Some(site) => Err(
                ParseErrorV {
                    line: site.line,
                    message: "unknown struct schema '"@ + site.name + "'"@,
                    span: Some(site.span),
                    code: None,
                },
            ),
            None => Ok((stmts, s1)),
        },
    }
}

/// A parser at the start of its tokens.
pub open spec fn parse_start(config: ParseConfigV, ts: Seq<TokenV>) -> ParV {
    ParV {
        config,
        ts,
        pos: 0,
        names: NamesV::start(),
        hosts: HostNamesV::start(),
        schemas: SchemasV::start(),
        loop_depth: 0,
        body_depth: 0,
    }
}

/// The state once names of a session are bound, from position `i` on.
pub open spec fn predeclared(s: ParV, bindings: Seq<(Seq<char>, bool)>, i: int) -> Result<
    ParV,
    ParseErrorV,
>
    decreases bindings.len() - i,
{
    if i < 0 || i >= bindings.len() {
        Ok(s)
    } else if bound_slot(s.names.locals, bindings[i].0) is Some {
        Err(parse_error(1, "duplicate repl local '"@ + bindings[i].0 + "'"@))
    } else {
        match allocate(s) {
            Err(e) => Err(e),
            Ok((slot, s1)) => predeclared(
                with_names(
                    s1,
                    s1.names.bind_local(bindings[i].0, slot).with_mutable(slot, bindings[i].1),
                ),
                bindings,
                i + 1,
            ),
        }
    }
}

// ---------------------------------------------------------------------------
// Laws.

proof fn lemma_decl_pushed(list: Seq<FunctionDeclV>, decl: FunctionDeclV, i: int)
    requires
        0 <= i <= list.len(),
        decl_named(list, decl.name, i) is None,
    ensures
        decl_named(list.push(decl), decl.name, i) == Some(decl),
    decreases list.len() - i,
{
    if i < list.len() {
        lemma_decl_pushed(list, decl, i + 1);
    }
}

/// A call resolves to one declaration: once a name has been resolved, resolving it again
/// gives the same declaration and changes nothing.
pub proof fn law_functions_are_declared_once(s: ParV, name: Seq<char>, args: nat)
    ensures
        resolve_function(s, name, args) matches Ok((decl, s1)) ==> resolve_function(s1, name, args)
            == Ok::<(FunctionDeclV, ParV), ParseErrorV>((decl, s1)),
{
    reveal(resolve_function);
    reveal(define_builtin);
    reveal(define_external);
    reveal(new_function);
    if s.names.decl(name) is None {
        match resolve_function(s, name, args) {
            Ok((decl, s1)) => {
                lemma_decl_pushed(s.names.functions, decl, 0);
            },
            Err(_) => {},
        }
    }
}

/// A body takes a local from outside once: every use of one name in it means one slot.
pub proof fn law_locals_are_captured_once(s: ParV, name: Seq<char>)
    ensures
        get_local(s, name) matches Ok((slot, s1)) ==> get_local(s1, name) == Ok::<
            (LocalSlot, ParV),
            ParseErrorV,
        >((slot, s1)),
{
    reveal(get_local);
    reveal(capture_or_direct);
    match get_local(s, name) {
        Ok((slot, s1)) => {
            if s1.names.captures != s.names.captures {
                let by_name = s.names.captures.last().by_name;
                assert(s1.names.captures.last().by_name == by_name.push((name, slot)));
                assert(bound_slot(by_name.push((name, slot)), name) == Some(slot));
            }
        },
        Err(_) => {},
    }
}

/// Looking a name up, calling a function and binding a local take no name back.
pub proof fn law_lookups_only_add(s: ParV, name: Seq<char>, args: nat, declared: bool)
    ensures
        get_local(s, name) matches Ok((slot, s1)) ==> goes_on(s.names, s1.names),
        let_slot(s, name, declared) matches Ok((slot, s1)) ==> goes_on(s.names, s1.names),
        resolve_function(s, name, args) matches Ok((decl, s1)) ==> goes_on(s.names, s1.names),
{
    reveal(get_local);
    reveal(capture_or_direct);
    reveal(let_slot);
    reveal(let_mutability);
    reveal(resolve_function);
    reveal(define_builtin);
    reveal(define_external);
    reveal(new_function);
}

/// Where bindings need no leave to change, nothing is refused for want of it.
pub proof fn law_lax_languages_change_all(
    s: ParV,
    slot: LocalSlot,
    hint: Option<Seq<char>>,
    line: u32,
    action: Seq<char>,
)
    requires
        !s.config.enforce_mutable_bindings,
    ensures
        immutable(s, slot, hint, line, action) is None,
{
    reveal(immutable);
}

/// Bindings of names to the slots from zero on, in order.
spec fn numbered_bindings(bindings: Seq<(Seq<char>, bool)>, n: int) -> BindingsV {
    Seq::new(n as nat, |k: int| (bindings[k].0, k as u16))
}

proof fn lemma_numbered_name(bindings: Seq<(Seq<char>, bool)>, slot: u16, n: int, m: int)
    requires
        0 <= slot < m <= n <= 0xFFFF,
        n <= bindings.len(),
    ensures
        name_of(numbered_bindings(bindings, n), slot, m) == Some(bindings[slot as int].0),
    decreases m,
{
    let b = numbered_bindings(bindings, n);
    assert(b[m - 1] == (bindings[m - 1].0, (m - 1) as u16));
    if m - 1 > slot {
        lemma_numbered_name(bindings, slot, n, m - 1);
    }
}

proof fn lemma_numbered_by_slot(bindings: Seq<(Seq<char>, bool)>, slot: int, n: int)
    requires
        0 <= slot <= n <= 0xFFFF,
        n <= bindings.len(),
    ensures
        by_slot(numbered_bindings(bindings, n), slot, n) == numbered_bindings(bindings, n).skip(
            slot,
        ),
    decreases n - slot,
{
    let b = numbered_bindings(bindings, n);
    if slot < n {
        lemma_numbered_by_slot(bindings, slot + 1, n);
        lemma_numbered_name(bindings, slot as u16, n, n);
        assert(b.skip(slot) =~= seq![(bindings[slot].0, slot as u16)] + b.skip(slot + 1));
    } else {
        assert(b.skip(slot) =~= Seq::empty());
    }
}

proof fn lemma_predeclared(s: ParV, bindings: Seq<(Seq<char>, bool)>, i: int)
    requires
        0 <= i <= bindings.len(),
        i <= 0xFFFF,
        s.names.locals == numbered_bindings(bindings, i),
        s.names.next_local == i,
        s.names.mutable.len() == i,
        forall|k: int| 0 <= k < i ==> #[trigger] s.names.mutable[k] == bindings[k].1,
    ensures
        predeclared(s, bindings, i) matches Ok(t) ==> {
            &&& bindings.len() <= 0xFFFF
            &&& t.names.next_local == bindings.len()
            &&& t.names.locals == numbered_bindings(bindings, bindings.len() as int)
            &&& t.names.mutable.len() == bindings.len()
            &&& forall|k: int|
                0 <= k < bindings.len() ==> #[trigger] t.names.mutable[k] == bindings[k].1
        },
    decreases bindings.len() - i,
{
    if i < bindings.len() && bound_slot(s.names.locals, bindings[i].0) is None {
        match allocate(s) {
            Ok((slot, s1)) => {
                let names = s1.names.bind_local(bindings[i].0, slot).with_mutable(
                    slot,
                    bindings[i].1,
                );
                assert(names.locals =~= numbered_bindings(bindings, i + 1));
                assert(names.mutable.len() == i + 1);
                assert forall|k: int| 0 <= k < i + 1 implies #[trigger] names.mutable[k]
                    == bindings[k].1 by {
                    if k < i {
                        assert(s.names.mutable[k] == bindings[k].1);
                    }
                }
                lemma_predeclared(with_names(s1, names), bindings, i + 1);
            },
            Err(_) => {},
        }
    }
}

/// Locals that a parser is given come back from it: as many as there were, each under the slot
/// that its place gives it, in the same order and with the same leave to change.
pub proof fn law_predeclared_locals_come_back(
    config: ParseConfigV,
    ts: Seq<TokenV>,
    bindings: Seq<(Seq<char>, bool)>,
)
    ensures
        predeclared(parse_start(config, ts), bindings, 0) matches Ok(s) ==> {
            &&& s.names.next_local == bindings.len()
            &&& by_slot(s.names.locals, 0, s.names.next_local as int) == Seq::new(
                bindings.len(),
                |i: int| (bindings[i].0, i as u16),
            )
            &&& s.names.with_mutability() == bindings
        },
{
    let start = parse_start(config, ts);
    assert(start.names.locals =~= numbered_bindings(bindings, 0));
    lemma_predeclared(start, bindings, 0);
    match predeclared(start, bindings, 0) {
        Ok(s) => {
            let n = bindings.len() as int;
            lemma_numbered_by_slot(bindings, 0, n);
            let list = by_slot(s.names.locals, 0, n);
            assert(list =~= numbered_bindings(bindings, n));
            assert(list =~= Seq::new(bindings.len(), |i: int| (bindings[i].0, i as u16)));
            assert forall|i: int| 0 <= i < n implies s.names.with_mutability()[i]
                == bindings[i] by {
                assert(s.names.mutable[i] == bindings[i].1);
                assert(list[i] == (bindings[i].0, i as u16));
            }
            assert(s.names.with_mutability() =~= bindings);
        },
        Err(_) => {},
    }
}

} // verus!
