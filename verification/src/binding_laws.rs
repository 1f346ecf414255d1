//! What names mean in a source text: what binds a name, what it then stands for, and what may
//! be done with it.

use vstd::prelude::*;
use crate::builtins::{builtin_arity, builtin_index, BuiltinFunction};
use crate::grammar::{
    ahead, allocate, at, brace_entries, brace_entry, builtin_call, capture_or_direct, closure,
    declared_call, declared_type, define_external, expect, expr, fields_rest, function_content,
    function_impl, get_local, immutable, import_source, import_stmt, index_assign, language_call,
    let_mutability, let_slot, map_key, match_arm, match_arms, match_expr, match_pattern,
    named_schema, namespace_alias, new_function, param_slots, path_call, renamed, resolve_function,
    return_stmt, schema_fields, skip, struct_decl, terminator, text, type_schema, use_list,
    use_members, use_stmt, with_directs, with_names, EntryV, ParV, Parsed,
};
use crate::ir::{ExprV, FunctionDeclV, LocalSlot, PatternV, StmtV, ValueType};
use crate::lexer::TokenKind;
use crate::name_laws::{
    law_functions_are_found_by_name, law_names_lead_to_their_slots, law_slots_are_taken_in_turn,
};
use crate::names::{bound_slot, BindingsV};
use crate::namespaces::{extended, HostNamesV};
use crate::schema::{field_position, has_field, law_field_replaces, with_field, SchemaV};
use crate::shape_laws::law_names_stand_for_their_shape;
use crate::shapes::resolved_shape;

verus! {

// ---------------------------------------------------------------------------
// Locals.

/// A name that a `let` binds stands for the slot of the `let` behind it: the slot it had in the
/// same scope, else a new one. Where bindings must say whether they change, a new one changes
/// only if it says so.
pub proof fn law_lets_bind_their_names(
    s: ParV,
    name: Seq<char>,
    declared: bool,
    slot: LocalSlot,
    s1: ParV,
    hint: Option<Seq<char>>,
    line: u32,
    action: Seq<char>,
)
    requires
        let_slot(s, name, declared) == Parsed::<LocalSlot>::Ok((slot, s1)),
        s.names.scopes.len() > 0 || s.names.captures.len() == 0,
        s.names.mutable.len() == s.names.next_local,
    ensures
        get_local(s1, name) == Parsed::<LocalSlot>::Ok((slot, s1)),
        ({
            let known = if s.names.scopes.len() > 0 {
                bound_slot(s.names.scopes.last(), name)
            } else {
                bound_slot(s.names.locals, name)
            };
            &&& known is Some ==> known == Some(slot) && s1.names.next_local == s.names.next_local
            &&& known is None ==> slot == s.names.next_local && s1.names.next_local
                == s.names.next_local + 1
            &&& known is None && s.config.enforce_mutable_bindings ==> (immutable(
                s1,
                slot,
                hint,
                line,
                action,
            ) is None <==> declared)
        }),
        !s.config.enforce_mutable_bindings ==> immutable(s1, slot, hint, line, action) is None,
        s1.pos == s.pos,
{
    reveal(let_slot);
    reveal(let_mutability);
    reveal(get_local);
    reveal(capture_or_direct);
    reveal(immutable);
    if s.names.scopes.len() > 0 {
        law_names_lead_to_their_slots(s.names.scopes.last(), name, name, slot, slot);
    } else {
        law_names_lead_to_their_slots(s.names.locals, name, name, slot, slot);
    }
}

/// A `let` leaves what other names stand for.
pub proof fn law_lets_leave_other_names(
    s: ParV,
    name: Seq<char>,
    other: Seq<char>,
    declared: bool,
    slot: LocalSlot,
    s1: ParV,
)
    requires
        let_slot(s, name, declared) == Parsed::<LocalSlot>::Ok((slot, s1)),
        s.names.scopes.len() == 0,
        s.names.captures.len() == 0,
        other != name,
    ensures
        get_local(s, other) matches Ok((x, _)) ==> (get_local(s1, other) matches Ok((y, _)) && x
            == y),
        get_local(s, other) is Err ==> get_local(s1, other) is Err,
{
    reveal(let_slot);
    reveal(let_mutability);
    reveal(get_local);
    reveal(capture_or_direct);
    law_names_lead_to_their_slots(s.names.locals, name, other, slot, slot);
}

proof fn lemma_params(
    s: ParV,
    params: Seq<Seq<char>>,
    i: int,
    scope: BindingsV,
    slots: Seq<LocalSlot>,
    what: Seq<char>,
)
    requires
        0 <= i <= params.len(),
        slots.len() == i,
        scope.len() == i,
        forall|k: int|
            0 <= k < i ==> bound_slot(scope, #[trigger] params[k]) == Some(slots[k]),
        forall|k: int| 0 <= k < i ==> #[trigger] slots[k] == s.names.next_local - i + k,
    ensures
        param_slots(s, params, i, scope, slots, what) matches Ok(((b, r), s1)) ==> r.len()
            == params.len() && (forall|k: int|
            0 <= k < params.len() ==> bound_slot(b, #[trigger] params[k]) == Some(r[k])) && (forall|
            k: int,
        |
            0 <= k < params.len() ==> #[trigger] r[k] == s.names.next_local - i + k)
            && s1.names.next_local == s.names.next_local + (params.len() - i) && s1.pos == s.pos
            && s1.names.scopes == s.names.scopes && s1.names.captures == s.names.captures,
    decreases params.len() - i,
{
    if i < params.len() && bound_slot(scope, params[i]) is None {
        match allocate(s) {
            Ok((slot, s1)) => {
                let b = scope.push((params[i], slot));
                let r = slots.push(slot);
                assert forall|k: int| 0 <= k < i + 1 implies bound_slot(b, #[trigger] params[k])
                    == Some(r[k]) by {
                    law_names_lead_to_their_slots(scope, params[i], params[k], slot, slot);
                }
                lemma_params(s1, params, i + 1, b, r, what);
            },
            Err(_) => {},
        }
    }
}

/// Each parameter has a slot of its own, in order, and its name stands for it.
pub proof fn law_parameters_have_their_slots(
    s: ParV,
    params: Seq<Seq<char>>,
    what: Seq<char>,
    b: BindingsV,
    slots: Seq<LocalSlot>,
    s1: ParV,
    k: int,
)
    requires
        param_slots(s, params, 0, Seq::empty(), Seq::empty(), what) == Parsed::<
            (BindingsV, Seq<LocalSlot>),
        >::Ok(((b, slots), s1)),
        0 <= k < params.len(),
    ensures
        slots.len() == params.len(),
        slots[k] == s.names.next_local + k,
        bound_slot(b, params[k]) == Some(slots[k]),
        s1.names.next_local == s.names.next_local + params.len(),
{
    lemma_params(s, params, 0, Seq::empty(), Seq::empty(), what);
    assert(bound_slot(b, params[k]) == Some(slots[k]));
    assert(slots[k] == s.names.next_local - 0 + k);
}

/// A closure has its parameters, its body and what the body took from outside; behind it names
/// stand for what they stood for before.
pub proof fn law_closures_hold_what_they_are_made_of(
    s: ParV,
    params: Seq<Seq<char>>,
    scope: BindingsV,
    slots: Seq<LocalSlot>,
    s1: ParV,
    body: ExprV,
    s2: ParV,
    b: nat,
)
    requires
        param_slots(s, params, 0, Seq::empty(), Seq::empty(), "closure"@) == Parsed::<
            (BindingsV, Seq<LocalSlot>),
        >::Ok(((scope, slots), s1)),
        expr(with_names(s1, s1.names.entered(scope)), b) == Parsed::<ExprV>::Ok((body, s2)),
        s2.names.captures.len() > 0,
    ensures
        closure(s, params, b) matches Ok((ExprV::Closure(c), s3)) && c.params == slots && *c.body
            == body && c.captures == s2.names.captures.last().copies && s3.names.captures
            == s2.names.captures.drop_last() && s3.pos == s2.pos,
{
}

/// What a body uses from outside is taken into a slot of its own, once, and may change only if
/// what it was taken from may.
pub proof fn law_outside_names_are_taken(
    s: ParV,
    name: Seq<char>,
    source: LocalSlot,
    slot: LocalSlot,
    s1: ParV,
)
    requires
        s.names.captures.len() > 0,
        s.names.mutable.len() == s.names.next_local,
        source < s.names.next_local,
        bound_slot(s.names.captures.last().by_name, name) is None,
        capture_or_direct(s, name, source) == Parsed::<LocalSlot>::Ok((slot, s1)),
    ensures
        slot == s.names.next_local,
        s1.names.captures.last().copies == s.names.captures.last().copies.push((source, slot)),
        s1.names.is_mutable(slot) == s.names.is_mutable(source),
        capture_or_direct(s1, name, source) == Parsed::<LocalSlot>::Ok((slot, s1)),
{
    reveal(capture_or_direct);
    law_names_lead_to_their_slots(s.names.captures.last().by_name, name, name, slot, slot);
    law_slots_are_taken_in_turn(s.names, slot, source, true);
}

// ---------------------------------------------------------------------------
// Functions.

/// A function that is declared is found behind its declaration, for calls with as many arguments
/// as it takes, and refuses others.
pub proof fn law_declared_functions_are_called(
    s: ParV,
    name: Seq<char>,
    arity: u8,
    exported: bool,
    ty: ValueType,
    decl: FunctionDeclV,
    s1: ParV,
    args: Seq<ExprV>,
)
    requires
        s.names.decl(name) is None,
        new_function(s, name, arity, exported, ty) == Parsed::<FunctionDeclV>::Ok((decl, s1)),
    ensures
        decl.name == name && decl.arity == arity && decl.exported == exported && decl.return_type
            == ty && decl.index == s.names.next_function,
        args.len() == arity ==> declared_call(s1, name, args) == Parsed::<ExprV>::Ok(
            (ExprV::Call(decl.index, args), s1),
        ),
        args.len() != arity ==> declared_call(s1, name, args) is Err,
        bound_slot(s.names.locals, name) is None,
{
    reveal(new_function);
    reveal(resolve_function);
    reveal(declared_call);
    law_functions_are_found_by_name(s.names, decl, name);
}

/// A function that is not declared is one of the outside where those need no declaration, and
/// is refused else.
pub proof fn law_undeclared_functions(s: ParV, name: Seq<char>, args: Seq<ExprV>)
    requires
        s.names.decl(name) is None,
        name != "print"@,
    ensures
        !s.config.allow_implicit_externs ==> declared_call(s, name, args) is Err,
        declared_call(s, name, args) matches Ok((e, s1)) ==> s.config.allow_implicit_externs && e
            == ExprV::Call(s.names.next_function, args) && (s1.names.decl(name) matches Some(d)
            && d.arity == args.len() && d.exported && d.index == s.names.next_function),
{
    reveal(new_function);
    reveal(resolve_function);
    reveal(define_external);
    reveal(declared_call);
    match declared_call(s, name, args) {
        Ok((_, s1)) => {
            law_functions_are_found_by_name(s.names, s1.names.functions.last(), name);
        },
        Err(_) => {},
    }
}

/// A call of a built-in function takes as many arguments as the function has parameters; one
/// that takes a pattern may take flags behind them.
pub proof fn law_builtin_calls(s: ParV, b: BuiltinFunction, args: Seq<ExprV>)
    requires
        args.len() <= 255,
    ensures
        args.len() == builtin_arity(b) ==> builtin_call(s, b, args) == Ok::<
            ExprV,
            crate::errors::ParseErrorV,
        >(ExprV::Call(builtin_index(b), args)),
        builtin_call(s, b, args) matches Ok(e) ==> (e matches ExprV::Call(index, given) && index
            == builtin_index(b) && given.len() == builtin_arity(b)),
        args.len() < builtin_arity(b) || args.len() > builtin_arity(b) + 1 ==> builtin_call(
            s,
            b,
            args,
        ) is Err,
{
    reveal(builtin_call);
}

/// The calls that the language itself gives a meaning: `type` names the type of its argument, and
/// `assert` asserts it.
pub proof fn law_calls_of_the_language(s: ParV, x: ExprV, name: Seq<char>, args: Seq<ExprV>)
    ensures
        language_call(s, "type"@, seq![x]) == Parsed::<Option<ExprV>>::Ok(
            (Some(ExprV::Call(builtin_index(BuiltinFunction::TypeOf), seq![x])), s),
        ),
        language_call(s, "assert"@, seq![x])
            == Parsed::<Option<ExprV>>::Ok(
            (Some(ExprV::Call(builtin_index(BuiltinFunction::Assert), seq![x])), s),
        ),
        name != "print"@ && name != "println"@ && name != "type"@ && name != "assert"@
            ==> language_call(s, name, args) == Parsed::<Option<ExprV>>::Ok((None, s)),
        args.len() != 1 ==> language_call(s, "type"@, args) is Err,
{
    reveal(language_call);
    reveal(builtin_call);
    reveal_strlit("type");
    reveal_strlit("assert");
    reveal_strlit("print");
    reveal_strlit("println");
    assert("type"@[0] == 't' && "assert"@[0] == 'a' && "print"@[0] == 'p' && "println"@[0] == 'p');
}

// ---------------------------------------------------------------------------
// Names of the host.

/// `use` makes its namespace, under its own name or another, lead to what is in it.
pub proof fn law_used_namespaces_lead_into_them(s: ParV, member: Seq<char>)
    requires
        at(s, TokenKind::Ident),
        member.len() > 0,
    ensures
        at(skip(s, 1), TokenKind::Semicolon) ==> (use_stmt(s) matches Ok((_, s1))
            && s1.hosts.path_target(text(s), seq![member]) == Some(text(s) + "::"@ + member)
            && s1.pos == s.pos + 2),
        at(skip(s, 1), TokenKind::As) && at(skip(s, 2), TokenKind::Ident) && at(
            skip(s, 3),
            TokenKind::Semicolon,
        ) ==> (use_stmt(s) matches Ok((_, s1)) && s1.hosts.path_target(
            text(skip(s, 2)),
            seq![member],
        ) == Some(text(s) + "::"@ + member)),
{
    reveal(use_stmt);
    reveal(expect);
    reveal_with_fuel(extended, 2);
}

/// `use` of all of a namespace makes every name lead into it, as long as it is the only one.
pub proof fn law_used_wildcards_lead_into_their_namespace(
    s: ParV,
    namespace: Seq<char>,
    line: u32,
    name: Seq<char>,
)
    requires
        at(s, TokenKind::Star),
        at(skip(s, 1), TokenKind::Semicolon),
        s.hosts.wildcards.len() == 0,
        !s.hosts.direct.dom().contains(name),
    ensures
        use_members(s, namespace, line) matches Ok((_, s1)) && s1.hosts.direct_target(name) == Some(
            namespace + "::"@ + name,
        ),
{
    reveal(use_members);
    reveal(expect);
    let t = crate::grammar::with_hosts(skip(s, 1), s.hosts.with_wildcard(namespace));
    assert(at(t, TokenKind::Semicolon));
    assert(!s.hosts.wildcards.contains(namespace));
}

/// A name in the list of a `use`, or the name that it is given there, leads to the function of
/// the namespace.
pub proof fn law_used_names_lead_to_their_function(
    s: ParV,
    namespace: Seq<char>,
    imported: Seq<char>,
    local: Seq<char>,
    s1: ParV,
)
    requires
        renamed(s, "expected host function name in use list"@) == Parsed::<
            (Seq<char>, Seq<char>),
        >::Ok(((imported, local), s1)),
        !at(s1, TokenKind::Comma),
        !s1.hosts.direct.dom().contains(local),
    ensures
        use_list(s, namespace) matches Ok(s2) && s2.hosts.direct_target(local) == Some(
            namespace + "::"@ + imported,
        ) && s2.pos == s1.pos,
{
}

/// A name that is given another stands for itself under the other, else under its own.
pub proof fn law_names_may_be_given_others(s: ParV, message: Seq<char>)
    requires
        at(s, TokenKind::Ident),
    ensures
        !at(skip(s, 1), TokenKind::As) ==> renamed(s, message) == Parsed::<
            (Seq<char>, Seq<char>),
        >::Ok(((text(s), text(s)), skip(s, 1))),
        at(skip(s, 1), TokenKind::As) && at(skip(s, 2), TokenKind::Ident) ==> (renamed(s, message)
            matches Ok(((a, b), s1)) && a == text(s) && b == text(skip(s, 2)) && s1.pos == s.pos
            + 3),
{
}

proof fn lemma_directs(
    hosts: HostNamesV,
    module: Seq<char>,
    names: Seq<(Seq<char>, Seq<char>)>,
    i: int,
    k: int,
)
    requires
        0 <= i <= k < names.len(),
        forall|j: int| k < j < names.len() ==> (#[trigger] names[j]).1 != names[k].1,
    ensures
        with_directs(hosts, module, names, i).direct_target(names[k].1) == Some(
            module + "::"@ + names[k].0,
        ),
    decreases names.len() - i,
{
    let next = hosts.with_direct(names[i].1, module + "::"@ + names[i].0);
    if i < k {
        lemma_directs(next, module, names, i + 1, k);
    } else {
        lemma_directs_keep(next, module, names, i + 1, names[k].1);
    }
}

proof fn lemma_directs_keep(
    hosts: HostNamesV,
    module: Seq<char>,
    names: Seq<(Seq<char>, Seq<char>)>,
    i: int,
    name: Seq<char>,
)
    requires
        0 <= i <= names.len(),
        forall|j: int| i <= j < names.len() ==> (#[trigger] names[j]).1 != name,
        hosts.direct.dom().contains(name),
    ensures
        with_directs(hosts, module, names, i).direct.dom().contains(name),
        with_directs(hosts, module, names, i).direct[name] == hosts.direct[name],
    decreases names.len() - i,
{
    if i < names.len() {
        lemma_directs_keep(
            hosts.with_direct(names[i].1, module + "::"@ + names[i].0),
            module,
            names,
            i + 1,
            name,
        );
    }
}

/// The names that an import takes from a namespace of the host lead into it, the last of equal
/// ones.
pub proof fn law_imported_names_lead_to_their_function(
    hosts: HostNamesV,
    module: Seq<char>,
    names: Seq<(Seq<char>, Seq<char>)>,
    k: int,
)
    requires
        0 <= k < names.len(),
        forall|j: int| k < j < names.len() ==> (#[trigger] names[j]).1 != names[k].1,
    ensures
        with_directs(hosts, module, names, 0).direct_target(names[k].1) == Some(
            module + "::"@ + names[k].0,
        ),
{
    lemma_directs(hosts, module, names, 0, k);
}

/// A module that is imported whole, under a name, makes that name its namespace where the module
/// is one of the host's.
pub proof fn law_imported_modules_are_namespaces(
    s: ParV,
    alias: Seq<char>,
    s1: ParV,
    module: Seq<char>,
    s2: ParV,
    member: Seq<char>,
)
    requires
        at(s, TokenKind::Star),
        namespace_alias(skip(s, 1)) == Parsed::<Seq<char>>::Ok((alias, s1)),
        import_source(s1) == Parsed::<Seq<char>>::Ok((module, s2)),
        crate::text::valid_ident(module),
        member.len() > 0,
    ensures
        import_stmt(s) matches Ok((st, s3)) && st is Noop && s3.hosts.path_target(
            alias,
            seq![member],
        ) == Some(module + "::"@ + member) && s3.pos == s2.pos,
{
    reveal(import_stmt);
    reveal_with_fuel(extended, 2);
}

/// A call through a namespace of built-in functions calls the one of that name.
pub proof fn law_builtin_namespaces(
    s: ParV,
    name: Seq<char>,
    module: Seq<char>,
    member: Seq<char>,
    b: BuiltinFunction,
    args: Seq<ExprV>,
)
    requires
        s.hosts.namespaces.dom().contains(name),
        s.hosts.namespaces[name] == module,
        s.config.builtins.has(module),
        s.config.builtins.member(module, member) == Some(b),
        args.len() == builtin_arity(b),
        args.len() <= 255,
    ensures
        path_call(s, name, seq![member], args) == Parsed::<ExprV>::Ok(
            (ExprV::Call(builtin_index(b), args), s),
        ),
{
    reveal(path_call);
    reveal(crate::grammar::builtin_member_call);
    reveal(builtin_call);
}

// ---------------------------------------------------------------------------
// Matches, maps and parts.

/// A pattern is the literal that is written, `_` is none, and parentheses change nothing.
pub proof fn law_patterns(s: ParV, inner: Option<PatternV>, s1: ParV, b: nat)
    requires
        b > 0,
    ensures
        at(s, TokenKind::Int) ==> match_pattern(s, b) == Parsed::<Option<PatternV>>::Ok(
            (Some(PatternV::Int(s.ts[s.pos].number)), skip(s, 1)),
        ),
        at(s, TokenKind::String) ==> match_pattern(s, b) == Parsed::<Option<PatternV>>::Ok(
            (Some(PatternV::Str(text(s))), skip(s, 1)),
        ),
        at(s, TokenKind::Null) ==> match_pattern(s, b) == Parsed::<Option<PatternV>>::Ok(
            (Some(PatternV::Null), skip(s, 1)),
        ),
        at(s, TokenKind::Ident) && text(s) == "_"@ ==> match_pattern(s, b) == Parsed::<
            Option<PatternV>,
        >::Ok((None, skip(s, 1))),
        at(s, TokenKind::LParen) && match_pattern(skip(s, 1), (b - 1) as nat) == Parsed::<
            Option<PatternV>,
        >::Ok((inner, s1)) && at(s1, TokenKind::RParen) ==> match_pattern(s, b) == Parsed::<
            Option<PatternV>,
        >::Ok((inner, skip(s1, 1))),
{
    reveal(expect);
}

/// An arm is its pattern and its value; the arms stay in order, and the one without a pattern is
/// for what no other is for.
pub proof fn law_arms(
    s: ParV,
    arms: Seq<(PatternV, ExprV)>,
    default: Option<ExprV>,
    pattern: Option<PatternV>,
    s1: ParV,
    e: ExprV,
    s2: ParV,
    b: nat,
)
    requires
        b > 0,
    ensures
        match_pattern(s, b) == Parsed::<Option<PatternV>>::Ok((pattern, s1)) && at(
            s1,
            TokenKind::FatArrow,
        ) && expr(skip(s1, 1), b) == Parsed::<ExprV>::Ok((e, s2)) ==> {
            &&& match_arm(s, b) == Parsed::<(Option<PatternV>, ExprV)>::Ok(((pattern, e), s2))
            &&& at(s2, TokenKind::Comma) && default is None && pattern is Some && !at(
                s,
                TokenKind::RBrace,
            ) && !at(s, TokenKind::Eof) ==> match_arms(s, arms, default, b) == match_arms(
                skip(s2, 1),
                arms.push((pattern->0, e)),
                default,
                (b - 1) as nat,
            )
            &&& at(s2, TokenKind::Comma) && default is None && pattern is None && !at(
                s,
                TokenKind::RBrace,
            ) && !at(s, TokenKind::Eof) ==> match_arms(s, arms, default, b) == match_arms(
                skip(s2, 1),
                arms,
                Some(e),
                (b - 1) as nat,
            )
        },
        at(s, TokenKind::RBrace) && default is Some ==> match_arms(s, arms, default, b) == Parsed::<
            (Seq<(PatternV, ExprV)>, ExprV),
        >::Ok(((arms, default->0), skip(s, 1))),
        at(s, TokenKind::RBrace) && default is None ==> match_arms(s, arms, default, b) is Err,
{
    reveal(expect);
}

/// A match has its value, its arms and its default where they stand, and two slots of its own.
pub proof fn law_matches(
    s: ParV,
    v: ExprV,
    s1: ParV,
    arms: Seq<(PatternV, ExprV)>,
    d: ExprV,
    s3: ParV,
    b: nat,
)
    requires
        expr(s, b) == Parsed::<ExprV>::Ok((v, s1)),
        at(s1, TokenKind::LBrace),
        s1.names.next_local < 0xFFFE,
        ({
            let inside = with_names(skip(s1, 1), s1.names.allocated().allocated());
            match_arms(inside, Seq::empty(), None, b) == Parsed::<
                (Seq<(PatternV, ExprV)>, ExprV),
            >::Ok(((arms, d), s3))
        }),
    ensures
        match_expr(s, b) matches Ok((e, s4)) && s4 == s3 && (e matches ExprV::Match {
            value_slot,
            result_slot,
            value,
            arms: a,
            default,
        } && *value == v && a == arms && *default == d && value_slot == s1.names.next_local
            && result_slot == s1.names.next_local + 1),
{
    reveal(expect);
}

/// Entries between braces are kept in order; with a key among them they are a map, else an array.
pub proof fn law_braces(
    s: ParV,
    entries: Seq<EntryV>,
    entry: EntryV,
    s1: ParV,
    b: nat,
)
    requires
        b > 0,
    ensures
        brace_entry(s, b) == Parsed::<EntryV>::Ok((entry, s1)) ==> {
            &&& at(s1, TokenKind::RBrace) ==> brace_entries(s, entries, b) == Parsed::<
                Seq<EntryV>,
            >::Ok((entries.push(entry), skip(s1, 1)))
            &&& at(s1, TokenKind::Comma) && !ahead(s1, 1, TokenKind::RBrace) ==> brace_entries(
                s,
                entries,
                b,
            ) == brace_entries(skip(s1, 1), entries.push(entry), (b - 1) as nat)
        },
        at(s, TokenKind::Ident) || at(s, TokenKind::String) ==> map_key(s) == Parsed::<ExprV>::Ok(
            (ExprV::Str(text(s)), skip(s, 1)),
        ),
        at(s, TokenKind::Int) ==> map_key(s) == Parsed::<ExprV>::Ok(
            (ExprV::Int(s.ts[s.pos].number), skip(s, 1)),
        ),
{
    reveal(expect);
    reveal(map_key);
}

/// An assignment to a part of a local sets that part of what the local holds, and puts the result
/// into the local; one that may not change is refused.
pub proof fn law_assignments_to_parts(
    s: ParV,
    key: ExprV,
    s2: ParV,
    v: ExprV,
    s4: ParV,
    slot: LocalSlot,
    s6: ParV,
    b: nat,
)
    requires
        at(s, TokenKind::Ident),
        crate::grammar::assign_key(skip(s, 1), b) == Parsed::<ExprV>::Ok((key, s2)),
        at(s2, TokenKind::Equal),
        expr(skip(s2, 1), b) == Parsed::<ExprV>::Ok((v, s4)),
        at(s4, TokenKind::Semicolon),
        get_local(skip(s4, 1), text(s)) == Parsed::<LocalSlot>::Ok((slot, s6)),
    ensures
        !s6.config.enforce_mutable_bindings || s6.names.is_mutable(slot) ==> (index_assign(s, b)
            matches Ok((st, s7)) && s7 == s6 && (st matches StmtV::Assign { index, expr, .. }
            && index == slot && expr == ExprV::Call(
            builtin_index(BuiltinFunction::SetAt),
            seq![ExprV::Var(slot), key, v],
        ))),
        s6.config.enforce_mutable_bindings && !s6.names.is_mutable(slot) ==> index_assign(s, b)
            is Err,
{
    reveal(expect);
    reveal(terminator);
    reveal(immutable);
}

/// `return` gives the value that is written, and nothing where none is; it stands in bodies only.
pub proof fn law_returns(s: ParV, e: ExprV, s1: ParV, b: nat)
    ensures
        s.body_depth == 0 ==> return_stmt(s, b) is Err,
        s.body_depth > 0 && at(skip(s, 1), TokenKind::Semicolon) ==> (return_stmt(s, b) matches Ok(
            (st, s2),
        ) && s2.pos == s.pos + 2 && (st matches StmtV::Expr { expr, .. } && expr == ExprV::Null)),
        s.body_depth > 0 && !at(skip(s, 1), TokenKind::Semicolon) && !at(
            skip(s, 1),
            TokenKind::RBrace,
        ) && !at(skip(s, 1), TokenKind::Eof) && expr(skip(s, 1), b) == Parsed::<ExprV>::Ok((e, s1))
            && at(s1, TokenKind::Semicolon) ==> (return_stmt(s, b) matches Ok((st, s2)) && s2
            == skip(s1, 1) && (st matches StmtV::Expr { expr, .. } && expr == e)),
{
    reveal(terminator);
}

// ---------------------------------------------------------------------------
// Functions and structures.

/// A function has its parameters, its body and what the body took from outside; behind it names
/// stand for what they stood for before.
pub proof fn law_functions_hold_what_they_are_made_of(
    s: ParV,
    params: Seq<Seq<char>>,
    scope: BindingsV,
    slots: Seq<LocalSlot>,
    s1: ParV,
    stmts: Seq<StmtV>,
    value: ExprV,
    s2: ParV,
    block: bool,
    b: nat,
)
    requires
        s.body_depth < usize::MAX,
        param_slots(s, params, 0, Seq::empty(), Seq::empty(), "function"@) == Parsed::<
            (BindingsV, Seq<LocalSlot>),
        >::Ok(((scope, slots), s1)),
        s1.body_depth == s.body_depth,
        function_content(
            ParV {
                names: s1.names.entered(scope),
                body_depth: (s.body_depth + 1) as usize,
                ..s1
            },
            block,
            b,
        ) == Parsed::<(Seq<StmtV>, ExprV)>::Ok(((stmts, value), s2)),
        s2.names.captures.len() > 0,
    ensures
        function_impl(s, params, block, b) matches Ok((f, s3)) && f.params == slots && f.body_stmts
            == stmts && f.body_expr == value && f.captures == s2.names.captures.last().copies
            && s3.names.captures == s2.names.captures.drop_last() && s3.body_depth == s.body_depth
            && s3.pos == s2.pos,
{
}

/// A declared type is what is written: an array of its element type, an object of its fields, a
/// name for a simple type that type, and another name the structure of that name.
pub proof fn law_declared_types(
    s: ParV,
    element: SchemaV,
    s1: ParV,
    fields: Seq<(Seq<char>, SchemaV)>,
    b: nat,
)
    requires
        b > 0,
    ensures
        at(s, TokenKind::LBracket) && type_schema(skip(s, 1), (b - 1) as nat) == Parsed::<
            SchemaV,
        >::Ok((element, s1)) && at(s1, TokenKind::RBracket) ==> type_schema(s, b) == Parsed::<
            SchemaV,
        >::Ok((SchemaV::Array(Box::new(element)), skip(s1, 1))),
        at(s, TokenKind::LBrace) && schema_fields(skip(s, 1), (b - 1) as nat) == Parsed::<
            Seq<(Seq<char>, SchemaV)>,
        >::Ok((fields, s1)) && at(s1, TokenKind::RBrace) ==> type_schema(s, b) == Parsed::<
            SchemaV,
        >::Ok((SchemaV::Object(fields), skip(s1, 1))),
        at(s, TokenKind::Null) ==> type_schema(s, b) == Parsed::<SchemaV>::Ok(
            (SchemaV::Null, skip(s, 1)),
        ),
        at(s, TokenKind::Ident) ==> (type_schema(s, b) matches Ok((found, s2)) && s2.pos == s.pos
            + 1 && match declared_type(text(s)) {
            Some(ValueType::Int) => found is Int,
            Some(ValueType::Float) => found is Float,
            Some(ValueType::Bool) => found is Bool,
            Some(ValueType::String) => found is Str,
            Some(ValueType::Array) => found is Array,
            Some(ValueType::Mapping) => found is Mapping,
            Some(ValueType::Unknown) => found is Unknown,
            _ => found == SchemaV::Named(text(s)),
        }),
{
    reveal(expect);
    reveal(named_schema);
}

/// A field stands under its name with its type, the last of those of one name; the fields are
/// read one behind the other.
pub proof fn law_declared_fields(
    s: ParV,
    fields: Seq<(Seq<char>, SchemaV)>,
    schema: SchemaV,
    s1: ParV,
    b: nat,
)
    requires
        at(s, TokenKind::Ident),
        at(skip(s, 1), TokenKind::Colon),
        type_schema(skip(s, 2), b) == Parsed::<SchemaV>::Ok((schema, s1)),
        b > 0,
    ensures
        !at(s1, TokenKind::Comma) ==> fields_rest(s, fields, b) == Parsed::<
            Seq<(Seq<char>, SchemaV)>,
        >::Ok((with_field(fields, text(s), schema), s1)),
        at(s1, TokenKind::Comma) && !ahead(s1, 1, TokenKind::RBrace) ==> fields_rest(s, fields, b)
            == fields_rest(skip(s1, 1), with_field(fields, text(s), schema), (b - 1) as nat),
        has_field(with_field(fields, text(s), schema), text(s)),
{
    reveal(expect);
    assert(skip(skip(s, 1), 1) == skip(s, 2));
    law_field_replaces(fields, text(s), schema);
}

/// The name of a structure stands for its fields behind its declaration, and is declared once.
pub proof fn law_structures_are_declared(
    s: ParV,
    fields: Seq<(Seq<char>, SchemaV)>,
    s1: ParV,
    b: nat,
)
    requires
        at(s, TokenKind::Ident),
        at(skip(s, 1), TokenKind::LBrace),
        schema_fields(skip(s, 2), b) == Parsed::<Seq<(Seq<char>, SchemaV)>>::Ok((fields, s1)),
        at(s1, TokenKind::RBrace),
    ensures
        has_field(s1.schemas.structs, text(s)) ==> struct_decl(s, b) is Err,
        !has_field(s1.schemas.structs, text(s)) ==> (struct_decl(s, b) matches Ok((st, s2)) && st
            is Noop && s2.pos == s1.pos + 1 && resolved_shape(
            s2.schemas.structs,
            SchemaV::Named(text(s)),
        ) == SchemaV::Object(fields)),
{
    reveal(expect);
    assert(skip(skip(s, 1), 1) == skip(s, 2));
    if !has_field(s1.schemas.structs, text(s)) {
        let after = s1.schemas.structs.push((text(s), SchemaV::Object(fields)));
        assert(after[after.len() - 1].0 == text(s));
        assert(field_position(after, text(s), after.len() as int) == after.len() - 1);
        law_names_stand_for_their_shape(after, text(s), SchemaV::Unknown);
    }
}

} // verus!
