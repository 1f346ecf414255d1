//! What the shorter ways to write a program mean: comparisons, slices, lookups, literals and
//! texts have the values that one expects of them.

use vstd::prelude::*;
use crate::builtins::{builtin_index, law_call_index_round_trip, BuiltinFunction};
use crate::generation::GenEnvV;
use crate::grammar::{
    allocate, array_from, array_of, bind_hidden, binary, call0, call1, call2, call3, declared_type,
    flagged_pattern, if_else, non_strict, optional_index_lookup, optional_lookup,
    optional_map_lookup, plain_text, slice_body, slice_of, spaced, to_text, type_check,
    type_pattern, with_newline, ParV, Parsed,
};
use crate::ir::{BinOp, ExprV, PatternV, StmtV, ValueType};
use crate::machine::{fits, is_honest, ran, ran_all, value_of, values_of, Host};
use crate::values::{kind_name, Val};

verus! {

/// Whether the built-in functions are not those of the program.
pub open spec fn builtins_stand(env: GenEnvV) -> bool {
    forall|b: BuiltinFunction| !env.types.impls.dom().contains(#[trigger] builtin_index(b))
}

/// What a built-in function gives of one argument.
pub open spec fn given1(host: Host, b: BuiltinFunction, x: Val) -> Option<Val> {
    host(builtin_index(b), seq![x])
}

/// What a built-in function gives of two arguments.
pub open spec fn given2(host: Host, b: BuiltinFunction, x: Val, y: Val) -> Option<Val> {
    host(builtin_index(b), seq![x, y])
}

/// What a built-in function gives of three arguments.
pub open spec fn given3(host: Host, b: BuiltinFunction, x: Val, y: Val, z: Val) -> Option<Val> {
    host(builtin_index(b), seq![x, y, z])
}

/// Whether a table has a key.
pub open spec fn has_key(m: Seq<(Val, Val)>, k: Val) -> bool {
    exists|i: int| 0 <= i < m.len() && (#[trigger] m[i]).0 == k
}

/// What the host does with texts, arrays and tables.
pub open spec fn keeps_containers(host: Host) -> bool {
    &&& is_honest(host)
    &&& forall|t: Seq<char>| #[trigger]
        given1(host, BuiltinFunction::Len, Val::Str(t)) == Some(
            Val::Int(t.len() as int),
        )
    &&& forall|xs: Seq<Val>| #[trigger]
        given1(host, BuiltinFunction::Len, Val::Array(xs)) == Some(
            Val::Int(xs.len() as int),
        )
    &&& forall|m: Seq<(Val, Val)>| #[trigger]
        given1(host, BuiltinFunction::Len, Val::Table(m)) == Some(
            Val::Int(m.len() as int),
        )
    &&& host(builtin_index(BuiltinFunction::ArrayNew), Seq::empty()) == Some(
        Val::Array(Seq::empty()),
    )
    &&& forall|xs: Seq<Val>, v: Val| #[trigger]
        given2(host, BuiltinFunction::ArrayPush, Val::Array(xs), v) == Some(
            Val::Array(xs.push(v)),
        )
    &&& forall|xs: Seq<Val>, i: int|
        0 <= i < xs.len() ==> #[trigger] given2(
            host,
            BuiltinFunction::Get,
            Val::Array(xs),
            Val::Int(i),
        ) == Some(xs[i])
    &&& forall|xs: Seq<Val>, a: int, n: int|
        0 <= a && 0 <= n && a + n <= xs.len() ==> #[trigger] given3(
            host,
            BuiltinFunction::Slice,
            Val::Array(xs),
            Val::Int(a),
            Val::Int(n),
        ) == Some(Val::Array(xs.subrange(a, a + n)))
    &&& forall|m: Seq<(Val, Val)>, k: Val, v: Val|
        (#[trigger] given3(host, BuiltinFunction::SetAt, Val::Table(m), k, v)) matches Some(
            Val::Table(r),
        ) && (r.len() == m.len() <==> has_key(m, k))
    &&& forall|x: Seq<char>, y: Seq<char>| #[trigger]
        given2(host, BuiltinFunction::Concat, Val::Str(x), Val::Str(y)) == Some(
            Val::Str(x + y),
        )
}

// ---------------------------------------------------------------------------
// Calls of built-in functions.

proof fn lemma_call0(
    env: GenEnvV,
    host: Host,
    b: BuiltinFunction,
    locals: Seq<Val>,
    d: nat,
    fuel: nat,
)
    requires
        builtins_stand(env),
    ensures
        host(builtin_index(b), Seq::empty()) matches Some(r) ==> value_of(
            env,
            host,
            call0(b),
            locals,
            d + 1,
            fuel,
        ) == Some((r, locals)),
{
    law_call_index_round_trip(b, builtin_index(b));
    assert(values_of(env, host, Seq::empty(), 0, locals, d, fuel) == Some(
        (Seq::<Val>::empty(), locals),
    ));
}

proof fn lemma_call1(
    env: GenEnvV,
    host: Host,
    b: BuiltinFunction,
    x: ExprV,
    v: Val,
    locals: Seq<Val>,
    l1: Seq<Val>,
    d: nat,
    fuel: nat,
)
    requires
        builtins_stand(env),
        value_of(env, host, x, locals, d, fuel) == Some((v, l1)),
    ensures
        given1(host, b, v) matches Some(r) ==> value_of(
            env,
            host,
            call1(b, x),
            locals,
            d + 1,
            fuel,
        ) == Some((r, l1)),
{
    law_call_index_round_trip(b, builtin_index(b));
    let args = seq![x];
    assert(values_of(env, host, args, 1, l1, d, fuel) == Some((Seq::<Val>::empty(), l1)));
    assert(seq![v] + Seq::<Val>::empty() =~= seq![v]);
    assert(values_of(env, host, args, 0, locals, d, fuel) == Some((seq![v], l1)));
}

proof fn lemma_call2(
    env: GenEnvV,
    host: Host,
    b: BuiltinFunction,
    x: ExprV,
    y: ExprV,
    v: Val,
    w: Val,
    locals: Seq<Val>,
    l1: Seq<Val>,
    l2: Seq<Val>,
    d: nat,
    fuel: nat,
)
    requires
        builtins_stand(env),
        value_of(env, host, x, locals, d, fuel) == Some((v, l1)),
        value_of(env, host, y, l1, d, fuel) == Some((w, l2)),
    ensures
        given2(host, b, v, w) matches Some(r) ==> value_of(
            env,
            host,
            call2(b, x, y),
            locals,
            d + 1,
            fuel,
        ) == Some((r, l2)),
{
    law_call_index_round_trip(b, builtin_index(b));
    let args = seq![x, y];
    assert(values_of(env, host, args, 2, l2, d, fuel) == Some((Seq::<Val>::empty(), l2)));
    assert(seq![w] + Seq::<Val>::empty() =~= seq![w]);
    assert(values_of(env, host, args, 1, l1, d, fuel) == Some((seq![w], l2)));
    assert(seq![v] + seq![w] =~= seq![v, w]);
    assert(values_of(env, host, args, 0, locals, d, fuel) == Some((seq![v, w], l2)));
}

proof fn lemma_call3(
    env: GenEnvV,
    host: Host,
    b: BuiltinFunction,
    x: ExprV,
    y: ExprV,
    z: ExprV,
    v: Val,
    w: Val,
    u: Val,
    locals: Seq<Val>,
    d: nat,
    fuel: nat,
)
    requires
        builtins_stand(env),
        value_of(env, host, x, locals, d, fuel) == Some((v, locals)),
        value_of(env, host, y, locals, d, fuel) == Some((w, locals)),
        value_of(env, host, z, locals, d, fuel) == Some((u, locals)),
    ensures
        given3(host, b, v, w, u) matches Some(r) ==> value_of(
            env,
            host,
            call3(b, x, y, z),
            locals,
            d + 1,
            fuel,
        ) == Some((r, locals)),
{
    law_call_index_round_trip(b, builtin_index(b));
    let args = seq![x, y, z];
    assert(values_of(env, host, args, 3, locals, d, fuel) == Some((Seq::<Val>::empty(), locals)));
    assert(seq![u] + Seq::<Val>::empty() =~= seq![u]);
    assert(values_of(env, host, args, 2, locals, d, fuel) == Some((seq![u], locals)));
    assert(seq![w] + seq![u] =~= seq![w, u]);
    assert(values_of(env, host, args, 1, locals, d, fuel) == Some((seq![w, u], locals)));
    assert(seq![v] + seq![w, u] =~= seq![v, w, u]);
    assert(values_of(env, host, args, 0, locals, d, fuel) == Some((seq![v, w, u], locals)));
}

// ---------------------------------------------------------------------------
// Comparisons.

/// `<=` holds of integers of which the first is not larger, `>=` of those of which it is not
/// smaller; both sides are evaluated once, the left one first.
pub proof fn law_ordered_comparisons(
    env: GenEnvV,
    host: Host,
    s: ParV,
    s2: ParV,
    op: BinOp,
    l: ExprV,
    r: ExprV,
    e: ExprV,
    a: int,
    b: int,
    locals: Seq<Val>,
    l1: Seq<Val>,
    l2: Seq<Val>,
    depth: nat,
    fuel: nat,
)
    requires
        op is Lt || op is Gt,
        non_strict(s, op, l, r) == Parsed::<ExprV>::Ok((e, s2)),
        depth > 1,
        value_of(env, host, l, locals, depth, fuel) == Some((Val::Int(a), l1)),
        value_of(
            env,
            host,
            r,
            l1.update(s.names.next_local as int, Val::Int(a)),
            depth,
            fuel,
        ) == Some((Val::Int(b), l2)),
        s.names.next_local + 1 < l2.len(),
        l2[s.names.next_local as int] == Val::Int(a),
    ensures
        value_of(env, host, e, locals, depth + 2, fuel) matches Some((v, _)) && v == Val::Bool(
            if op is Lt {
                a <= b
            } else {
                a >= b
            },
        ),
{
    reveal(non_strict);
    reveal(allocate);
    match e {
        ExprV::Block(stmts, x) => {
            let d = depth + 1;
            let first = stmts[0];
            let second = stmts[1];
            let x1 = s.names.next_local;
            let x2 = (s.names.next_local + 1) as u16;
            assert(first matches StmtV::Let { index, expr, .. } && index == x1 && expr == l);
            assert(second matches StmtV::Let { index, expr, .. } && index == x2 && expr == r);
            let m1 = l1.update(x1 as int, Val::Int(a));
            let m2 = l2.update(x2 as int, Val::Int(b));
            assert(ran(env, host, second, m1, d, fuel) matches Some((_, vs, m)) && vs.len() == 0
                && m == m2);
            assert(ran_all(env, host, stmts, 2, m2, d, fuel) matches Some((_, vs, m)) && vs.len()
                == 0 && m == m2);
            assert(ran_all(env, host, stmts, 1, m1, d, fuel) matches Some((o, vs, m)) && vs.len()
                == 0 && m == m2 && o is Next);
            assert(ran(env, host, first, locals, d, fuel) matches Some((_, vs, m)) && vs.len() == 0
                && m == m1);
            assert(ran_all(env, host, stmts, 0, locals, d, fuel) matches Some((o, vs, m))
                && vs.len() == 0 && m == m2 && o is Next);
            let lx = ExprV::Var(x1);
            let rx = ExprV::Var(x2);
            let k = (d - 2) as nat;
            assert(value_of(env, host, lx, m2, k, fuel) == Some((Val::Int(a), m2)));
            assert(value_of(env, host, rx, m2, k, fuel) == Some((Val::Int(b), m2)));
            let p = binary(op, lx, rx);
            let q = binary(BinOp::Eq, lx, rx);
            assert(value_of(env, host, p, m2, k + 1, fuel) == Some(
                (
                    Val::Bool(
                        if op is Lt {
                            a < b
                        } else {
                            a > b
                        },
                    ),
                    m2,
                ),
            ));
            assert(value_of(env, host, q, m2, k + 1, fuel) == Some((Val::Bool(a == b), m2)));
            assert(value_of(env, host, binary(BinOp::Or, p, q), m2, d, fuel) matches Some((v, _))
                && v == Val::Bool(
                if op is Lt {
                    a <= b
                } else {
                    a >= b
                },
            ));
        },
        _ => {},
    }
}

// ---------------------------------------------------------------------------
// Arrays.

/// Whether an expression has a value at every depth and leaves the locals.
pub open spec fn stays(env: GenEnvV, host: Host, e: ExprV, v: Val, locals: Seq<Val>, fuel: nat)
    -> bool {
    forall|d: nat| d > 0 ==> #[trigger] value_of(env, host, e, locals, d, fuel) == Some((v, locals))
}

proof fn lemma_array_from(
    env: GenEnvV,
    host: Host,
    values: Seq<ExprV>,
    vs: Seq<Val>,
    i: int,
    out: ExprV,
    xs: Seq<Val>,
    locals: Seq<Val>,
    d: nat,
    fuel: nat,
)
    requires
        builtins_stand(env),
        keeps_containers(host),
        vs.len() == values.len(),
        0 <= i <= values.len(),
        d > 0,
        forall|k: int|
            0 <= k < values.len() ==> stays(
                env,
                host,
                #[trigger] values[k],
                vs[k],
                locals,
                fuel,
            ),
        value_of(env, host, out, locals, d, fuel) == Some((Val::Array(xs), locals)),
    ensures
        value_of(
            env,
            host,
            array_from(values, i, out),
            locals,
            (d + (values.len() - i)) as nat,
            fuel,
        ) == Some((Val::Array(xs + vs.skip(i)), locals)),
    decreases values.len() - i,
{
    if i < values.len() {
        assert(stays(env, host, values[i], vs[i], locals, fuel));
        assert(value_of(env, host, values[i], locals, d, fuel) == Some((vs[i], locals)));
        lemma_call2(
            env,
            host,
            BuiltinFunction::ArrayPush,
            out,
            values[i],
            Val::Array(xs),
            vs[i],
            locals,
            locals,
            locals,
            d,
            fuel,
        );
        assert(given2(
            host,
            BuiltinFunction::ArrayPush,
            Val::Array(xs),
            vs[i],
        ) == Some(Val::Array(xs.push(vs[i]))));
        lemma_array_from(
            env,
            host,
            values,
            vs,
            i + 1,
            call2(BuiltinFunction::ArrayPush, out, values[i]),
            xs.push(vs[i]),
            locals,
            d + 1,
            fuel,
        );
        assert(xs.push(vs[i]) + vs.skip(i + 1) =~= xs + vs.skip(i));
    } else {
        assert(xs + vs.skip(i) =~= xs);
    }
}

/// An array literal is the array of the values of its elements, in order.
pub proof fn law_array_literals(
    env: GenEnvV,
    host: Host,
    values: Seq<ExprV>,
    vs: Seq<Val>,
    locals: Seq<Val>,
    fuel: nat,
)
    requires
        builtins_stand(env),
        keeps_containers(host),
        vs.len() == values.len(),
        forall|k: int|
            0 <= k < values.len() ==> stays(
                env,
                host,
                #[trigger] values[k],
                vs[k],
                locals,
                fuel,
            ),
    ensures
        value_of(env, host, array_of(values), locals, values.len() + 1, fuel) == Some(
            (Val::Array(vs), locals),
        ),
{
    lemma_call0(env, host, BuiltinFunction::ArrayNew, locals, 0, fuel);
    lemma_array_from(
        env,
        host,
        values,
        vs,
        0,
        call0(BuiltinFunction::ArrayNew),
        Seq::empty(),
        locals,
        1,
        fuel,
    );
    assert(Seq::<Val>::empty() + vs.skip(0) =~= vs);
}

// ---------------------------------------------------------------------------
// Texts.

/// Texts with spaces between them, each space in front of its text.
pub open spec fn spread(texts: Seq<Seq<char>>) -> Seq<char>
    decreases texts.len(),
{
    if texts.len() == 0 {
        Seq::empty()
    } else {
        seq![' '] + texts[0] + spread(texts.skip(1))
    }
}

proof fn lemma_join_text(
    env: GenEnvV,
    host: Host,
    x: ExprV,
    t: Seq<char>,
    part: Seq<char>,
    locals: Seq<Val>,
    d: nat,
    fuel: nat,
)
    requires
        d > 0,
        value_of(env, host, x, locals, d, fuel) == Some((Val::Str(t), locals)),
    ensures
        value_of(env, host, binary(BinOp::Add, x, ExprV::Str(part)), locals, d + 1, fuel) == Some(
            (Val::Str(t + part), locals),
        ),
{
    assert(value_of(env, host, ExprV::Str(part), locals, d, fuel) == Some(
        (Val::Str(part), locals),
    ));
    assert(crate::consts::surely_string(ExprV::Str(part)));
}

proof fn lemma_spaced(
    env: GenEnvV,
    host: Host,
    args: Seq<ExprV>,
    vs: Seq<Val>,
    texts: Seq<Seq<char>>,
    i: int,
    out: ExprV,
    t: Seq<char>,
    locals: Seq<Val>,
    d: nat,
    fuel: nat,
)
    requires
        builtins_stand(env),
        vs.len() == args.len() == texts.len(),
        0 <= i <= args.len(),
        d > 1,
        forall|k: int|
            0 <= k < args.len() ==> stays(
                env,
                host,
                #[trigger] args[k],
                vs[k],
                locals,
                fuel,
            ),
        forall|k: int|
            0 <= k < args.len() ==> given1(host, BuiltinFunction::ToString, #[trigger] vs[k])
                == Some(Val::Str(texts[k])),
        value_of(env, host, out, locals, d, fuel) == Some((Val::Str(t), locals)),
    ensures
        value_of(
            env,
            host,
            spaced(args, i, out),
            locals,
            (d + 2 * (args.len() - i)) as nat,
            fuel,
        ) == Some((Val::Str(t + spread(texts.skip(i))), locals)),
    decreases args.len() - i,
{
    if i < args.len() {
        reveal_strlit(" ");
        assert(" "@ =~= seq![' ']);
        let a = binary(BinOp::Add, out, ExprV::Str(" "@));
        lemma_join_text(env, host, out, t, " "@, locals, d, fuel);
        assert(stays(env, host, args[i], vs[i], locals, fuel));
        assert(value_of(env, host, args[i], locals, d, fuel) == Some((vs[i], locals)));
        lemma_call1(
            env,
            host,
            BuiltinFunction::ToString,
            args[i],
            vs[i],
            locals,
            locals,
            d,
            fuel,
        );
        let next = binary(BinOp::Add, a, to_text(args[i]));
        let joined = t + " "@ + texts[i];
        assert(value_of(env, host, next, locals, d + 2, fuel) == Some((Val::Str(joined), locals)));
        lemma_spaced(env, host, args, vs, texts, i + 1, next, joined, locals, d + 2, fuel);
        assert(texts.skip(i).skip(1) =~= texts.skip(i + 1));
        assert(texts.skip(i)[0] == texts[i]);
        assert(joined + spread(texts.skip(i + 1)) =~= t + spread(texts.skip(i)));
    } else {
        assert(texts.skip(i).len() == 0);
        assert(t + spread(texts.skip(i)) =~= t);
    }
}

/// What is printed of several values is their texts, with a space between each two; and a line
/// feed behind it where one is asked for.
pub proof fn law_printed_texts(
    env: GenEnvV,
    host: Host,
    args: Seq<ExprV>,
    vs: Seq<Val>,
    texts: Seq<Seq<char>>,
    locals: Seq<Val>,
    fuel: nat,
)
    requires
        builtins_stand(env),
        vs.len() == args.len() == texts.len(),
        args.len() > 1,
        forall|k: int|
            0 <= k < args.len() ==> stays(
                env,
                host,
                #[trigger] args[k],
                vs[k],
                locals,
                fuel,
            ),
        forall|k: int|
            0 <= k < args.len() ==> given1(host, BuiltinFunction::ToString, #[trigger] vs[k])
                == Some(Val::Str(texts[k])),
    ensures
        ({
            let d = (2 * args.len()) as nat;
            let t = texts[0] + spread(texts.skip(1));
            &&& value_of(
                env,
                host,
                plain_text(args),
                locals,
                d,
                fuel,
            ) == Some((Val::Str(t), locals))
            &&& value_of(env, host, with_newline(plain_text(args)), locals, d + 1, fuel) == Some(
                (Val::Str(t + seq!['\n']), locals),
            )
        }),
{
    reveal(plain_text);
    assert(stays(env, host, args[0], vs[0], locals, fuel));
    assert(value_of(env, host, args[0], locals, 1, fuel) == Some((vs[0], locals)));
    lemma_call1(env, host, BuiltinFunction::ToString, args[0], vs[0], locals, locals, 1, fuel);
    lemma_spaced(
        env,
        host,
        args,
        vs,
        texts,
        1,
        to_text(args[0]),
        texts[0],
        locals,
        2,
        fuel,
    );
    reveal_strlit("\n");
    assert("\n"@ =~= seq!['\n']);
    lemma_join_text(
        env,
        host,
        plain_text(args),
        texts[0] + spread(texts.skip(1)),
        "\n"@,
        locals,
        (2 * args.len()) as nat,
        fuel,
    );
}

/// The flags of a pattern stand in front of it, between marks.
pub proof fn law_flags_stand_in_front_of_patterns(
    env: GenEnvV,
    host: Host,
    pattern: ExprV,
    flags: ExprV,
    p: Seq<char>,
    f: Seq<char>,
    locals: Seq<Val>,
    fuel: nat,
)
    requires
        builtins_stand(env),
        keeps_containers(host),
        stays(env, host, pattern, Val::Str(p), locals, fuel),
        stays(env, host, flags, Val::Str(f), locals, fuel),
    ensures
        value_of(env, host, flagged_pattern(pattern, flags), locals, 4, fuel) == Some(
            (Val::Str(seq!['(', '?'] + f + seq![')'] + p), locals),
        ),
{
    reveal(flagged_pattern);
    reveal_strlit("(?");
    reveal_strlit(")");
    assert("(?"@ =~= seq!['(', '?']);
    assert(")"@ =~= seq![')']);
    let c = BuiltinFunction::Concat;
    let x1 = ExprV::Str("(?"@);
    let x2 = call2(c, x1, flags);
    let x3 = call2(c, x2, ExprV::Str(")"@));
    let t2 = "(?"@ + f;
    let t3 = t2 + ")"@;
    assert(value_of(env, host, flags, locals, 1, fuel) == Some((Val::Str(f), locals)));
    assert(value_of(env, host, pattern, locals, 3, fuel) == Some((Val::Str(p), locals)));
    assert(value_of(env, host, x1, locals, 1, fuel) == Some((Val::Str("(?"@), locals)));
    lemma_call2(
        env,
        host,
        c,
        x1,
        flags,
        Val::Str("(?"@),
        Val::Str(f),
        locals,
        locals,
        locals,
        1,
        fuel,
    );
    assert(given2(host, c, Val::Str("(?"@), Val::Str(f)) == Some(Val::Str(t2)));
    assert(value_of(env, host, ExprV::Str(")"@), locals, 2, fuel) == Some(
        (Val::Str(")"@), locals),
    ));
    lemma_call2(
        env,
        host,
        c,
        x2,
        ExprV::Str(")"@),
        Val::Str(t2),
        Val::Str(")"@),
        locals,
        locals,
        locals,
        2,
        fuel,
    );
    assert(given2(host, c, Val::Str(t2), Val::Str(")"@)) == Some(Val::Str(t3)));
    lemma_call2(
        env,
        host,
        c,
        x3,
        pattern,
        Val::Str(t3),
        Val::Str(p),
        locals,
        locals,
        locals,
        3,
        fuel,
    );
    assert(given2(host, c, Val::Str(t3), Val::Str(p)) == Some(Val::Str(t3 + p)));
}

// ---------------------------------------------------------------------------
// Slices.

proof fn lemma_bound(
    env: GenEnvV,
    host: Host,
    s: ParV,
    s1: ParV,
    slot: u16,
    value: ExprV,
    body: ExprV,
    e: ExprV,
    v: Val,
    r: Val,
    locals: Seq<Val>,
    l2: Seq<Val>,
    d: nat,
    fuel: nat,
)
    requires
        bind_hidden(s, slot, value, body) == Parsed::<ExprV>::Ok((e, s1)),
        d > 0,
        value_of(env, host, value, locals, d, fuel) == Some((v, locals)),
        value_of(env, host, body, locals.update(slot as int, v), d, fuel) == Some((r, l2)),
    ensures
        value_of(env, host, e, locals, d + 1, fuel) matches Some((w, _)) && w == r,
{
    reveal(bind_hidden);
    match e {
        ExprV::Match { arms, default, .. } => {
            assert(crate::machine::arm_value(
                env,
                host,
                arms,
                0,
                *default,
                v,
                locals.update(slot as int, v),
                d,
                fuel,
            ) == Some((r, l2)));
        },
        _ => {},
    }
}

proof fn lemma_slice_of(
    env: GenEnvV,
    host: Host,
    c: u16,
    start: u16,
    end: ExprV,
    xs: Seq<Val>,
    a: int,
    b: int,
    locals: Seq<Val>,
    d: nat,
    fuel: nat,
)
    requires
        builtins_stand(env),
        keeps_containers(host),
        d > 0,
        locals[c as int] == Val::Array(xs),
        locals[start as int] == Val::Int(a),
        0 <= a <= b <= xs.len(),
        value_of(env, host, end, locals, d, fuel) == Some((Val::Int(b), locals)),
    ensures
        value_of(env, host, slice_of(c, start, end), locals, d + 2, fuel) == Some(
            (Val::Array(xs.subrange(a, b)), locals),
        ),
{
    reveal(slice_of);
    let x = ExprV::Var(c);
    let y = ExprV::Var(start);
    let z = binary(BinOp::Sub, end, y);
    assert(value_of(env, host, y, locals, d, fuel) == Some((Val::Int(a), locals)));
    assert(value_of(env, host, z, locals, d + 1, fuel) == Some((Val::Int(b - a), locals)));
    lemma_call3(
        env,
        host,
        BuiltinFunction::Slice,
        x,
        y,
        z,
        Val::Array(xs),
        Val::Int(a),
        Val::Int(b - a),
        locals,
        d + 1,
        fuel,
    );
    assert(given3(host, BuiltinFunction::Slice, Val::Array(xs), Val::Int(a), Val::Int(b - a))
        == Some(Val::Array(xs.subrange(a, a + (b - a)))));
}

proof fn lemma_len_of(
    env: GenEnvV,
    host: Host,
    c: u16,
    xs: Seq<Val>,
    locals: Seq<Val>,
    d: nat,
    fuel: nat,
)
    requires
        builtins_stand(env),
        keeps_containers(host),
        d > 0,
        locals[c as int] == Val::Array(xs),
    ensures
        value_of(
            env,
            host,
            call1(BuiltinFunction::Len, ExprV::Var(c)),
            locals,
            d + 1,
            fuel,
        ) == Some((Val::Int(xs.len() as int), locals)),
{
    lemma_call1(
        env,
        host,
        BuiltinFunction::Len,
        ExprV::Var(c),
        Val::Array(xs),
        locals,
        locals,
        d,
        fuel,
    );
    assert(given1(host, BuiltinFunction::Len, Val::Array(xs)) == Some(Val::Int(xs.len() as int)));
}

/// A slice is the part of its container from its start up to its end: up to the end of the
/// container where it has none, and counted from there where it is negative.
pub proof fn law_slices(
    env: GenEnvV,
    host: Host,
    s: ParV,
    s1: ParV,
    c: u16,
    start: u16,
    a: i64,
    b: Option<i64>,
    e: ExprV,
    xs: Seq<Val>,
    locals: Seq<Val>,
    fuel: nat,
)
    requires
        builtins_stand(env),
        keeps_containers(host),
        slice_body(
            s,
            c,
            start,
            ExprV::Int(a),
            match b {
                Some(n) => Some(ExprV::Int(n)),
                None => None,
            },
        ) == Parsed::<ExprV>::Ok((e, s1)),
        c < locals.len(),
        start < locals.len(),
        s.names.next_local < locals.len(),
        c != start,
        c != s.names.next_local,
        start != s.names.next_local,
        locals[c as int] == Val::Array(xs),
        ({
            let end = match b {
                Some(n) => if n < 0 {
                    xs.len() + n
                } else {
                    n as int
                },
                None => xs.len() as int,
            };
            0 <= a <= end <= xs.len()
        }),
    ensures
        value_of(env, host, e, locals, 8, fuel) matches Some((v, _)) && v == Val::Array(
            xs.subrange(
                a as int,
                match b {
                    Some(n) => if n < 0 {
                        xs.len() + n
                    } else {
                        n as int
                    },
                    None => xs.len() as int,
                },
            ),
        ),
{
    reveal(slice_body);
    let len = call1(BuiltinFunction::Len, ExprV::Var(c));
    let l1 = locals.update(start as int, Val::Int(a as int));
    match b {
        None => {
            lemma_len_of(env, host, c, xs, l1, 4, fuel);
            lemma_slice_of(env, host, c, start, len, xs, a as int, xs.len() as int, l1, 5, fuel);
            lemma_bound(
                env,
                host,
                s,
                s1,
                start,
                ExprV::Int(a),
                slice_of(c, start, len),
                e,
                Val::Int(a as int),
                Val::Array(xs.subrange(a as int, xs.len() as int)),
                locals,
                l1,
                7,
                fuel,
            );
        },
        Some(n) => {
            let es = s.names.next_local;
            let end_var = ExprV::Var(es);
            let test = binary(BinOp::Lt, end_var, ExprV::Int(0));
            let back = binary(BinOp::Add, len, end_var);
            let adjusted = if_else(test, back, end_var);
            let l2 = l1.update(es as int, Val::Int(n as int));
            let end = if n < 0 {
                xs.len() + n
            } else {
                n as int
            };
            assert(value_of(env, host, end_var, l2, 2, fuel) == Some((Val::Int(n as int), l2)));
            assert(value_of(env, host, ExprV::Int(0), l2, 2, fuel) == Some((Val::Int(0), l2)));
            assert(value_of(env, host, test, l2, 3, fuel) == Some((Val::Bool(n < 0), l2)));
            lemma_len_of(env, host, c, xs, l2, 1, fuel);
            assert(value_of(env, host, back, l2, 3, fuel) == Some(
                (Val::Int(xs.len() + n), l2),
            ));
            assert(value_of(env, host, end_var, l2, 3, fuel) == Some((Val::Int(n as int), l2)));
            assert(value_of(env, host, adjusted, l2, 4, fuel) == Some((Val::Int(end), l2)));
            lemma_slice_of(env, host, c, start, adjusted, xs, a as int, end, l2, 4, fuel);
            match allocate(s) {
                Ok((_, t1)) => {
                    match bind_hidden(t1, es, ExprV::Int(n), slice_of(c, start, adjusted)) {
                        Ok((inner, t2)) => {
                            let r = Val::Array(xs.subrange(a as int, end));
                            lemma_bound(
                                env,
                                host,
                                t1,
                                t2,
                                es,
                                ExprV::Int(n),
                                slice_of(c, start, adjusted),
                                inner,
                                Val::Int(n as int),
                                r,
                                l1,
                                l2,
                                6,
                                fuel,
                            );
                            let l3 = (value_of(env, host, inner, l1, 7, fuel)->0).1;
                            lemma_bound(
                                env,
                                host,
                                t2,
                                s1,
                                start,
                                ExprV::Int(a),
                                inner,
                                e,
                                Val::Int(a as int),
                                r,
                                locals,
                                l3,
                                7,
                                fuel,
                            );
                        },
                        Err(_) => {},
                    }
                },
                Err(_) => {},
            }
        },
    }
}

// ---------------------------------------------------------------------------
// Lookups that may find nothing.

proof fn lemma_type_check(
    env: GenEnvV,
    host: Host,
    slot: u16,
    name: Seq<char>,
    locals: Seq<Val>,
    d: nat,
    fuel: nat,
)
    requires
        builtins_stand(env),
        keeps_containers(host),
        d > 0,
    ensures
        value_of(env, host, type_check(ExprV::Var(slot), name), locals, d + 2, fuel) == Some(
            (Val::Bool(kind_name(locals[slot as int]) == name), locals),
        ),
{
    reveal(type_check);
    let v = locals[slot as int];
    let x = ExprV::Var(slot);
    assert(value_of(env, host, x, locals, d, fuel) == Some((v, locals)));
    lemma_call1(env, host, BuiltinFunction::TypeOf, x, v, locals, locals, d, fuel);
    assert(host(builtin_index(BuiltinFunction::TypeOf), seq![v]) == Some(Val::Str(kind_name(v))));
    assert(value_of(env, host, ExprV::Str(name), locals, d + 1, fuel) == Some(
        (Val::Str(name), locals),
    ));
}

proof fn lemma_index_lookup(
    env: GenEnvV,
    host: Host,
    c: u16,
    k: u16,
    xs: Seq<Val>,
    locals: Seq<Val>,
    d: nat,
    fuel: nat,
)
    requires
        builtins_stand(env),
        keeps_containers(host),
        d >= 6,
        locals[c as int] == Val::Array(xs),
    ensures
        value_of(env, host, optional_index_lookup(c, k), locals, d, fuel) == Some(
            (
                match locals[k as int] {
                    Val::Int(n) => if 0 <= n < xs.len() {
                        xs[n]
                    } else {
                        Val::Null
                    },
                    _ => Val::Null,
                },
                locals,
            ),
        ),
{
    reveal(optional_index_lookup);
    let cx = ExprV::Var(c);
    let kx = ExprV::Var(k);
    let v = locals[k as int];
    let len = call1(BuiltinFunction::Len, cx);
    let get = call2(BuiltinFunction::Get, cx, kx);
    let below = binary(BinOp::Lt, kx, len);
    let inner = if_else(below, get, ExprV::Null);
    let negative = binary(BinOp::Lt, kx, ExprV::Int(0));
    let middle = if_else(negative, ExprV::Null, inner);
    lemma_type_check(env, host, k, "int"@, locals, (d - 3) as nat, fuel);
    crate::type_laws::lemma_names_differ();
    match v {
        Val::Int(n) => {
            lemma_len_of(env, host, c, xs, locals, (d - 5) as nat, fuel);
            assert(value_of(env, host, kx, locals, (d - 4) as nat, fuel) == Some((v, locals)));
            assert(value_of(env, host, below, locals, (d - 3) as nat, fuel) == Some(
                (Val::Bool(n < xs.len()), locals),
            ));
            assert(value_of(env, host, cx, locals, (d - 4) as nat, fuel) == Some(
                (Val::Array(xs), locals),
            ));
            lemma_call2(
                env,
                host,
                BuiltinFunction::Get,
                cx,
                kx,
                Val::Array(xs),
                v,
                locals,
                locals,
                locals,
                (d - 4) as nat,
                fuel,
            );
            if 0 <= n < xs.len() {
                assert(given2(host, BuiltinFunction::Get, Val::Array(xs), Val::Int(n)) == Some(
                    xs[n],
                ));
            }
            assert(value_of(env, host, ExprV::Null, locals, (d - 3) as nat, fuel) == Some(
                (Val::Null, locals),
            ));
            assert(0 <= n ==> value_of(env, host, inner, locals, (d - 2) as nat, fuel) == Some(
                (
                    if n < xs.len() {
                        xs[n]
                    } else {
                        Val::Null
                    },
                    locals,
                ),
            ));
            assert(value_of(env, host, kx, locals, (d - 3) as nat, fuel) == Some((v, locals)));
            assert(value_of(env, host, ExprV::Int(0), locals, (d - 3) as nat, fuel) == Some(
                (Val::Int(0), locals),
            ));
            assert(value_of(env, host, negative, locals, (d - 2) as nat, fuel) == Some(
                (Val::Bool(n < 0), locals),
            ));
            assert(value_of(env, host, ExprV::Null, locals, (d - 2) as nat, fuel) == Some(
                (Val::Null, locals),
            ));
            assert(value_of(env, host, middle, locals, (d - 1) as nat, fuel) == Some(
                (
                    if 0 <= n < xs.len() {
                        xs[n]
                    } else {
                        Val::Null
                    },
                    locals,
                ),
            ));
        },
        _ => {
            assert(value_of(env, host, ExprV::Null, locals, (d - 1) as nat, fuel) == Some(
                (Val::Null, locals),
            ));
        },
    }
}

proof fn lemma_map_lookup(
    env: GenEnvV,
    host: Host,
    c: u16,
    k: u16,
    m: Seq<(Val, Val)>,
    found: Val,
    locals: Seq<Val>,
    d: nat,
    fuel: nat,
)
    requires
        builtins_stand(env),
        keeps_containers(host),
        d >= 6,
        locals[c as int] == Val::Table(m),
        has_key(m, locals[k as int]) ==> given2(
            host,
            BuiltinFunction::Get,
            Val::Table(m),
            locals[k as int],
        ) == Some(found),
    ensures
        value_of(env, host, optional_map_lookup(c, k), locals, d, fuel) == Some(
            (
                if has_key(m, locals[k as int]) {
                    found
                } else {
                    Val::Null
                },
                locals,
            ),
        ),
{
    reveal(optional_map_lookup);
    let cx = ExprV::Var(c);
    let kx = ExprV::Var(k);
    let v = locals[k as int];
    let t = Val::Table(m);
    let set = call3(BuiltinFunction::SetAt, cx, kx, ExprV::Null);
    let left = call1(BuiltinFunction::Len, set);
    let right = call1(BuiltinFunction::Len, cx);
    let same = binary(BinOp::Eq, left, right);
    let get = call2(BuiltinFunction::Get, cx, kx);
    let d4 = (d - 4) as nat;
    assert(value_of(env, host, cx, locals, d4, fuel) == Some((t, locals)));
    assert(value_of(env, host, kx, locals, d4, fuel) == Some((v, locals)));
    assert(value_of(env, host, ExprV::Null, locals, d4, fuel) == Some((Val::Null, locals)));
    lemma_call3(
        env,
        host,
        BuiltinFunction::SetAt,
        cx,
        kx,
        ExprV::Null,
        t,
        v,
        Val::Null,
        locals,
        d4,
        fuel,
    );
    let r = given3(host, BuiltinFunction::SetAt, t, v, Val::Null)->0;
    let rows = r->Table_0;
    assert(r == Val::Table(rows) && (rows.len() == m.len() <==> has_key(m, v)));
    lemma_call1(env, host, BuiltinFunction::Len, set, r, locals, locals, d4 + 1, fuel);
    assert(given1(host, BuiltinFunction::Len, Val::Table(rows)) == Some(
        Val::Int(rows.len() as int),
    ));
    assert(value_of(env, host, cx, locals, d4 + 1, fuel) == Some((t, locals)));
    lemma_call1(env, host, BuiltinFunction::Len, cx, t, locals, locals, d4 + 1, fuel);
    assert(given1(host, BuiltinFunction::Len, Val::Table(m)) == Some(Val::Int(m.len() as int)));
    assert(value_of(env, host, same, locals, d4 + 3, fuel) == Some(
        (Val::Bool(has_key(m, v)), locals),
    ));
    assert(value_of(env, host, cx, locals, d4 + 2, fuel) == Some((t, locals)));
    assert(value_of(env, host, kx, locals, d4 + 2, fuel) == Some((v, locals)));
    lemma_call2(
        env,
        host,
        BuiltinFunction::Get,
        cx,
        kx,
        t,
        v,
        locals,
        locals,
        locals,
        d4 + 2,
        fuel,
    );
    assert(value_of(env, host, ExprV::Null, locals, d4 + 3, fuel) == Some((Val::Null, locals)));
}

/// A lookup that may find nothing: nothing has no parts, an array has its elements at their
/// places and nothing elsewhere, a table has the values of its keys and nothing for others, and
/// what is neither has no parts.
pub proof fn law_optional_lookups(
    env: GenEnvV,
    host: Host,
    c: u16,
    k: u16,
    found: Val,
    locals: Seq<Val>,
    fuel: nat,
)
    requires
        builtins_stand(env),
        keeps_containers(host),
        !(locals[c as int] is Str),
        locals[c as int] matches Val::Table(m) ==> has_key(m, locals[k as int]) ==> given2(
            host,
            BuiltinFunction::Get,
            Val::Table(m),
            locals[k as int],
        ) == Some(found),
    ensures
        value_of(env, host, optional_lookup(c, k), locals, 10, fuel) == Some(
            (
                match (locals[c as int], locals[k as int]) {
                    (Val::Array(xs), Val::Int(n)) => if 0 <= n < xs.len() {
                        xs[n]
                    } else {
                        Val::Null
                    },
                    (Val::Table(m), key) => if has_key(m, key) {
                        found
                    } else {
                        Val::Null
                    },
                    _ => Val::Null,
                },
                locals,
            ),
        ),
{
    reveal(optional_lookup);
    let cx = ExprV::Var(c);
    let v = locals[c as int];
    crate::type_laws::lemma_names_differ();
    lemma_type_check(env, host, c, "null"@, locals, 7, fuel);
    lemma_type_check(env, host, c, "map"@, locals, 6, fuel);
    lemma_type_check(env, host, c, "array"@, locals, 5, fuel);
    lemma_type_check(env, host, c, "string"@, locals, 4, fuel);
    let index = optional_index_lookup(c, k);
    let table = optional_map_lookup(c, k);
    let fourth = if_else(type_check(cx, "string"@), index, ExprV::Null);
    let third = if_else(type_check(cx, "array"@), index, fourth);
    let second = if_else(type_check(cx, "map"@), table, third);
    assert(value_of(env, host, ExprV::Null, locals, 9, fuel) == Some((Val::Null, locals)));
    assert(value_of(env, host, ExprV::Null, locals, 6, fuel) == Some((Val::Null, locals)));
    match v {
        Val::Array(xs) => {
            lemma_index_lookup(env, host, c, k, xs, locals, 7, fuel);
            assert(value_of(env, host, third, locals, 8, fuel) == value_of(
                env,
                host,
                index,
                locals,
                7,
                fuel,
            ));
            assert(value_of(env, host, second, locals, 9, fuel) == value_of(
                env,
                host,
                third,
                locals,
                8,
                fuel,
            ));
        },
        Val::Table(m) => {
            lemma_map_lookup(env, host, c, k, m, found, locals, 8, fuel);
            assert(value_of(env, host, second, locals, 9, fuel) == value_of(
                env,
                host,
                table,
                locals,
                8,
                fuel,
            ));
        },
        Val::Null => {},
        _ => {
            assert(value_of(env, host, fourth, locals, 7, fuel) == Some((Val::Null, locals)));
            assert(value_of(env, host, third, locals, 8, fuel) == Some((Val::Null, locals)));
            assert(value_of(env, host, second, locals, 9, fuel) == Some((Val::Null, locals)));
        },
    }
}

// ---------------------------------------------------------------------------
// Names of types.

/// The type patterns are named as the types of values are: a value has the pattern that its type
/// name stands for, and no other but that of numbers.
pub proof fn law_type_patterns_are_named_as_types(v: Val, w: Val)
    requires
        !(v is Null),
        !(w is Null),
    ensures
        type_pattern(kind_name(v)) matches Some(p) && fits(PatternV::Type(p), v) == Some(true) && (
        fits(PatternV::Type(p), w) == Some(true) <==> kind_name(w) == kind_name(v)),
        declared_type(kind_name(v)) matches Some(ty) && ty == (match v {
            Val::Int(_) => ValueType::Int,
            Val::Float(_) => ValueType::Float,
            Val::Bool(_) => ValueType::Bool,
            Val::Str(_) => ValueType::String,
            Val::Array(_) => ValueType::Array,
            _ => ValueType::Mapping,
        }),
{
    reveal_strlit("null");
    reveal_strlit("int");
    reveal_strlit("float");
    reveal_strlit("bool");
    reveal_strlit("string");
    reveal_strlit("array");
    reveal_strlit("map");
    reveal_strlit("number");
    reveal_strlit("unknown");
    reveal_strlit("Int");
    reveal_strlit("Float");
    reveal_strlit("Bool");
    reveal_strlit("String");
    reveal_strlit("Array");
    reveal_strlit("Map");
    reveal_strlit("Number");
    assert("int"@[0] == 'i' && "float"@[0] == 'f' && "bool"@[0] == 'b' && "string"@[0] == 's'
        && "array"@[0] == 'a' && "map"@[0] == 'm' && "number"@[0] == 'n' && "unknown"@[0] == 'u'
        && "Int"@[0] == 'I' && "Float"@[0] == 'F' && "Bool"@[0] == 'B' && "String"@[0] == 'S'
        && "Array"@[0] == 'A' && "Map"@[0] == 'M' && "Number"@[0] == 'N' && "null"@[0] == 'n');
}

} // verus!
