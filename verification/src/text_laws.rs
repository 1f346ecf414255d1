//! What is done with texts as a whole: calls in Scheme are rewritten, lines are counted behind a
//! prelude, a semicolon that drops a result is found, and what lies ahead is looked for.

use vstd::prelude::*;
use crate::format::{arrow_of_if, generic_close};
use crate::lexer::{TokenKind, TokenV};
use crate::lint::{
    body_diagnostic, body_end, body_start, diagnostic_of_body, in_body, looks_like_return,
    return_semicolon, starts_expression, tail_after, Nesting, Tail,
};
use crate::loader::line_count;
use crate::rewrite::{
    blank_end, dot_from, ends_symbol, rewritten_head, rewritten_scheme, symbol_end, SchemeMode,
    SchemeRules,
};
use crate::scan::{arrow_follows, bracket_followed_by, if_is_expression, is_kind};
use crate::source_map::newlines_before;
use crate::text::ascii_is_one_byte;

verus! {

// ---------------------------------------------------------------------------
// Calls in Scheme.

proof fn lemma_symbol(src: Seq<char>, p: int, n: int)
    requires
        0 <= p,
        0 <= n,
        p + n <= src.len(),
        forall|i: int| p <= i < p + n ==> !ends_symbol(#[trigger] src[i]),
        p + n < src.len() ==> ends_symbol(src[p + n]),
    ensures
        symbol_end(src, p) == p + n,
    decreases n,
{
    if n > 0 {
        assert(!ends_symbol(src[p]));
        lemma_symbol(src, p + 1, n - 1);
    }
}

proof fn lemma_dot(symbol: Seq<char>, i: int, k: int)
    requires
        0 <= i <= k <= symbol.len(),
        forall|j: int| i <= j < k ==> #[trigger] symbol[j] != '.',
        k < symbol.len() ==> symbol[k] == '.',
    ensures
        dot_from(symbol, i) == k,
    decreases k - i,
{
    if i < k {
        lemma_dot(symbol, i + 1, k);
    }
}

/// The head of a call is written as what it leads to: another name as what it stands for, a
/// member of an imported namespace without the namespace, and a prefixed name without the prefix.
pub proof fn law_heads_of_calls_become_what_they_lead_to(
    rules: SchemeRules,
    namespace: Seq<char>,
    member: Seq<char>,
    symbol: Seq<char>,
    target: Seq<char>,
)
    requires
        !namespace.contains('.'),
        member.len() > 0,
    ensures
        rules.aliases.dom().contains(symbol) && rules.aliases[symbol] == target ==> rewritten_head(
            rules,
            symbol,
        ) == target,
        ({
            let path = namespace + seq!['.'] + member;
            !rules.aliases.dom().contains(path) && ((rules.namespaces.dom().contains(namespace)
                && rules.namespaces[namespace].contains(member)) || rules.wildcards.contains(
                namespace,
            )) ==> rewritten_head(rules, path) == member
        }),
        !rules.aliases.dom().contains(symbol) && !symbol.contains('.') && rules.prefixes
            == seq![namespace] && symbol == namespace + member ==> rewritten_head(rules, symbol)
            == member,
        !rules.aliases.dom().contains(symbol) && !symbol.contains('.') && rules.prefixes.len() == 0
            ==> rewritten_head(rules, symbol) == symbol,
{
    let path = namespace + seq!['.'] + member;
    let n = namespace.len() as int;
    assert forall|j: int| 0 <= j < n implies #[trigger] path[j] != '.' by {
        assert(path[j] == namespace[j]);
        assert(namespace.contains(namespace[j]));
    }
    assert(path[n] == '.');
    lemma_dot(path, 0, n);
    assert(path.take(n) =~= namespace);
    assert(path.skip(n + 1) =~= member);
    if !symbol.contains('.') {
        assert forall|j: int| 0 <= j < symbol.len() implies #[trigger] symbol[j] != '.' by {
            assert(symbol.contains(symbol[j]));
        }
        lemma_dot(symbol, 0, symbol.len() as int);
        if rules.prefixes == seq![namespace] && symbol == namespace + member {
            assert(symbol.take(n) =~= namespace);
            assert(symbol.skip(n) =~= member);
            assert(rules.prefixes[0] == namespace);
        }
    }
}

/// A call keeps its opening bracket and what stands behind its head, and its head becomes what
/// it leads to.
pub proof fn law_calls_in_scheme_are_rewritten(rules: SchemeRules, src: Seq<char>, p: int, n: int)
    requires
        0 <= p,
        0 < n,
        p + 1 + n <= src.len(),
        src[p] == '(',
        forall|i: int| p + 1 <= i < p + 1 + n ==> !ends_symbol(#[trigger] src[i]),
        p + 1 + n < src.len() ==> ends_symbol(src[p + 1 + n]),
    ensures
        rewritten_scheme(rules, src, p, SchemeMode::Code) == seq!['('] + rewritten_head(
            rules,
            src.subrange(p + 1, p + 1 + n),
        ) + rewritten_scheme(rules, src, p + 1 + n, SchemeMode::Code),
{
    lemma_symbol(src, p + 1, n);
    assert(!ends_symbol(src[p + 1]));
    assert(blank_end(src, p + 1) == p + 1);
    ascii_is_one_byte('(');
    assert(src.subrange(p + 1, p + 1) =~= Seq::empty());
    assert(seq!['('] + Seq::<char>::empty() =~= seq!['(']);
}

/// A comment stays as it is, up to the end of its line.
pub proof fn law_comments_in_scheme_stay(rules: SchemeRules, src: Seq<char>, p: int, n: int)
    requires
        0 <= p,
        0 <= n,
        p + n < src.len(),
        forall|i: int| p <= i < p + n ==> (#[trigger] src[i]) as u32 <= 0x7F && src[i] != '\n',
        src[p + n] == '\n',
    ensures
        rewritten_scheme(rules, src, p, SchemeMode::LineComment) == src.subrange(p, p + n + 1)
            + rewritten_scheme(rules, src, p + n + 1, SchemeMode::Code),
    decreases n,
{
    if n > 0 {
        law_comments_in_scheme_stay(rules, src, p + 1, n - 1);
        ascii_is_one_byte(src[p]);
        let rest = rewritten_scheme(rules, src, p + n + 1, SchemeMode::Code);
        assert(seq![src[p]] + (src.subrange(p + 1, p + n + 1) + rest) =~= src.subrange(
            p,
            p + n + 1,
        ) + rest);
    } else {
        ascii_is_one_byte('\n');
        assert(src.subrange(p, p + 1) =~= seq!['\n']);
    }
}

/// A string stays as it is, up to its closing quote; a quote behind a backslash closes nothing.
pub proof fn law_strings_in_scheme_stay(
    rules: SchemeRules,
    src: Seq<char>,
    p: int,
    n: int,
    escaped: bool,
)
    requires
        0 <= p,
        0 <= n,
        p + n < src.len(),
        n == 0 ==> !escaped,
        forall|i: int|
            p <= i < p + n ==> (#[trigger] src[i]) as u32 <= 0x7F && src[i] != '\\' && (src[i]
                != '"' || (i == p && escaped)),
        src[p + n] == '"',
    ensures
        rewritten_scheme(rules, src, p, SchemeMode::Text { escaped }) == src.subrange(p, p + n + 1)
            + rewritten_scheme(rules, src, p + n + 1, SchemeMode::Code),
    decreases n,
{
    if n > 0 {
        law_strings_in_scheme_stay(rules, src, p + 1, n - 1, false);
        ascii_is_one_byte(src[p]);
        let rest = rewritten_scheme(rules, src, p + n + 1, SchemeMode::Code);
        assert(seq![src[p]] + (src.subrange(p + 1, p + n + 1) + rest) =~= src.subrange(
            p,
            p + n + 1,
        ) + rest);
    } else {
        ascii_is_one_byte('"');
        assert(src.subrange(p, p + 1) =~= seq!['"']);
    }
}

// ---------------------------------------------------------------------------
// Lines behind a prelude.

proof fn lemma_lines(text: Seq<char>, n: int)
    requires
        0 < n <= text.len(),
    ensures
        line_count(text, n) == newlines_before(text, n - 1) + 1,
    decreases n,
{
    if n > 1 {
        lemma_lines(text, n - 1);
    } else {
        assert(line_count(text, 0) == 0);
        assert(newlines_before(text, 0) == 0);
    }
}

proof fn lemma_lines_on(prelude: Seq<char>, source: Seq<char>, k: int)
    requires
        0 <= k <= source.len(),
    ensures
        newlines_before(prelude + source, prelude.len() + k) == newlines_before(
            prelude,
            prelude.len() as int,
        ) + newlines_before(source, k),
    decreases k,
{
    let n = prelude.len() as int;
    if k > 0 {
        lemma_lines_on(prelude, source, k - 1);
        assert((prelude + source)[n + k - 1] == source[k - 1]);
    } else {
        lemma_same_lines(prelude, prelude + source, n);
    }
}

proof fn lemma_same_lines(a: Seq<char>, b: Seq<char>, n: int)
    requires
        0 <= n <= a.len(),
        n <= b.len(),
        forall|i: int| 0 <= i < n ==> a[i] == b[i],
    ensures
        newlines_before(a, n) == newlines_before(b, n),
    decreases n,
{
    if n > 0 {
        lemma_same_lines(a, b, n - 1);
    }
}

/// A place in a program lies as many lines further behind a prelude as the prelude has, where
/// the prelude ends its last line.
pub proof fn law_preludes_shift_lines(prelude: Seq<char>, source: Seq<char>, k: int)
    requires
        0 <= k <= source.len(),
        prelude.len() == 0 || prelude.last() == '\n',
    ensures
        newlines_before(prelude + source, prelude.len() + k) == line_count(
            prelude,
            prelude.len() as int,
        ) + newlines_before(source, k),
{
    lemma_lines_on(prelude, source, k);
    if prelude.len() > 0 {
        lemma_lines(prelude, prelude.len() as int);
    }
}

// ---------------------------------------------------------------------------
// Semicolons that drop results.

/// Whether a token opens or closes no group, and is not the end.
pub open spec fn is_loose(t: TokenV) -> bool {
    t.kind != TokenKind::LParen && t.kind != TokenKind::RParen && t.kind != TokenKind::LBracket
        && t.kind != TokenKind::RBracket && t.kind != TokenKind::LBrace && t.kind
        != TokenKind::RBrace && t.kind != TokenKind::Eof
}

proof fn lemma_to_end(ts: Seq<TokenV>, i: int, end: int, t: Tail)
    requires
        0 <= i <= end < ts.len(),
        ts[end].kind == TokenKind::RBrace,
        forall|k: int|
            i <= k < end ==> is_loose(#[trigger] ts[k]) && ts[k].kind != TokenKind::Semicolon,
    ensures
        body_diagnostic(ts, i, end, in_body(), t) == body_diagnostic(
            ts,
            end,
            end,
            in_body(),
            Tail { more: t.more || i < end, ..t },
        ),
    decreases end - i,
{
    if i < end {
        assert(is_loose(ts[i]));
        assert(in_body().after(ts[i].kind) == in_body());
        let u = tail_after(t, in_body(), ts[i].kind, i);
        assert(u == Tail { more: true, ..t });
        lemma_to_end(ts, i + 1, end, u);
    }
}

proof fn lemma_to_semicolon(ts: Seq<TokenV>, i: int, semi: int, end: int, t: Tail)
    requires
        0 <= i <= semi < end < ts.len(),
        ts[semi].kind == TokenKind::Semicolon,
        forall|k: int| i <= k < semi ==> is_loose(#[trigger] ts[k]) && ts[k].kind
            != TokenKind::Semicolon,
    ensures
        body_diagnostic(ts, i, end, in_body(), t) == body_diagnostic(
            ts,
            semi + 1,
            end,
            in_body(),
            Tail { start: semi + 1, last: Some((t.start, semi)), more: false },
        ),
    decreases semi - i,
{
    assert(in_body().after(ts[i].kind) == in_body());
    if i < semi {
        assert(is_loose(ts[i]));
        let u = tail_after(t, in_body(), ts[i].kind, i);
        assert(u == Tail { more: true, ..t });
        lemma_to_semicolon(ts, i + 1, semi, end, u);
    }
}

proof fn lemma_to_statement(ts: Seq<TokenV>, i: int, q: int, end: int, t: Tail) -> (last: Option<
    (int, int),
>)
    requires
        0 <= i <= q < end < ts.len(),
        ts[q].kind == TokenKind::Semicolon,
        forall|k: int| i <= k <= q ==> is_loose(#[trigger] ts[k]),
    ensures
        body_diagnostic(ts, i, end, in_body(), t) == body_diagnostic(
            ts,
            q + 1,
            end,
            in_body(),
            Tail { start: q + 1, last, more: false },
        ),
    decreases q - i,
{
    assert(is_loose(ts[i]));
    assert(in_body().after(ts[i].kind) == in_body());
    let u = tail_after(t, in_body(), ts[i].kind, i);
    if i < q {
        lemma_to_statement(ts, i + 1, q, end, u)
    } else {
        Some((t.start, q))
    }
}

/// In a body without groups, a semicolon behind the last statement is reported where that
/// statement is an expression, and only there; a last expression without one is not.
pub proof fn law_semicolons_that_drop_results(ts: Seq<TokenV>, start: int, q: int, end: int)
    requires
        0 <= start <= q,
        q + 1 < end < ts.len(),
        ts[end].kind == TokenKind::RBrace,
        q == start || ts[q].kind == TokenKind::Semicolon,
        forall|k: int| start < k < end ==> is_loose(#[trigger] ts[k]),
        forall|k: int| q < k < end - 1 ==> (#[trigger] ts[k]).kind != TokenKind::Semicolon,
    ensures
        ts[end - 1].kind == TokenKind::Semicolon && q + 1 < end - 1 ==> diagnostic_of_body(
            ts,
            start,
            end,
        ) == if starts_expression(ts[q + 1]) {
            Some(return_semicolon(ts[end - 1]))
        } else {
            None
        },
        ts[end - 1].kind != TokenKind::Semicolon ==> diagnostic_of_body(ts, start, end) is None,
{
    let t = Tail { start: start + 1, last: None, more: false };
    let last = if q > start {
        lemma_to_statement(ts, start + 1, q, end, t)
    } else {
        None
    };
    let u = Tail { start: q + 1, last, more: false };
    if ts[end - 1].kind == TokenKind::Semicolon {
        if q + 1 < end - 1 {
            lemma_to_semicolon(ts, q + 1, end - 1, end, u);
            assert(ts[q + 1].kind != TokenKind::Semicolon);
            assert(looks_like_return(ts, q + 1, end - 1) == starts_expression(ts[q + 1]));
        }
    } else {
        lemma_to_end(ts, q + 1, end, u);
    }
}

proof fn lemma_parameters(ts: Seq<TokenV>, i: int, close: int)
    requires
        0 <= i <= close,
        close + 1 < ts.len(),
        ts[close].kind == TokenKind::RParen,
        ts[close + 1].kind == TokenKind::LBrace,
        forall|k: int|
            i <= k < close ==> (#[trigger] ts[k]).kind != TokenKind::LParen && ts[k].kind
                != TokenKind::RParen,
    ensures
        body_start(ts, i, 1) == Some(close + 1),
    decreases close - i,
{
    if i < close {
        assert(ts[i].kind != TokenKind::LParen);
        lemma_parameters(ts, i + 1, close);
    } else {
        assert(body_start(ts, close + 1, 0) == Some(close + 1));
    }
}

/// The body of a function starts at the brace behind its parameters.
pub proof fn law_bodies_start_behind_parameters(ts: Seq<TokenV>, i: int, close: int)
    requires
        0 <= i,
        i + 1 < close,
        close + 1 < ts.len(),
        ts[i].kind == TokenKind::Ident,
        ts[i + 1].kind == TokenKind::LParen,
        ts[close].kind == TokenKind::RParen,
        ts[close + 1].kind == TokenKind::LBrace,
        forall|k: int|
            i + 1 < k < close ==> (#[trigger] ts[k]).kind != TokenKind::LParen && ts[k].kind
                != TokenKind::RParen,
    ensures
        body_start(ts, i, 0) == Some(close + 1),
{
    lemma_parameters(ts, i + 2, close);
    assert(body_start(ts, i + 1, 0) == body_start(ts, i + 2, 1));
}

/// The body of a function ends at the brace that closes the one it starts with: braces inside it
/// come in pairs.
pub proof fn law_bodies_end_at_their_brace(ts: Seq<TokenV>, i: int, end: int, n: Nesting)
    requires
        0 <= i <= end < ts.len(),
        n.flat(),
        n.braces > 0,
        ts[end].kind == TokenKind::RBrace,
        forall|k: int| i <= k < end ==> is_loose(#[trigger] ts[k]),
    ensures
        n.braces == 1 ==> body_end(ts, i, n) == Some(end),
        n.braces > 1 ==> body_end(ts, i, n) == body_end(
            ts,
            end + 1,
            Nesting { braces: (n.braces - 1) as nat, ..n },
        ),
    decreases end - i,
{
    if i < end {
        assert(is_loose(ts[i]));
        law_bodies_end_at_their_brace(ts, i + 1, end, n);
    }
}

// ---------------------------------------------------------------------------
// Looking ahead.

/// Whether a token neither groups nor ends what stands before it.
pub open spec fn goes_on(t: TokenV) -> bool {
    is_loose(t) && t.kind != TokenKind::FatArrow && t.kind != TokenKind::Semicolon && t.kind
        != TokenKind::If && t.kind != TokenKind::Else && t.kind != TokenKind::Comma
}

proof fn lemma_condition(ts: Seq<TokenV>, i: int, close: int)
    requires
        0 <= i <= close < ts.len(),
        forall|k: int| i <= k < close ==> goes_on(#[trigger] ts[k]),
    ensures
        arrow_follows(ts, i, 0, 0, 0) == arrow_follows(ts, close, 0, 0, 0),
    decreases close - i,
{
    if i < close {
        assert(goes_on(ts[i]));
        lemma_condition(ts, i + 1, close);
    }
}

/// An `if` whose condition an arrow follows is an expression, and one that a block or the end of
/// a statement follows is none.
pub proof fn law_conditions_before_arrows(ts: Seq<TokenV>, i: int, close: int)
    requires
        0 <= i < close < ts.len(),
        ts[i].kind == TokenKind::If,
        forall|k: int| i < k < close ==> goes_on(#[trigger] ts[k]),
    ensures
        ts[close].kind == TokenKind::FatArrow ==> if_is_expression(ts, i),
        ts[close].kind == TokenKind::LBrace ==> !if_is_expression(ts, i),
        ts[close].kind == TokenKind::Semicolon ==> !if_is_expression(ts, i),
        ts[close].kind == TokenKind::Eof ==> !if_is_expression(ts, i),
{
    lemma_condition(ts, i + 1, close);
}

proof fn lemma_inside_parentheses(ts: Seq<TokenV>, i: int, close: int)
    requires
        0 <= i <= close < ts.len(),
        ts[close].kind == TokenKind::RParen,
        forall|k: int| i <= k < close ==> is_loose(#[trigger] ts[k]),
    ensures
        arrow_follows(ts, i, 1, 0, 0) == arrow_follows(ts, close + 1, 0, 0, 0),
    decreases close - i,
{
    if i < close {
        assert(is_loose(ts[i]));
        lemma_inside_parentheses(ts, i + 1, close);
    }
}

/// What stands in parentheses in a condition is passed over.
pub proof fn law_parentheses_in_conditions(ts: Seq<TokenV>, i: int, close: int)
    requires
        0 <= i < close < ts.len(),
        ts[i].kind == TokenKind::LParen,
        ts[close].kind == TokenKind::RParen,
        forall|k: int| i < k < close ==> is_loose(#[trigger] ts[k]),
    ensures
        arrow_follows(ts, i, 0, 0, 0) == arrow_follows(ts, close + 1, 0, 0, 0),
{
    lemma_inside_parentheses(ts, i + 1, close);
}

proof fn lemma_inside_brackets(ts: Seq<TokenV>, i: int, close: int, a: TokenKind, b: TokenKind)
    requires
        0 <= i <= close < ts.len(),
        ts[close].kind == TokenKind::RBracket,
        forall|k: int| i <= k < close ==> is_loose(#[trigger] ts[k]),
    ensures
        bracket_followed_by(ts, i, 1, a, b) == (is_kind(ts, close + 1, a) || is_kind(
            ts,
            close + 1,
            b,
        )),
    decreases close - i,
{
    if i < close {
        assert(is_loose(ts[i]));
        lemma_inside_brackets(ts, i + 1, close, a, b);
    }
}

/// What follows brackets is what stands behind the one that closes them.
pub proof fn law_what_follows_brackets(
    ts: Seq<TokenV>,
    i: int,
    close: int,
    a: TokenKind,
    b: TokenKind,
)
    requires
        0 <= i < close < ts.len(),
        ts[i].kind == TokenKind::LBracket,
        ts[close].kind == TokenKind::RBracket,
        forall|k: int| i < k < close ==> is_loose(#[trigger] ts[k]),
    ensures
        bracket_followed_by(ts, i, 0, a, b) <==> (is_kind(ts, close + 1, a) || is_kind(
            ts,
            close + 1,
            b,
        )),
{
    lemma_inside_brackets(ts, i + 1, close, a, b);
}

/// An arrow belongs to the nearest `if` or `else` before it in the same statement: none stands
/// between them that goes on with something else.
pub proof fn law_arrows_of_conditions(ts: Seq<TokenV>, start: int, i: int)
    requires
        0 <= start < i <= ts.len(),
        forall|k: int| start < k < i ==> goes_on(#[trigger] ts[k]),
    ensures
        ts[start].kind == TokenKind::If || ts[start].kind == TokenKind::Else ==> arrow_of_if(
            ts,
            i,
            0,
            0,
            0,
        ),
        ts[start].kind == TokenKind::Comma || ts[start].kind == TokenKind::Semicolon
            || ts[start].kind == TokenKind::LBrace ==> !arrow_of_if(ts, i, 0, 0, 0),
    decreases i - start,
{
    if start < i - 1 {
        assert(goes_on(ts[i - 1]));
        law_arrows_of_conditions(ts, start, i - 1);
    }
}

/// The type arguments of a name are names with commas between them, up to the sign that closes
/// them; without a name there are none.
pub proof fn law_type_arguments(ts: Seq<TokenV>, i: int, close: int, content: bool)
    requires
        0 <= i <= close < ts.len(),
        ts[close].kind == TokenKind::Greater,
        forall|k: int|
            i <= k < close ==> (#[trigger] ts[k]).kind == TokenKind::Ident || ts[k].kind
                == TokenKind::Comma,
    ensures
        generic_close(ts, i, 0, 0, content) == if content || exists|k: int|
            i <= k < close && (#[trigger] ts[k]).kind == TokenKind::Ident {
            Some(close)
        } else {
            None
        },
    decreases close - i,
{
    if i < close {
        law_type_arguments(
            ts,
            i + 1,
            close,
            content || ts[i].kind == TokenKind::Ident,
        );
        if ts[i].kind != TokenKind::Ident && (exists|k: int|
            i <= k < close && (#[trigger] ts[k]).kind == TokenKind::Ident) {
            let k = choose|k: int| i <= k < close && (#[trigger] ts[k]).kind == TokenKind::Ident;
            assert(i + 1 <= k);
        }
    }
}

} // verus!
