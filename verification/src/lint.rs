//! A check for function bodies whose last expression ends with a semicolon.

use vstd::prelude::*;
use crate::errors::{ParseError, ParseErrorV};
use crate::lexer::{
    lex_tokens, lexed_all, tokens_view, Dialect, Token, TokenKind, TokenV,
};
use crate::source_map::SourceId;
use crate::text::same_text;

verus! {

/// One less, but not below zero.
pub open spec fn less_one(n: nat) -> nat {
    if n > 0 {
        (n - 1) as nat
    } else {
        0
    }
}

/// The position of the brace that opens a function body, from position `i` on at a
/// given depth of parentheses: none where the function has no body in braces.
pub open spec fn body_start(ts: Seq<TokenV>, i: int, parens: nat) -> Option<int>
    decreases ts.len() - i,
{
    if i < 0 || i >= ts.len() {
        None
    } else {
        let k = ts[i].kind;
        if k == TokenKind::LParen {
            body_start(ts, i + 1, parens + 1)
        } else if k == TokenKind::RParen {
            body_start(ts, i + 1, less_one(parens))
        } else if parens == 0 && k == TokenKind::LBrace {
            Some(i)
        } else if parens == 0 && (k == TokenKind::Equal || k == TokenKind::Semicolon || k
            == TokenKind::Eof) {
            None
        } else {
            body_start(ts, i + 1, parens)
        }
    }
}

/// How deep a position is nested. Braces inside parentheses and brackets do not count.
pub struct Nesting {
    pub braces: nat,
    pub parens: nat,
    pub brackets: nat,
}

impl Nesting {
    /// The nesting behind a token.
    pub open spec fn after(self, k: TokenKind) -> Nesting {
        if k == TokenKind::LParen {
            Nesting { parens: self.parens + 1, ..self }
        } else if k == TokenKind::RParen {
            Nesting { parens: less_one(self.parens), ..self }
        } else if k == TokenKind::LBracket {
            Nesting { brackets: self.brackets + 1, ..self }
        } else if k == TokenKind::RBracket {
            Nesting { brackets: less_one(self.brackets), ..self }
        } else if k == TokenKind::LBrace && self.flat() {
            Nesting { braces: self.braces + 1, ..self }
        } else if k == TokenKind::RBrace && self.flat() {
            Nesting { braces: less_one(self.braces), ..self }
        } else {
            self
        }
    }

    /// Outside parentheses and brackets.
    pub open spec fn flat(self) -> bool {
        self.parens == 0 && self.brackets == 0
    }
}

/// The position of the brace that closes a body, from position `i` on.
pub open spec fn body_end(ts: Seq<TokenV>, i: int, n: Nesting) -> Option<int>
    decreases ts.len() - i,
{
    if i < 0 || i >= ts.len() {
        None
    } else if ts[i].kind == TokenKind::RBrace && n.flat() && n.after(ts[i].kind).braces == 0 {
        Some(i)
    } else {
        body_end(ts, i + 1, n.after(ts[i].kind))
    }
}

/// Whether a statement that starts with a token returns the value of an expression.
pub open spec fn starts_expression(t: TokenV) -> bool {
    !(t.kind == TokenKind::Let || t.kind == TokenKind::Fn || t.kind == TokenKind::Struct || t.kind
        == TokenKind::Pub || t.kind == TokenKind::Use || t.kind == TokenKind::Import || t.kind
        == TokenKind::For || t.kind == TokenKind::If || t.kind == TokenKind::While || t.kind
        == TokenKind::Break || t.kind == TokenKind::Continue || (t.kind == TokenKind::Ident
        && t.text == "return"@))
}

/// Whether the first token between two positions that is no semicolon starts an
/// expression.
pub open spec fn looks_like_return(ts: Seq<TokenV>, i: int, end: int) -> bool
    decreases end + 1 - i,
{
    if i < 0 || i > end || i >= ts.len() {
        false
    } else if ts[i].kind == TokenKind::Semicolon {
        looks_like_return(ts, i + 1, end)
    } else {
        starts_expression(ts[i])
    }
}

/// What is known of the statements of a body so far: where the next one starts, the
/// last one that a semicolon ended, and whether anything came behind it.
pub struct Tail {
    pub start: int,
    pub last: Option<(int, int)>,
    pub more: bool,
}

/// The diagnostic on a semicolon.
pub open spec fn return_semicolon(t: TokenV) -> ParseErrorV {
    ParseErrorV {
        line: t.line,
        message: "function return expression should not end with ';'"@,
        span: Some(t.span),
        code: None,
    }
}

/// Whether a token changes the nesting or ends a statement of the body itself.
pub open spec fn structural(n: Nesting, k: TokenKind) -> bool {
    k == TokenKind::LParen || k == TokenKind::RParen || k == TokenKind::LBracket || k
        == TokenKind::RBracket || (k == TokenKind::LBrace && n.flat()) || (k == TokenKind::Semicolon
        && n.braces == 1 && n.flat()) || (k == TokenKind::RBrace && n.flat())
}

/// What is known behind a token.
pub open spec fn tail_after(t: Tail, n: Nesting, k: TokenKind, i: int) -> Tail {
    if k == TokenKind::Semicolon && n.braces == 1 && n.flat() {
        Tail { start: i + 1, last: Some((t.start, i)), more: false }
    } else if !structural(n, k) && n.braces == 1 && n.flat() && k != TokenKind::Eof {
        Tail { more: true, ..t }
    } else {
        t
    }
}

/// The diagnostic on a body from position `i` on, up to its end.
pub open spec fn body_diagnostic(ts: Seq<TokenV>, i: int, end: int, n: Nesting, t: Tail) -> Option<
    ParseErrorV,
>
    decreases end + 1 - i,
{
    if i < 0 || i > end || i >= ts.len() {
        None
    } else {
        let k = ts[i].kind;
        if k == TokenKind::RBrace && n.flat() && n.after(k).braces == 0 {
            match t.last {
                Some((start, semi)) => if !t.more && looks_like_return(ts, start, semi) && 0 <= semi
                    < ts.len() {
                    Some(return_semicolon(ts[semi]))
                } else {
                    None
                },
                None => None,
            }
        } else {
            body_diagnostic(ts, i + 1, end, n.after(k), tail_after(t, n, k, i))
        }
    }
}

/// The nesting behind the brace that opens a body.
pub open spec fn in_body() -> Nesting {
    Nesting { braces: 1, parens: 0, brackets: 0 }
}

/// The diagnostic on the body between two braces.
pub open spec fn diagnostic_of_body(ts: Seq<TokenV>, start: int, end: int) -> Option<ParseErrorV> {
    body_diagnostic(
        ts,
        start + 1,
        end,
        in_body(),
        Tail { start: start + 1, last: None, more: false },
    )
}

/// The diagnostics on the functions from position `i` on. Functions inside a body
/// are part of that body.
pub open spec fn diagnostics_from(ts: Seq<TokenV>, i: int) -> Seq<ParseErrorV>
    decreases ts.len() - i,
{
    if i < 0 || i >= ts.len() {
        Seq::empty()
    } else if ts[i].kind != TokenKind::Fn {
        diagnostics_from(ts, i + 1)
    } else {
        match body_start(ts, i + 1, 0) {
            None => diagnostics_from(ts, i + 1),
            Some(start) => match body_end(ts, start + 1, in_body()) {
                None => Seq::empty(),
                Some(end) => {
                    let rest = if i < end < ts.len() {
                        diagnostics_from(ts, end + 1)
                    } else {
                        Seq::empty()
                    };
                    match diagnostic_of_body(ts, start, end) {
                        Some(d) => seq![d] + rest,
                        None => rest,
                    }
                },
            },
        }
    }
}

/// The models of a list of errors.
pub open spec fn errors_view(s: Seq<ParseError>) -> Seq<ParseErrorV> {
    Seq::new(s.len(), |i: int| s[i]@)
}

proof fn lemma_body_start(ts: Seq<TokenV>, i: int, parens: nat)
    ensures
        body_start(ts, i, parens) matches Some(s) ==> i <= s < ts.len(),
    decreases ts.len() - i,
{
    if 0 <= i < ts.len() {
        lemma_body_start(ts, i + 1, parens + 1);
        lemma_body_start(ts, i + 1, less_one(parens));
        lemma_body_start(ts, i + 1, parens);
    }
}

proof fn lemma_body_end(ts: Seq<TokenV>, i: int, n: Nesting)
    ensures
        body_end(ts, i, n) matches Some(s) ==> i <= s < ts.len(),
    decreases ts.len() - i,
{
    if 0 <= i < ts.len() {
        lemma_body_end(ts, i + 1, n.after(ts[i].kind));
    }
}

/// How deep a position is nested.
#[derive(Clone, Copy)]
struct Depths {
    braces: usize,
    parens: usize,
    brackets: usize,
}

impl Depths {
    spec fn view(&self) -> Nesting {
        Nesting {
            braces: self.braces as nat,
            parens: self.parens as nat,
            brackets: self.brackets as nat,
        }
    }

    /// No depth is greater than a bound.
    spec fn within(&self, bound: int) -> bool {
        self.braces <= bound && self.parens <= bound && self.brackets <= bound
    }

    fn flat(self) -> (r: bool)
        ensures
            r == self@.flat(),
    {
        self.parens == 0 && self.brackets == 0
    }

    fn after(self, k: TokenKind, Ghost(bound): Ghost<int>) -> (r: Depths)
        requires
            self.within(bound),
            bound < usize::MAX,
        ensures
            r@ == self@.after(k),
            r.within(bound + 1),
    {
        let mut d = self;
        if k == TokenKind::LParen {
            d.parens += 1;
        } else if k == TokenKind::RParen {
            if d.parens > 0 {
                d.parens -= 1;
            }
        } else if k == TokenKind::LBracket {
            d.brackets += 1;
        } else if k == TokenKind::RBracket {
            if d.brackets > 0 {
                d.brackets -= 1;
            }
        } else if k == TokenKind::LBrace && self.flat() {
            d.braces += 1;
        } else if k == TokenKind::RBrace && self.flat() {
            if d.braces > 0 {
                d.braces -= 1;
            }
        }
        d
    }
}

fn find_function_block_start(tokens: &Vec<Token>, start: usize) -> (r: Option<usize>)
    requires
        start <= tokens@.len(),
    ensures
        r is Some <==> body_start(tokens_view(tokens@), start as int, 0) is Some,
        r matches Some(s) ==> body_start(tokens_view(tokens@), start as int, 0) == Some(s as int)
            && start <= s < tokens@.len(),
{
    let ghost ts = tokens_view(tokens@);
    let mut parens: usize = 0;
    let mut i: usize = start;
    while i < tokens.len()
        invariant
            start <= i <= tokens@.len(),
            ts == tokens_view(tokens@),
            parens <= i,
            body_start(ts, start as int, 0) == body_start(ts, i as int, parens as nat),
        decreases tokens@.len() - i,
    {
        let k = tokens[i].kind;
        if k == TokenKind::LParen {
            parens += 1;
        } else if k == TokenKind::RParen {
            if parens > 0 {
                parens -= 1;
            }
        } else if parens == 0 && k == TokenKind::LBrace {
            return Some(i);
        } else if parens == 0 && (k == TokenKind::Equal || k == TokenKind::Semicolon || k
            == TokenKind::Eof) {
            return None;
        }
        i += 1;
    }
    None
}

fn find_matching_block_end(tokens: &Vec<Token>, block_start: usize) -> (r: Option<usize>)
    requires
        block_start < tokens@.len(),
    ensures
        r is Some <==> body_end(tokens_view(tokens@), block_start + 1, in_body()) is Some,
        r matches Some(e) ==> body_end(tokens_view(tokens@), block_start + 1, in_body()) == Some(
            e as int,
        ) && block_start < e < tokens@.len(),
{
    let ghost ts = tokens_view(tokens@);
    let total: usize = tokens.len();
    let mut d = Depths { braces: 1, parens: 0, brackets: 0 };
    let mut i: usize = block_start + 1;
    while i < total
        invariant
            block_start < i <= tokens@.len(),
            total == tokens@.len(),
            ts == tokens_view(tokens@),
            d.within(i as int),
            body_end(ts, block_start + 1, in_body()) == body_end(ts, i as int, d@),
        decreases tokens@.len() - i,
    {
        let k = tokens[i].kind;
        let next = d.after(k, Ghost(i as int));
        if k == TokenKind::RBrace && d.flat() && next.braces == 0 {
            return Some(i);
        }
        d = next;
        i += 1;
    }
    None
}

fn token_starts_expression(t: &Token) -> (r: bool)
    ensures
        r == starts_expression(t@),
{
    let k = t.kind;
    !(k == TokenKind::Let || k == TokenKind::Fn || k == TokenKind::Struct || k == TokenKind::Pub
        || k == TokenKind::Use || k == TokenKind::Import || k == TokenKind::For || k
        == TokenKind::If || k == TokenKind::While || k == TokenKind::Break || k
        == TokenKind::Continue || (k == TokenKind::Ident && same_text(t.text.as_str(), "return")))
}

fn statement_looks_like_function_return(tokens: &Vec<Token>, start: usize, end: usize) -> (r: bool)
    requires
        end < tokens@.len(),
    ensures
        r == looks_like_return(tokens_view(tokens@), start as int, end as int),
{
    let ghost ts = tokens_view(tokens@);
    let total: usize = tokens.len();
    let mut i: usize = start;
    while i <= end
        invariant
            start <= i,
            end < tokens@.len(),
            total == tokens@.len(),
            i <= end + 1 || i == start,
            ts == tokens_view(tokens@),
            looks_like_return(ts, start as int, end as int) == looks_like_return(
                ts,
                i as int,
                end as int,
            ),
        decreases end + 1 - i,
    {
        if tokens[i].kind != TokenKind::Semicolon {
            return token_starts_expression(&tokens[i]);
        }
        i += 1;
    }
    false
}

fn lint_function_block_tail(
    tokens: &Vec<Token>,
    block_start: usize,
    block_end: usize,
) -> (r: Option<
    ParseError,
>)
    requires
        block_start < block_end < tokens@.len(),
    ensures
        r is Some <==> diagnostic_of_body(
            tokens_view(tokens@),
            block_start as int,
            block_end as int,
        ) is Some,
        r matches Some(e) ==> diagnostic_of_body(
            tokens_view(tokens@),
            block_start as int,
            block_end as int,
        ) == Some(e@),
{
    let ghost ts = tokens_view(tokens@);
    let total: usize = tokens.len();
    let mut start: usize = block_start + 1;
    let mut last: Option<(usize, usize)> = None;
    let mut more = false;
    let mut d = Depths { braces: 1, parens: 0, brackets: 0 };
    let mut i: usize = block_start + 1;
    let ghost whole = diagnostic_of_body(ts, block_start as int, block_end as int);
    while i <= block_end
        invariant
            block_start < i <= block_end + 1,
            block_end < tokens@.len(),
            total == tokens@.len(),
            ts == tokens_view(tokens@),
            start <= i,
            d.within(i as int),
            last matches Some((s, e)) ==> s <= e < i,
            whole == diagnostic_of_body(ts, block_start as int, block_end as int),
            whole == body_diagnostic(
                ts,
                i as int,
                block_end as int,
                d@,
                Tail {
                    start: start as int,
                    last: match last {
                        Some((s, e)) => Some((s as int, e as int)),
                        None => None,
                    },
                    more,
                },
            ),
        decreases block_end + 1 - i,
    {
        let k = tokens[i].kind;
        let next = d.after(k, Ghost(i as int));
        if k == TokenKind::RBrace && d.flat() && next.braces == 0 {
            return match last {
                Some((s, e)) => {
                    if more || !statement_looks_like_function_return(tokens, s, e) {
                        None
                    } else {
                        Some(
                            ParseError {
                                line: tokens[e].line,
                                message:
                                    "function return expression should not end with ';'".to_string(),
                                span: Some(tokens[e].span),
                                code: None,
                            },
                        )
                    }
                },
                None => None,
            };
        }
        if k == TokenKind::Semicolon && d.braces == 1 && d.flat() {
            last = Some((start, i));
            start = i + 1;
            more = false;
        } else if d.braces == 1 && d.flat() && k != TokenKind::LParen && k != TokenKind::RParen && k
            != TokenKind::LBracket && k != TokenKind::RBracket && k != TokenKind::LBrace && k
            != TokenKind::RBrace && k != TokenKind::Eof {
            more = true;
        }
        d = next;
        i += 1;
    }
    None
}

fn find_function_return_semicolon_diagnostics(tokens: &Vec<Token>) -> (r: Vec<ParseError>)
    ensures
        errors_view(r@) == diagnostics_from(tokens_view(tokens@), 0),
{
    let ghost ts = tokens_view(tokens@);
    let mut out: Vec<ParseError> = Vec::new();
    let ghost whole = diagnostics_from(ts, 0);
    let mut i: usize = 0;
    assert(errors_view(out@) =~= Seq::<ParseErrorV>::empty());
    while i < tokens.len()
        invariant
            i <= tokens@.len(),
            ts == tokens_view(tokens@),
            whole == diagnostics_from(ts, 0),
            whole =~= errors_view(out@) + diagnostics_from(ts, i as int),
        decreases tokens@.len() - i,
    {
        if tokens[i].kind != TokenKind::Fn {
            i += 1;
        } else {
            match find_function_block_start(tokens, i + 1) {
                None => {
                    i += 1;
                },
                Some(start) => match find_matching_block_end(tokens, start) {
                    None => {
                        return out;
                    },
                    Some(end) => {
                        let ghost before = out@;
                        match lint_function_block_tail(tokens, start, end) {
                            Some(diagnostic) => {
                                let ghost model = diagnostic@;
                                out.push(diagnostic);
                                assert(errors_view(out@) =~= errors_view(before).push(model));
                            },
                            None => {},
                        }
                        i = end + 1;
                    },
                },
            }
        }
    }
    out
}

/// The diagnostics on a source text.
pub fn lint_trailing_function_return_semicolons(
    source: &str,
    source_id: SourceId,
    dialect: &Dialect,
) -> (r: Result<Vec<ParseError>, ParseError>)
    ensures
        match lexed_all(*dialect, source@, source_id, 0) {
            Ok(ts) => r is Ok && errors_view(r->Ok_0@) == diagnostics_from(ts, 0),
            Err(e) => r is Err && r->Err_0@ == e,
        },
{
    match lex_tokens(source, source_id, dialect) {
        Ok(tokens) => Ok(find_function_return_semicolon_diagnostics(&tokens)),
        Err(e) => Err(e),
    }
}

/// Whether a diagnostic points at a semicolon of the text.
pub open spec fn points_at_semicolon(ts: Seq<TokenV>, d: ParseErrorV) -> bool {
    exists|j: int|
        0 <= j < ts.len() && ts[j].kind == TokenKind::Semicolon && #[trigger] return_semicolon(ts[j])
            == d
}

/// Every diagnostic points at a semicolon of the text.
pub proof fn law_diagnostics_point_at_semicolons(ts: Seq<TokenV>, i: int)
    requires
        0 <= i,
    ensures
        forall|k: int|
            0 <= k < diagnostics_from(ts, i).len() ==> points_at_semicolon(
                ts,
                #[trigger] diagnostics_from(ts, i)[k],
            ),
    decreases ts.len() - i,
{
    if i < ts.len() {
        let all = diagnostics_from(ts, i);
        if ts[i].kind != TokenKind::Fn || body_start(ts, i + 1, 0) is None {
            law_diagnostics_point_at_semicolons(ts, i + 1);
            assert(all == diagnostics_from(ts, i + 1));
        } else {
            let start = body_start(ts, i + 1, 0)->0;
            lemma_body_start(ts, i + 1, 0);
            lemma_body_end(ts, start + 1, in_body());
            match body_end(ts, start + 1, in_body()) {
                None => {
                    assert(all.len() == 0);
                },
                Some(end) => {
                    law_diagnostics_point_at_semicolons(ts, end + 1);
                    lemma_diagnostic_is_semicolon(
                        ts,
                        start + 1,
                        end,
                        in_body(),
                        Tail { start: start + 1, last: None, more: false },
                    );
                    let rest = diagnostics_from(ts, end + 1);
                    match diagnostic_of_body(ts, start, end) {
                        Some(d) => {
                            assert(all == seq![d] + rest);
                            assert forall|k: int| 0 <= k < all.len() implies points_at_semicolon(
                                ts,
                                #[trigger] all[k],
                            ) by {
                                if k > 0 {
                                    assert(all[k] == rest[k - 1]);
                                }
                            }
                        },
                        None => {
                            assert(all == rest);
                        },
                    }
                },
            }
        }
    }
}

proof fn lemma_diagnostic_is_semicolon(ts: Seq<TokenV>, i: int, end: int, n: Nesting, t: Tail)
    requires
        0 <= i,
        t.last matches Some((_, e)) ==> 0 <= e < ts.len() && ts[e].kind == TokenKind::Semicolon,
    ensures
        body_diagnostic(ts, i, end, n, t) matches Some(d) ==> points_at_semicolon(ts, d),
    decreases end + 1 - i,
{
    if i <= end && i < ts.len() {
        let k = ts[i].kind;
        lemma_diagnostic_is_semicolon(ts, i + 1, end, n.after(k), tail_after(t, n, k, i));
    }
}

} // verus!
