//! What formatting is for: where spaces, line feeds and indents stand in a formatted text.

use vstd::prelude::*;
use crate::format::{
    before_token, ends_operand, expectation_at, gap, group_close, inline_width, repeated,
    root_nesting, trimmed, BraceKind, ContextKind, FmtV, GroupSort, PlaceV, PrevKind,
};
use crate::lexer::{TokenKind, TokenV};
use crate::lexer_laws::{keyword_text, sign_text};
use crate::text::white_space;
use crate::text_laws::is_loose;

verus! {

/// The state once the token at hand is written, with what stands before it.
pub open spec fn stepped(f: FmtV, at: PlaceV) -> FmtV {
    before_token(f, at).token(at)
}

/// Whether nothing but blanks stands between a token and the one before it.
pub open spec fn follows_blanks(at: PlaceV) -> bool {
    forall|i: int|
        at.gap_start() <= i < at.ts[at.index].start ==> #[trigger] at.src[i] != '\n' && at.src[i]
            != '/'
}

/// Whether the token at hand is a name or a literal.
pub open spec fn is_word(at: PlaceV) -> bool {
    let k = at.ts[at.index].kind;
    k == TokenKind::Ident || k == TokenKind::Int || k == TokenKind::IntMinMagnitude || k
        == TokenKind::Float || k == TokenKind::String || k == TokenKind::True || k
        == TokenKind::False || k == TokenKind::Null
}

/// Whether a state stands inside a line, with no line feed asked for.
pub open spec fn inside_line(f: FmtV) -> bool {
    !f.line_start && f.pending_newlines == 0 && !f.pending_code_break && f.out.len() > 0
        && f.out.last() != ' '
}

proof fn lemma_blanks(f: FmtV, at: PlaceV, p: int, end: int, saw: bool)
    requires
        forall|i: int| p <= i < end ==> #[trigger] at.src[i] != '\n' && at.src[i] != '/',
    ensures
        gap(f, at, p, end, saw) == (f, saw),
    decreases end - p,
{
    if 0 <= p < end && p < at.src.len() {
        lemma_blanks(f, at, p + 1, end, saw);
    }
}

proof fn lemma_before(f: FmtV, at: PlaceV)
    requires
        follows_blanks(at),
    ensures
        before_token(f, at) == if f.pending_code_break {
            f.request_newline(1)
        } else {
            f
        },
{
    lemma_blanks(f, at, at.gap_start(), at.ts[at.index].start, false);
}

// ---------------------------------------------------------------------------
// Operators.

/// Whether a sign stands between two operands.
pub open spec fn is_infix(k: TokenKind) -> bool {
    k == TokenKind::Plus || k == TokenKind::Minus || k == TokenKind::Star || k == TokenKind::Slash
        || k == TokenKind::Percent || k == TokenKind::EqualEqual || k == TokenKind::BangEqual || k
        == TokenKind::Less || k == TokenKind::LessEqual || k == TokenKind::Greater || k
        == TokenKind::GreaterEqual || k == TokenKind::AmpersandAmpersand || k == TokenKind::PipePipe
        || k == TokenKind::Equal || k == TokenKind::PlusEqual || k == TokenKind::FatArrow
}

proof fn lemma_sign_texts()
    ensures
        "+"@ == seq!['+'],
        "+="@ == seq!['+', '='],
        "-"@ == seq!['-'],
        "*"@ == seq!['*'],
        "/"@ == seq!['/'],
        "%"@ == seq!['%'],
        "=="@ == seq!['=', '='],
        "!="@ == seq!['!', '='],
        "<"@ == seq!['<'],
        "<="@ == seq!['<', '='],
        ">"@ == seq!['>'],
        ">="@ == seq!['>', '='],
        "&&"@ == seq!['&', '&'],
        "||"@ == seq!['|', '|'],
        "="@ == seq!['='],
        "=>"@ == seq!['=', '>'],
        "!"@ == seq!['!'],
        "&"@ == seq!['&'],
        ","@ == seq![','],
        "."@ == seq!['.'],
        ";"@ == seq![';'],
        ":"@ == seq![':'],
        "("@ == seq!['('],
        ")"@ == seq![')'],
        "["@ == seq!['['],
        "]"@ == seq![']'],
        "{"@ == seq!['{'],
        "}"@ == seq!['}'],
        "++"@ == seq!['+', '+'],
{
    reveal_strlit("+");
    reveal_strlit("+=");
    reveal_strlit("-");
    reveal_strlit("*");
    reveal_strlit("/");
    reveal_strlit("%");
    reveal_strlit("==");
    reveal_strlit("!=");
    reveal_strlit("<");
    reveal_strlit("<=");
    reveal_strlit(">");
    reveal_strlit(">=");
    reveal_strlit("&&");
    reveal_strlit("||");
    reveal_strlit("=");
    reveal_strlit("=>");
    reveal_strlit("!");
    reveal_strlit("&");
    reveal_strlit(",");
    reveal_strlit(".");
    reveal_strlit(";");
    reveal_strlit(":");
    reveal_strlit("(");
    reveal_strlit(")");
    reveal_strlit("[");
    reveal_strlit("]");
    reveal_strlit("{");
    reveal_strlit("}");
    reveal_strlit("++");
    assert("+"@ =~= seq!['+']);
    assert("+="@ =~= seq!['+', '=']);
    assert("-"@ =~= seq!['-']);
    assert("*"@ =~= seq!['*']);
    assert("/"@ =~= seq!['/']);
    assert("%"@ =~= seq!['%']);
    assert("=="@ =~= seq!['=', '=']);
    assert("!="@ =~= seq!['!', '=']);
    assert("<"@ =~= seq!['<']);
    assert("<="@ =~= seq!['<', '=']);
    assert(">"@ =~= seq!['>']);
    assert(">="@ =~= seq!['>', '=']);
    assert("&&"@ =~= seq!['&', '&']);
    assert("||"@ =~= seq!['|', '|']);
    assert("="@ =~= seq!['=']);
    assert("=>"@ =~= seq!['=', '>']);
    assert("!"@ =~= seq!['!']);
    assert("&"@ =~= seq!['&']);
    assert(","@ =~= seq![',']);
    assert("."@ =~= seq!['.']);
    assert(";"@ =~= seq![';']);
    assert(":"@ =~= seq![':']);
    assert("("@ =~= seq!['(']);
    assert(")"@ =~= seq![')']);
    assert("["@ =~= seq!['[']);
    assert("]"@ =~= seq![']']);
    assert("{"@ =~= seq!['{']);
    assert("}"@ =~= seq!['}']);
    assert("++"@ =~= seq!['+', '+']);
}

/// Writing a text in a line puts it behind one space where one was asked for.
proof fn lemma_written(f: FmtV, text: Seq<char>)
    requires
        inside_line(f),
    ensures
        f.write(text).out == f.out + (if f.pending_space {
            seq![' ']
        } else {
            Seq::empty()
        }) + text,
        !f.write(text).pending_space,
        f.write(text).pending_newlines == 0,
        !f.write(text).pending_code_break,
        !text.contains('\n') && text.len() > 0 ==> !f.write(text).line_start,
        f.write(text).prev == f.prev,
        f.write(text).indent == f.indent,
        f.write(text).contexts == f.contexts,
        f.write(text).expectations == f.expectations,
        f.write(text).generic_depth == f.generic_depth,
        f.write(text).in_fn_signature == f.in_fn_signature,
{
    if f.pending_space {
        assert(f.out.push(' ') =~= f.out + seq![' ']);
    } else {
        assert(f.out + Seq::<char>::empty() =~= f.out);
    }
    lemma_last_line(text, text.len() as int);
}

proof fn lemma_last_line(s: Seq<char>, n: int)
    requires
        0 <= n <= s.len(),
    ensures
        !s.contains('\n') ==> crate::format::last_line_start(s, n) == 0,
    decreases n,
{
    if n > 0 && s[n - 1] != '\n' {
        lemma_last_line(s, n - 1);
    }
}

proof fn lemma_word(f: FmtV, at: PlaceV)
    requires
        is_word(at),
    ensures
        f.token(at) == f.word(at.text()),
{
    reveal(FmtV::token);
}

proof fn lemma_binary(f: FmtV, t: Seq<char>, p: PrevKind)
    requires
        inside_line(f),
    ensures
        ({
            let g = f.binary(t, p);
            let b = f.request_space().write(t);
            &&& g.out == b.out
            &&& g.pending_space == (!b.line_start)
            &&& g.line_start == b.line_start
            &&& g.pending_newlines == b.pending_newlines
            &&& g.pending_code_break == b.pending_code_break
            &&& g.prev == Some(p)
        }),
{
    lemma_written(f.request_space(), t);
}

proof fn lemma_infix(f: FmtV, at: PlaceV)
    requires
        inside_line(f),
        ends_operand(f.prev),
        is_infix(at.ts[at.index].kind),
        at.ts[at.index].kind == TokenKind::Less ==> !f.opens_generics(at),
        at.ts[at.index].kind == TokenKind::Greater ==> f.generic_depth == 0,
        at.ts[at.index].kind == TokenKind::Minus ==> at.peek(1) != Some(TokenKind::Greater),
    ensures
        ({
            let g = f.token(at);
            let b = f.request_space().write(sign_text(at.ts[at.index].kind)->0);
            &&& g.out == b.out
            &&& g.pending_space == !b.line_start
            &&& g.line_start == b.line_start
            &&& g.pending_newlines == b.pending_newlines
            &&& g.pending_code_break == b.pending_code_break
            &&& !ends_operand(g.prev)
        }),
{
    lemma_sign_texts();
    let k = at.ts[at.index].kind;
    let t = sign_text(k)->0;
    let g = f.token(at);
    if k != TokenKind::Equal && k != TokenKind::FatArrow {
        reveal(FmtV::token);
        assert(k == TokenKind::Plus ==> g == f.binary(t, PrevKind::Plus));
        assert(k == TokenKind::Minus ==> g == f.binary(t, PrevKind::Minus));
        assert(k == TokenKind::Star ==> g == f.binary(t, PrevKind::Star));
        assert(k == TokenKind::Slash ==> g == f.binary(t, PrevKind::Slash));
        assert(k == TokenKind::Percent ==> g == f.binary(t, PrevKind::Percent));
        assert(k == TokenKind::EqualEqual ==> g == f.binary(t, PrevKind::EqEq));
        assert(k == TokenKind::BangEqual ==> g == f.binary(t, PrevKind::BangEq));
        assert(k == TokenKind::Less ==> g == f.binary(t, PrevKind::Less));
        assert(k == TokenKind::LessEqual ==> g == f.binary(t, PrevKind::LessEq));
        assert(k == TokenKind::Greater ==> g == f.binary(t, PrevKind::Greater));
        assert(k == TokenKind::GreaterEqual ==> g == f.binary(t, PrevKind::GreaterEq));
        assert(k == TokenKind::AmpersandAmpersand ==> g == f.binary(t, PrevKind::AndAnd));
        assert(k == TokenKind::PipePipe ==> g == f.binary(t, PrevKind::OrOr));
        assert(k == TokenKind::PlusEqual ==> g == f.binary(t, PrevKind::PlusEqual));
    }
    assert(k == TokenKind::Equal ==> g == f.equal()) by {
        reveal(FmtV::token);
    }
    assert(k == TokenKind::FatArrow ==> g == f.fat_arrow(at)) by {
        reveal(FmtV::token);
    }
    if k == TokenKind::Equal {
        lemma_binary(f, t, PrevKind::Equal);
    } else if k == TokenKind::FatArrow {
        lemma_binary(f, t, PrevKind::FatArrow);
    } else {
        assert(exists|p: PrevKind| !ends_operand(Some(p)) && g == #[trigger] f.binary(t, p));
        let p = choose|p: PrevKind| !ends_operand(Some(p)) && g == #[trigger] f.binary(t, p);
        lemma_binary(f, t, p);
    }
}

/// An operator stands between single spaces, whatever blanks stand around it.
pub proof fn law_operators_stand_between_spaces(f: FmtV, at: PlaceV)
    requires
        inside_line(f),
        ends_operand(f.prev),
        is_infix(at.ts[at.index].kind),
        at.ts[at.index].kind == TokenKind::Less ==> !f.opens_generics(at),
        at.ts[at.index].kind == TokenKind::Greater ==> f.generic_depth == 0,
        at.index + 1 < at.ts.len(),
        0 <= at.index,
        follows_blanks(at),
        follows_blanks(at.on(1)),
        is_word(at.on(1)),
    ensures
        stepped(stepped(f, at), at.on(1)).out == f.out + seq![' ']
            + sign_text(at.ts[at.index].kind)->0 + seq![' '] + at.on(1).text(),
{
    lemma_before(f, at);
    let t = sign_text(at.ts[at.index].kind)->0;
    assert(!t.contains('\n'));
    lemma_written(f.request_space(), t);
    assert(at.peek(1) == Some(at.ts[at.index + 1].kind));
    lemma_infix(f, at);
    let h = stepped(f, at);
    assert(h.out == f.out + seq![' '] + t);
    assert(h.out.last() == t.last());
    assert(inside_line(h));
    lemma_before(h, at.on(1));
    lemma_word(h, at.on(1));
    lemma_written(h.space_before_word(), at.on(1).text());
}

/// A sign in front of its operand takes no space behind it, and before it only one that was
/// asked for.
pub proof fn law_prefixes_stand_before_their_operand(f: FmtV, at: PlaceV)
    requires
        inside_line(f),
        !ends_operand(f.prev),
        ({
            let k = at.ts[at.index].kind;
            k == TokenKind::Minus || k == TokenKind::Bang || k == TokenKind::Ampersand
        }),
        at.index + 1 < at.ts.len(),
        0 <= at.index,
        follows_blanks(at),
        follows_blanks(at.on(1)),
        is_word(at.on(1)),
    ensures
        stepped(stepped(f, at), at.on(1)).out == f.out + (if f.pending_space {
            seq![' ']
        } else {
            Seq::empty()
        }) + sign_text(at.ts[at.index].kind)->0 + at.on(1).text(),
{
    reveal(FmtV::token);
    lemma_sign_texts();
    lemma_before(f, at);
    let t = sign_text(at.ts[at.index].kind)->0;
    assert(!t.contains('\n'));
    lemma_written(f, t);
    let h = stepped(f, at);
    assert(h.out.last() == t.last());
    lemma_before(h, at.on(1));
    let w = h.space_before_word();
    lemma_written(w, at.on(1).text());
    assert(h.out + Seq::<char>::empty() =~= h.out);
}

/// Whether a sign stands right behind what is before it.
pub open spec fn is_tight(k: TokenKind) -> bool {
    k == TokenKind::Comma || k == TokenKind::Dot || k == TokenKind::Semicolon || k
        == TokenKind::Colon
}

proof fn lemma_tight(f: FmtV, at: PlaceV)
    requires
        inside_line(f),
        is_tight(at.ts[at.index].kind),
        at.peek(1) != Some(TokenKind::Colon),
    ensures
        f.token(at) == match at.ts[at.index].kind {
            TokenKind::Comma => f.comma(at),
            TokenKind::Dot => f.tight(seq!['.'], PrevKind::Dot),
            TokenKind::Colon => f.colon(at),
            _ => f.semicolon(at),
        },
        f.token(at).out == f.out + sign_text(at.ts[at.index].kind)->0,
        f.token(at).indent == f.indent,
        f.token(at).contexts == f.contexts,
        !f.token(at).line_start,
        !ends_operand(f.token(at).prev),
{
    reveal(FmtV::token);
    lemma_sign_texts();
    let t = sign_text(at.ts[at.index].kind)->0;
    assert(!t.contains('\n'));
    lemma_written(f.clear_space(), t);
    assert(f.out + Seq::<char>::empty() =~= f.out);
}

/// A comma, a dot, a colon and a semicolon stand right behind what is before them, and a name
/// right behind a dot; a comma and a colon are followed by a space.
pub proof fn law_signs_stand_behind_what_is_before_them(f: FmtV, at: PlaceV)
    requires
        inside_line(f),
        is_tight(at.ts[at.index].kind),
        at.index + 1 < at.ts.len(),
        0 <= at.index,
        follows_blanks(at),
        follows_blanks(at.on(1)),
        is_word(at.on(1)),
    ensures
        stepped(f, at).out == f.out + sign_text(at.ts[at.index].kind)->0,
        at.ts[at.index].kind == TokenKind::Dot ==> stepped(stepped(f, at), at.on(1)).out == f.out
            + seq!['.'] + at.on(1).text(),
        at.ts[at.index].kind == TokenKind::Comma && f.contexts.len() == 0 ==> stepped(
            stepped(f, at),
            at.on(1),
        ).out == f.out + seq![',', ' '] + at.on(1).text(),
        at.ts[at.index].kind == TokenKind::Colon && f.contexts.len() == 0 ==> stepped(
            stepped(f, at),
            at.on(1),
        ).out == f.out + seq![':', ' '] + at.on(1).text(),
        at.ts[at.index].kind == TokenKind::Comma && f.contexts.len() > 0
            && !f.contexts.last().indented && (f.contexts.last().kind is Paren
            || f.contexts.last().kind is Bracket) ==> stepped(stepped(f, at), at.on(1)).out == f.out
            + seq![',', ' '] + at.on(1).text(),
        at.ts[at.index].kind == TokenKind::Comma && f.generic_depth == 0 && f.contexts.len() > 0
            && f.contexts.last().indented && (f.contexts.last().kind is Paren
            || f.contexts.last().kind is Bracket) && f.indent * 4 <= usize::MAX ==> stepped(
            stepped(f, at),
            at.on(1),
        ).out == f.out + seq![',', '\n'] + repeated(' ', (f.indent * 4) as nat) + at.on(1).text(),
        at.ts[at.index].kind == TokenKind::Colon && f.contexts.len() > 0
            && f.contexts.last().kind is Bracket ==> stepped(stepped(f, at), at.on(1)).out == f.out
            + seq![':'] + at.on(1).text(),
{
    lemma_before(f, at);
    let k = at.ts[at.index].kind;
    let t = sign_text(k)->0;
    assert(at.peek(1) == Some(at.ts[at.index + 1].kind));
    lemma_tight(f, at);
    let h = stepped(f, at);
    assert(h.out.last() == t.last());
    assert(trimmed(h.out) == h.out);
    if k == TokenKind::Dot || k == TokenKind::Comma || k == TokenKind::Colon {
        lemma_sign_texts();
        assert(!t.contains('\n'));
        lemma_written(f.clear_space(), t);
        lemma_before(h, at.on(1));
        lemma_word(h, at.on(1));
        if h.pending_newlines == 0 && !h.pending_code_break {
            lemma_written(h.space_before_word(), at.on(1).text());
            assert(f.out + t + seq![' '] =~= f.out + seq![t[0], ' ']);
            assert(f.out + t + Seq::<char>::empty() =~= f.out + t);
        } else if !h.pending_code_break {
            lemma_new_line(h, at.on(1));
            assert(f.out + t + repeated('\n', 1) =~= f.out + seq![t[0], '\n']);
        }
    }
}

// ---------------------------------------------------------------------------
// Lines.

/// A word behind a line feed that was asked for stands on a line of its own, at the indent, and
/// no blanks are left at the end of the line before.
proof fn lemma_new_line(f: FmtV, at: PlaceV)
    requires
        f.pending_newlines > 0,
        is_word(at),
    ensures
        f.indent * 4 <= usize::MAX ==> f.token(at).out == trimmed(f.out) + repeated(
            '\n',
            f.pending_newlines as nat,
        ) + repeated(' ', (f.indent * 4) as nat) + at.text(),
{
    reveal(FmtV::token);
}

/// A statement stands on a line of its own, at the indent: behind the semicolon of the one
/// before it.
pub proof fn law_statements_stand_on_their_lines(f: FmtV, at: PlaceV)
    requires
        inside_line(f),
        at.ts[at.index].kind == TokenKind::Semicolon,
        f.contexts.len() > 0 ==> !(f.contexts.last().kind is Paren),
        at.index + 1 < at.ts.len(),
        0 <= at.index,
        follows_blanks(at),
        follows_blanks(at.on(1)),
        is_word(at.on(1)),
        f.indent * 4 <= usize::MAX,
    ensures
        stepped(stepped(f, at), at.on(1)).out == f.out + seq![';', '\n'] + repeated(
            ' ',
            (f.indent * 4) as nat,
        ) + at.on(1).text(),
{
    reveal(FmtV::token);
    lemma_sign_texts();
    lemma_before(f, at);
    let g = f.clear_space();
    assert(!";"@.contains('\n'));
    assert(g.write(";"@).pending_newlines == 0) by {
        lemma_written(g, ";"@);
    }
    lemma_written(g, ";"@);
    let h = stepped(f, at);
    assert(h.out =~= f.out + seq![';']);
    assert(h.pending_code_break);
    assert(h.pending_newlines == 0);
    assert(h.indent == f.indent);
    lemma_before(h, at.on(1));
    let b = before_token(h, at.on(1));
    assert(b.pending_newlines == 1);
    assert(b.out == h.out);
    assert(trimmed(b.out) == b.out) by {
        assert(b.out.last() == ';');
    }
    lemma_new_line(b, at.on(1));
    assert(f.out + seq![';'] + repeated('\n', 1) =~= f.out + seq![';', '\n']);
}

/// Line feeds between two statements are kept, but no more than one blank line; inside an
/// operation they become a space.
pub proof fn law_blank_lines(f: FmtV, at: PlaceV, count: nat)
    requires
        inside_line(f),
        count > 0,
        is_word(at),
        !ends_operand(f.prev),
        trimmed(f.out) == f.out,
    ensures
        f.collapses_line_break(at) ==> f.gap_newlines(at, count, false).0.token(at).out == f.out
            + seq![' '] + at.text(),
        !f.collapses_line_break(at) && (f.contexts.len() == 0 || f.contexts.last().indented)
            && f.indent * 4 <= usize::MAX ==> f.gap_newlines(at, count, false).0.token(at).out
            == f.out + repeated(
            '\n',
            if count == 1 {
                1
            } else {
                2
            },
        ) + repeated(' ', (f.indent * 4) as nat) + at.text(),
{
    reveal(FmtV::token);
    let g = f.gap_newlines(at, count, false).0;
    if f.collapses_line_break(at) {
        lemma_written(g, at.text());
    } else {
        lemma_new_line(g, at);
    }
}

// ---------------------------------------------------------------------------
// Keywords.

/// A keyword stands as it is written, a space behind what is before it, and a space before what
/// follows it.
pub proof fn law_keywords_stand_between_spaces(f: FmtV, at: PlaceV)
    requires
        inside_line(f),
        f.prev == Some(PrevKind::Word) || f.prev == Some(PrevKind::RParen) || f.prev == Some(
            PrevKind::RBrace,
        ),
        ({
            let k = at.ts[at.index].kind;
            k == TokenKind::Pub || k == TokenKind::Use || k == TokenKind::As || k == TokenKind::Fn
                || k == TokenKind::Struct || k == TokenKind::Let || k == TokenKind::For || k
                == TokenKind::If || k == TokenKind::Else || k == TokenKind::Match || k
                == TokenKind::While
        }),
        at.index + 1 < at.ts.len(),
        0 <= at.index,
        follows_blanks(at),
        follows_blanks(at.on(1)),
        is_word(at.on(1)),
    ensures
        stepped(stepped(f, at), at.on(1)).out == f.out + seq![' ']
            + keyword_text(at.ts[at.index].kind)->0 + seq![' '] + at.on(1).text(),
{
    reveal(FmtV::token);
    lemma_keyword_texts();
    lemma_before(f, at);
    let t = keyword_text(at.ts[at.index].kind)->0;
    let g = f.request_space();
    lemma_written(g, t);
    let h = stepped(f, at);
    assert(h.out == f.out + seq![' '] + t);
    assert(h.out.last() == t.last());
    lemma_before(h, at.on(1));
    let w = h.space_before_word();
    lemma_written(w, at.on(1).text());
}

proof fn lemma_keyword_texts()
    ensures
        forall|k: TokenKind|
            (#[trigger] keyword_text(k)) matches Some(t) ==> t.len() > 0 && t.last() != ' '
                && !t.contains('\n'),
{
    reveal_strlit("pub");
    reveal_strlit("use");
    reveal_strlit("as");
    reveal_strlit("fn");
    reveal_strlit("struct");
    reveal_strlit("let");
    reveal_strlit("for");
    reveal_strlit("if");
    reveal_strlit("else");
    reveal_strlit("match");
    reveal_strlit("while");
    reveal_strlit("break");
    reveal_strlit("continue");
    reveal_strlit("true");
    reveal_strlit("false");
    reveal_strlit("null");
}

/// The braces behind a keyword hold what the keyword says: statements, arms or fields.
pub proof fn law_braces_hold_what_their_keyword_says(f: FmtV, at: PlaceV)
    requires
        0 <= at.index < at.ts.len(),
        f.prev != Some(PrevKind::PathSeparator),
        f.prev != Some(PrevKind::Dot),
        f.prev != Some(PrevKind::OptionalAccess),
    ensures
        ({
            let k = at.ts[at.index].kind;
            let g = f.token(at);
            &&& k == TokenKind::Fn || k == TokenKind::For || k == TokenKind::While ==> g.brace_kind()
                == BraceKind::Block
            &&& k == TokenKind::Match ==> g.brace_kind() == BraceKind::MatchBody
            &&& k == TokenKind::Struct ==> g.brace_kind() == BraceKind::StructBody
            &&& k == TokenKind::Else && at.peek(1) != Some(TokenKind::If) ==> g.brace_kind()
                == BraceKind::Block
        }),
{
    reveal(FmtV::token);
    let k = at.ts[at.index].kind;
    let g = f.token(at);
    if k == TokenKind::Fn || k == TokenKind::For || k == TokenKind::While || k == TokenKind::Match
        || k == TokenKind::Struct || (k == TokenKind::Else && at.peek(1) != Some(TokenKind::If)) {
        let n = g.expectations.len() as int;
        assert(n > 0);
        assert(g.expectations[n - 1].depths == g.depths());
        assert(expectation_at(g.expectations, g.depths(), n) == n - 1);
    }
}

// ---------------------------------------------------------------------------
// Groups.

/// What stands in round brackets stands right behind the opening one and right before the
/// closing one, which stands right behind a name.
pub proof fn law_groups_stand_close(f: FmtV, at: PlaceV)
    requires
        inside_line(f),
        ends_operand(f.prev),
        ({
            let k = at.ts[at.index].kind;
            let c = at.ts[at.index + 2].kind;
            (k == TokenKind::LParen && c == TokenKind::RParen) || (k == TokenKind::LBracket && c
                == TokenKind::RBracket)
        }),
        at.index + 2 < at.ts.len(),
        0 <= at.index,
        follows_blanks(at),
        follows_blanks(at.on(1)),
        follows_blanks(at.on(2)),
        is_word(at.on(1)),
        at.on(1).text().len() > 0,
        at.on(1).text().last() != ' ',
        !at.on(1).text().contains('\n'),
        !f.clear_space().write(sign_text(at.ts[at.index].kind)->0).too_wide(
            at,
            if at.ts[at.index].kind == TokenKind::LParen {
                GroupSort::Paren
            } else {
                GroupSort::Bracket
            },
        ),
    ensures
        ({
            let g = stepped(stepped(stepped(f, at), at.on(1)), at.on(2));
            &&& g.out == f.out + sign_text(at.ts[at.index].kind)->0 + at.on(1).text() + sign_text(
                at.ts[at.index + 2].kind,
            )->0
            &&& g.contexts == f.contexts
            &&& g.indent == f.indent
            &&& ends_operand(g.prev)
        }),
{
    reveal(FmtV::token);
    lemma_sign_texts();
    lemma_before(f, at);
    let t = sign_text(at.ts[at.index].kind)->0;
    let c = sign_text(at.ts[at.index + 2].kind)->0;
    assert(!t.contains('\n'));
    assert(!c.contains('\n'));
    lemma_written(f.clear_space(), t);
    let h = stepped(f, at);
    assert(h.out =~= f.out + t);
    assert(h.out.last() == t.last());
    assert(h.contexts.drop_last() =~= f.contexts);
    lemma_before(h, at.on(1));
    let w = at.on(1).text();
    lemma_written(h, w);
    let i = stepped(h, at.on(1));
    assert(i.out =~= f.out + t + w);
    assert(i.out.last() == w.last());
    lemma_before(i, at.on(2));
    let j = i.closing();
    assert(inside_line(j));
    lemma_written(j, c);
    assert(i.out + Seq::<char>::empty() =~= i.out);
}

proof fn lemma_block_opens(f: FmtV, at: PlaceV)
    requires
        inside_line(f),
        f.prev == Some(PrevKind::RParen) || f.prev == Some(PrevKind::Word),
        f.brace_kind() != BraceKind::Collection,
        at.ts[at.index].kind == TokenKind::LBrace,
        at.peek(1) != Some(TokenKind::RBrace),
        f.indent < usize::MAX,
    ensures
        ({
            let g = f.token(at);
            &&& g.out == f.out + seq![' ', '{']
            &&& g.contexts.len() > 0
            &&& g.contexts.drop_last() == f.contexts
            &&& g.contexts.last().indented
            &&& g.indent == f.indent + 1
            &&& g.pending_code_break
            &&& g.pending_newlines == 0
            &&& !g.line_start
            &&& g.prev == Some(PrevKind::LBrace)
        }),
{
    reveal(FmtV::token);
    lemma_sign_texts();
    let r = f.brace_resolved().request_space();
    assert(!seq!['{'].contains('\n'));
    lemma_written(r, seq!['{']);
    let g = f.token(at);
    assert(g.out =~= f.out + seq![' ', '{']);
    assert(g.contexts.drop_last() =~= f.contexts);
}

proof fn lemma_block_closes(f: FmtV, at: PlaceV)
    requires
        !f.line_start,
        f.pending_newlines == 1,
        f.prev == Some(PrevKind::Word),
        f.contexts.len() > 0,
        f.contexts.last().indented,
        trimmed(f.out) == f.out,
        at.ts[at.index].kind == TokenKind::RBrace,
        f.indent > 0,
        f.indent * 4 <= usize::MAX,
    ensures
        ({
            let g = f.token(at);
            &&& g.out == f.out + seq!['\n'] + repeated(' ', ((f.indent - 1) * 4) as nat) + seq!['}']
            &&& g.contexts == f.contexts.drop_last()
            &&& g.indent == f.indent - 1
        }),
{
    reveal(FmtV::token);
    lemma_sign_texts();
    let c = f.closing();
    let g = c.write("}"@);
    assert(g.out =~= f.out + seq!['\n'] + repeated(' ', ((f.indent - 1) * 4) as nat) + seq!['}'])
        by {
        assert(repeated('\n', 1) =~= seq!['\n']);
    }
}

/// A block opens a space behind what is before it; what is in it stands on lines of its own, one
/// indent deeper; and its end stands on a line of its own, at the indent of its start, which
/// holds again behind it.
pub proof fn law_blocks_are_indented(f: FmtV, at: PlaceV)
    requires
        inside_line(f),
        f.prev == Some(PrevKind::RParen) || f.prev == Some(PrevKind::Word),
        f.brace_kind() != BraceKind::Collection,
        at.ts[at.index].kind == TokenKind::LBrace,
        at.ts[at.index + 2].kind == TokenKind::RBrace,
        at.index + 2 < at.ts.len(),
        0 <= at.index,
        follows_blanks(at),
        follows_blanks(at.on(1)),
        follows_blanks(at.on(2)),
        is_word(at.on(1)),
        at.on(1).text().len() > 0,
        trimmed(at.on(1).text()) == at.on(1).text(),
        !at.on(1).text().contains('\n'),
        (f.indent + 1) * 4 <= usize::MAX,
    ensures
        ({
            let g = stepped(stepped(stepped(f, at), at.on(1)), at.on(2));
            &&& g.out == f.out + seq![' ', '{', '\n'] + repeated(' ', ((f.indent + 1) * 4) as nat)
                + at.on(1).text() + seq!['\n'] + repeated(' ', (f.indent * 4) as nat) + seq!['}']
            &&& g.contexts == f.contexts
            &&& g.indent == f.indent
        }),
{
    lemma_before(f, at);
    assert(at.peek(1) == Some(at.ts[at.index + 1].kind));
    lemma_block_opens(f, at);
    let h = stepped(f, at);
    lemma_before(h, at.on(1));
    let b = before_token(h, at.on(1));
    assert(trimmed(b.out) == b.out) by {
        assert(b.out.last() == '{');
    }
    let w = at.on(1).text();
    lemma_word(b, at.on(1));
    lemma_new_line(b, at.on(1));
    let i = stepped(h, at.on(1));
    assert(i.out =~= f.out + seq![' ', '{', '\n'] + repeated(' ', ((f.indent + 1) * 4) as nat) + w)
        by {
        assert(repeated('\n', 1) =~= seq!['\n']);
    }
    lemma_last_line(w, w.len() as int);
    assert(!i.line_start);
    lemma_before(i, at.on(2));
    let j = before_token(i, at.on(2));
    lemma_trimmed_end(w);
    assert(j.out.last() == w.last());
    assert(trimmed(j.out) == j.out);
    lemma_block_closes(j, at.on(2));
}

proof fn lemma_trimmed_end(s: Seq<char>)
    requires
        s.len() > 0,
        trimmed(s) == s,
    ensures
        s.last() != ' ',
        s.last() != '\t',
{
    if s.last() == ' ' || s.last() == '\t' {
        lemma_trimmed_shorter(s.drop_last());
    }
}

proof fn lemma_trimmed_shorter(s: Seq<char>)
    ensures
        trimmed(s).len() <= s.len(),
    decreases s.len(),
{
    if s.len() > 0 && (s.last() == ' ' || s.last() == '\t') {
        lemma_trimmed_shorter(s.drop_last());
    }
}

/// The semicolons in the head of a loop are followed by a space, not by a line feed.
pub proof fn law_heads_of_loops_stay_on_their_line(f: FmtV, at: PlaceV)
    requires
        inside_line(f),
        at.ts[at.index].kind == TokenKind::Semicolon,
        f.contexts.len() > 0,
        f.contexts.last().kind == (ContextKind::Paren { for_head: true }),
        at.index + 1 < at.ts.len(),
        0 <= at.index,
        follows_blanks(at),
        follows_blanks(at.on(1)),
        is_word(at.on(1)),
    ensures
        stepped(stepped(f, at), at.on(1)).out == f.out + seq![';', ' '] + at.on(1).text(),
{
    lemma_before(f, at);
    assert(at.peek(1) == Some(at.ts[at.index + 1].kind));
    lemma_tight(f, at);
    lemma_sign_texts();
    assert(!";"@.contains('\n'));
    lemma_written(f.clear_space(), ";"@);
    let h = stepped(f, at);
    assert(h.out.last() == ';');
    lemma_before(h, at.on(1));
    lemma_word(h, at.on(1));
    lemma_written(h.space_before_word(), at.on(1).text());
    assert(f.out + seq![';'] + seq![' '] =~= f.out + seq![';', ' ']);
}

// ---------------------------------------------------------------------------
// Widths.

/// A text without white space is as wide as it has characters.
pub proof fn law_widths_count_characters(src: Seq<char>, p: int, end: int, width: nat)
    requires
        0 <= p <= end <= src.len(),
        forall|i: int| p <= i < end ==> !white_space(#[trigger] src[i]),
    ensures
        inline_width(src, p, end, width, false) == width + (end - p),
    decreases end - p,
{
    if p < end {
        assert(!white_space(src[p]));
        law_widths_count_characters(src, p + 1, end, width + 1);
    }
}

/// White space inside a text is as wide as one space, however much of it there is.
pub proof fn law_widths_count_white_space_once(
    src: Seq<char>,
    p: int,
    q: int,
    end: int,
    width: nat,
)
    requires
        0 <= p < q < end <= src.len(),
        width > 0,
        forall|i: int| p <= i < q ==> white_space(#[trigger] src[i]),
        forall|i: int| q <= i < end ==> !white_space(#[trigger] src[i]),
    ensures
        inline_width(src, p, end, width, false) == width + 1 + (end - q),
{
    lemma_white_space(src, p, q, end, width, false);
    assert(!white_space(src[q]));
    law_widths_count_characters(src, q + 1, end, width + 2);
}

proof fn lemma_white_space(
    src: Seq<char>,
    p: int,
    q: int,
    end: int,
    width: nat,
    pending: bool,
)
    requires
        0 <= p <= q < end <= src.len(),
        width > 0,
        p == q ==> pending,
        forall|i: int| p <= i < q ==> white_space(#[trigger] src[i]),
    ensures
        inline_width(src, p, end, width, pending) == inline_width(src, q, end, width, true),
    decreases q - p,
{
    if p < q {
        assert(white_space(src[p]));
        lemma_white_space(src, p + 1, q, end, width, true);
    }
}

/// The number of commas between two tokens.
pub open spec fn commas_between(ts: Seq<TokenV>, i: int, close: int) -> nat
    decreases close - i,
{
    if i >= close {
        0
    } else {
        commas_between(ts, i + 1, close) + (if ts[i].kind == TokenKind::Comma {
            1nat
        } else {
            0nat
        })
    }
}

/// The sign that closes a group.
pub open spec fn closer_of(sort: GroupSort) -> TokenKind {
    match sort {
        GroupSort::Paren => TokenKind::RParen,
        GroupSort::Bracket => TokenKind::RBracket,
        GroupSort::Brace => TokenKind::RBrace,
    }
}

/// A group without groups in it ends at the first sign that closes it, with the commas between.
pub proof fn law_groups_end_at_their_sign(
    ts: Seq<TokenV>,
    i: int,
    close: int,
    sort: GroupSort,
    commas: nat,
)
    requires
        0 <= i <= close < ts.len(),
        ts[close].kind == closer_of(sort),
        forall|k: int| i <= k < close ==> is_loose(#[trigger] ts[k]),
    ensures
        group_close(ts, i, sort, root_nesting(sort), commas) == Some(
            (close, commas + commas_between(ts, i, close)),
        ),
    decreases close - i,
{
    if i < close {
        assert(is_loose(ts[i]));
        law_groups_end_at_their_sign(
            ts,
            i + 1,
            close,
            sort,
            if ts[i].kind == TokenKind::Comma {
                commas + 1
            } else {
                commas
            },
        );
    }
}

/// A group is too wide for its line exactly where it has commas and its line would be longer than
/// a hundred characters with it and a space behind each comma.
pub proof fn law_groups_that_are_too_wide(f: FmtV, at: PlaceV, close: int, sort: GroupSort)
    requires
        0 <= at.index < close < at.ts.len(),
        at.ts[close].kind == closer_of(sort),
        forall|k: int| at.index < k < close ==> is_loose(#[trigger] at.ts[k]),
        0 <= at.ts[at.index].start <= at.ts[close].end <= at.src.len(),
        forall|i: int|
            at.ts[at.index].start <= i < at.ts[close].end ==> !white_space(#[trigger] at.src[i]),
        !f.line_start,
        f.pending_newlines == 0,
        !f.pending_space,
        ({
            let commas = commas_between(at.ts, at.index + 1, close);
            f.line_len + (at.ts[close].end - at.ts[at.index].start) + commas <= usize::MAX
        }),
    ensures
        ({
            let commas = commas_between(at.ts, at.index + 1, close);
            f.too_wide(at, sort) <==> commas > 0 && f.line_len + (at.ts[close].end
                - at.ts[at.index].start) + commas > 100
        }),
{
    law_groups_end_at_their_sign(at.ts, at.index + 1, close, sort, 0);
    law_widths_count_characters(at.src, at.ts[at.index].start, at.ts[close].end, 0);
}

proof fn lemma_wide_opens(f: FmtV, at: PlaceV)
    requires
        inside_line(f),
        f.prev == Some(PrevKind::Word),
        at.ts[at.index].kind == TokenKind::LParen,
        at.peek(1) != Some(TokenKind::RParen),
        f.clear_space().write(seq!['(']).too_wide(at, GroupSort::Paren),
        f.indent < usize::MAX,
    ensures
        ({
            let g = f.token(at);
            &&& g.out == f.out + seq!['(']
            &&& g.pending_newlines == 1
            &&& g.indent == f.indent + 1
            &&& !g.pending_code_break
            &&& g.contexts.len() == f.contexts.len() + 1
            &&& g.contexts.last().indented
        }),
{
    reveal(FmtV::token);
    lemma_sign_texts();
    assert(!seq!['('].contains('\n'));
    lemma_written(f.clear_space(), seq!['(']);
    assert(f.out + Seq::<char>::empty() =~= f.out);
}

/// What stands in a group that is too wide stands on lines of its own, one indent deeper.
pub proof fn law_wide_groups_are_broken(f: FmtV, at: PlaceV)
    requires
        inside_line(f),
        f.prev == Some(PrevKind::Word),
        at.ts[at.index].kind == TokenKind::LParen,
        at.index + 1 < at.ts.len(),
        0 <= at.index,
        follows_blanks(at),
        follows_blanks(at.on(1)),
        is_word(at.on(1)),
        f.clear_space().write(seq!['(']).too_wide(at, GroupSort::Paren),
        (f.indent + 1) * 4 <= usize::MAX,
    ensures
        stepped(stepped(f, at), at.on(1)).out == f.out + seq!['(', '\n'] + repeated(
            ' ',
            ((f.indent + 1) * 4) as nat,
        ) + at.on(1).text(),
{
    lemma_before(f, at);
    assert(at.peek(1) == Some(at.ts[at.index + 1].kind));
    lemma_wide_opens(f, at);
    let h = stepped(f, at);
    lemma_before(h, at.on(1));
    assert(trimmed(h.out) == h.out) by {
        assert(h.out.last() == '(');
    }
    lemma_new_line(h, at.on(1));
    assert(f.out + seq!['('] + repeated('\n', 1) =~= f.out + seq!['(', '\n']);
}

} // verus!
