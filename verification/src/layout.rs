//! What stands between tokens, and what formatting leaves as it is: everything but white space.

use vstd::prelude::*;
use crate::errors::ParseErrorV;
use crate::format::{
    before_token, format_start, formatted, formatted_from, gap, indent_width, is_keyword,
    lemma_to_comment_close, lemma_to_newline, newline_run, repeated, to_comment_close, to_newline,
    trimmed, FmtV, PlaceV, PrevKind,
};
use crate::lexer::{
    at, block_comment_end, law_lexing_makes_progress, lemma_block_comment_end, lemma_lexeme,
    lemma_line_comment_end, lemma_offset_monotone, lemma_run_end, lemma_skipped, lexed, lexed_all,
    lexeme, line_comment_end, line_no, run_end, sign, skipped, CharClass, Dialect, TokenKind, TokenV,
};
use crate::source_map::{byte_offset, lemma_newlines_monotone, SourceId};
use crate::text::{lemma_utf8_len_push, utf8_len_of, white_space};

verus! {

/// A text without its white space.
pub open spec fn dense(s: Seq<char>) -> Seq<char>
    decreases s.len(),
{
    if s.len() == 0 {
        s
    } else if white_space(s.last()) {
        dense(s.drop_last())
    } else {
        dense(s.drop_last()).push(s.last())
    }
}

proof fn lemma_dense_join(a: Seq<char>, b: Seq<char>)
    ensures
        dense(a + b) == dense(a) + dense(b),
    decreases b.len(),
{
    if b.len() == 0 {
        assert(a + b =~= a);
    } else {
        assert((a + b).drop_last() =~= a + b.drop_last());
        lemma_dense_join(a, b.drop_last());
        assert(dense(a + b) =~= dense(a) + dense(b));
    }
}

/// The parts of a stretch of text, each without its white space, make up the whole.
proof fn lemma_dense_split(s: Seq<char>, a: int, b: int, c: int)
    requires
        0 <= a <= b <= c <= s.len(),
    ensures
        dense(s.subrange(a, c)) == dense(s.subrange(a, b)) + dense(s.subrange(b, c)),
{
    assert(s.subrange(a, c) =~= s.subrange(a, b) + s.subrange(b, c));
    lemma_dense_join(s.subrange(a, b), s.subrange(b, c));
}

proof fn lemma_dense_one(s: Seq<char>, p: int)
    requires
        0 <= p < s.len(),
        white_space(s[p]),
    ensures
        dense(s.subrange(p, p + 1)) == Seq::<char>::empty(),
{
    let one = s.subrange(p, p + 1);
    assert(one.last() == s[p]);
    assert(one.drop_last() =~= Seq::empty());
    reveal_with_fuel(dense, 2);
}

proof fn lemma_dense_trimmed(s: Seq<char>)
    ensures
        dense(trimmed(s)) == dense(s),
    decreases s.len(),
{
    if s.len() > 0 && (s.last() == ' ' || s.last() == '\t') {
        lemma_dense_trimmed(s.drop_last());
    }
}

proof fn lemma_dense_repeated(c: char, n: nat)
    requires
        white_space(c),
    ensures
        dense(repeated(c, n)) == Seq::<char>::empty(),
    decreases n,
{
    if n > 0 {
        assert(repeated(c, n).drop_last() =~= repeated(c, (n - 1) as nat));
        lemma_dense_repeated(c, (n - 1) as nat);
    } else {
        assert(repeated(c, n) =~= Seq::empty());
    }
}

/// To write a text adds what it holds and white space.
broadcast proof fn lemma_write(f: FmtV, text: Seq<char>)
    ensures
        dense((#[trigger] f.write(text)).out) == dense(f.out) + dense(text),
{
    let g = f.flush();
    if f.pending_newlines > 0 {
        lemma_dense_trimmed(f.out);
        lemma_dense_repeated('\n', f.pending_newlines as nat);
        lemma_dense_join(trimmed(f.out), repeated('\n', f.pending_newlines as nat));
    } else {
        assert(f.out.push(' ').drop_last() =~= f.out);
    }
    assert(dense(g.out) =~= dense(f.out));
    let h = g.indented();
    if g.line_start {
        let n = indent_width(g.indent) as nat;
        lemma_dense_repeated(' ', n);
        lemma_dense_join(g.out, repeated(' ', n));
    }
    assert(dense(h.out) =~= dense(f.out));
    lemma_dense_join(h.out, text);
}

// ---------------------------------------------------------------------------
// What stands between two tokens.

#[via_fn]
proof fn trivia_shrinks(src: Seq<char>, p: int, end: int) {
    if 0 <= p && p + 1 < end && p + 1 < src.len() {
        lemma_to_newline(src, p + 2, end);
        lemma_to_comment_close(src, p + 2, end);
    }
}

/// Whether a stretch of text is white space and comments.
pub open spec fn trivia(src: Seq<char>, p: int, end: int) -> bool
    decreases end - p,
    via trivia_shrinks
{
    if p < 0 || p >= end || p >= src.len() {
        true
    } else if src[p] == '/' && p + 1 < end && p + 1 < src.len() && src[p + 1] == '/' {
        let e = to_newline(src, p + 2, end);
        if e < end {
            trivia(src, e + 1, end)
        } else {
            true
        }
    } else if src[p] == '/' && p + 1 < end && p + 1 < src.len() && src[p + 1] == '*' {
        let close = to_comment_close(src, p + 2, end) + 2;
        if close < end {
            trivia(src, close, end)
        } else {
            true
        }
    } else {
        white_space(src[p]) && trivia(src, p + 1, end)
    }
}

/// A run of line feeds is white space, and what follows it is white space and comments.
proof fn lemma_trivia_newlines(src: Seq<char>, p: int, end: int)
    requires
        0 <= p <= end <= src.len(),
        trivia(src, p, end),
    ensures
        p <= newline_run(src, p, end) <= end,
        trivia(src, newline_run(src, p, end), end),
        dense(src.subrange(p, newline_run(src, p, end))) == Seq::<char>::empty(),
    decreases end - p,
{
    if p < end && src[p] == '\n' {
        lemma_trivia_newlines(src, p + 1, end);
        lemma_dense_one(src, p);
        lemma_dense_split(src, p, p + 1, newline_run(src, p, end));
    } else {
        assert(src.subrange(p, p) =~= Seq::empty());
    }
}

/// Line feeds between tokens are noted; nothing is written for them yet.
proof fn lemma_newlines_write_nothing(f: FmtV, place: PlaceV, count: nat, saw: bool)
    ensures
        f.gap_newlines(place, count, saw).0.out == f.out,
        f.comment_newline().out == f.out,
{
}

/// A comment is written as it stands.
proof fn lemma_comments(f: FmtV, text: Seq<char>, saw: bool)
    ensures
        dense(f.line_comment(text, saw).out) == dense(f.out) + dense(text),
        dense(f.block_comment(text, saw).0.out) == dense(f.out) + dense(text),
{
    broadcast use lemma_write;

}

/// The state behind white space and comments has the comments, and nothing is lost.
#[verifier::spinoff_prover]
#[verifier::rlimit(40)]
proof fn lemma_gap(f: FmtV, place: PlaceV, p: int, end: int, saw: bool)
    requires
        0 <= p <= end <= place.src.len(),
        trivia(place.src, p, end),
    ensures
        dense(gap(f, place, p, end, saw).0.out) == dense(f.out) + dense(place.src.subrange(p, end)),
    decreases end - p,
{
    let src = place.src;
    if p >= end {
        assert(src.subrange(p, end) =~= Seq::empty());
        assert(dense(f.out) + dense(src.subrange(p, end)) =~= dense(f.out));
    } else if src[p] == '\n' {
        let e = newline_run(src, p + 1, end);
        lemma_trivia_newlines(src, p + 1, end);
        let (g, s) = f.gap_newlines(place, (e - p) as nat, saw);
        lemma_newlines_write_nothing(f, place, (e - p) as nat, saw);
        lemma_gap(g, place, e, end, s);
        lemma_dense_one(src, p);
        lemma_dense_split(src, p, p + 1, e);
        lemma_dense_split(src, p, e, end);
        assert(dense(src.subrange(p, end)) =~= dense(src.subrange(e, end)));
    } else if src[p] == '/' && p + 1 < end && src[p + 1] == '/' {
        lemma_to_newline(src, p + 2, end);
        let e = to_newline(src, p + 2, end);
        let g = f.line_comment(src.subrange(p, e), saw);
        lemma_comments(f, src.subrange(p, e), saw);
        lemma_newlines_write_nothing(g, place, 0, saw);
        lemma_dense_split(src, p, e, end);
        if e < end {
            lemma_newline_there(src, p + 2, end);
            lemma_gap(g.comment_newline(), place, e + 1, end, true);
            lemma_dense_one(src, e);
            lemma_dense_split(src, e, e + 1, end);
            assert(dense(src.subrange(e, end)) =~= dense(src.subrange(e + 1, end)));
            assert(dense(gap(f, place, p, end, saw).0.out) =~= dense(f.out) + dense(
                src.subrange(p, end),
            ));
        } else {
            assert(gap(g, place, e, end, saw).0 == g);
            assert(src.subrange(e, end) =~= Seq::empty());
            assert(dense(src.subrange(p, end)) =~= dense(src.subrange(p, e)));
        }
    } else if src[p] == '/' && p + 1 < end && src[p + 1] == '*' {
        lemma_to_comment_close(src, p + 2, end);
        let close = to_comment_close(src, p + 2, end) + 2;
        let e = if close <= end {
            close
        } else {
            end
        };
        let (g, s) = f.block_comment(src.subrange(p, e), saw);
        lemma_comments(f, src.subrange(p, e), saw);
        lemma_gap(g, place, e, end, s);
        lemma_dense_split(src, p, e, end);
        assert(dense(gap(f, place, p, end, saw).0.out) =~= dense(f.out) + dense(
            src.subrange(p, end),
        ));
    } else {
        lemma_gap(f, place, p + 1, end, saw);
        lemma_dense_one(src, p);
        lemma_dense_split(src, p, p + 1, end);
        assert(dense(src.subrange(p, end)) =~= dense(src.subrange(p + 1, end)));
    }
}

proof fn lemma_newline_there(src: Seq<char>, p: int, end: int)
    requires
        0 <= p <= end <= src.len(),
        to_newline(src, p, end) < end,
    ensures
        src[to_newline(src, p, end)] == '\n',
    decreases end - p,
{
    if src[p] != '\n' {
        lemma_newline_there(src, p + 1, end);
    }
}

// ---------------------------------------------------------------------------
// What the lexer leaves out.

proof fn lemma_trivia_spaces(src: Seq<char>, p: int, end: int)
    requires
        0 <= p <= run_end(src, p, CharClass::Space) <= end <= src.len(),
        trivia(src, run_end(src, p, CharClass::Space), end),
    ensures
        trivia(src, p, end),
    decreases src.len() - p,
{
    if p < src.len() && white_space(src[p]) {
        lemma_run_end(src, p + 1, CharClass::Space);
        lemma_trivia_spaces(src, p + 1, end);
    }
}

proof fn lemma_same_line_end(src: Seq<char>, p: int, end: int)
    requires
        0 <= p <= src.len(),
        line_comment_end(src, p) <= end <= src.len(),
    ensures
        line_comment_end(src, p) == src.len() || to_newline(src, p, end) + 1 == line_comment_end(
            src,
            p,
        ),
        to_newline(src, p, end) == end || to_newline(src, p, end) + 1 == line_comment_end(src, p),
    decreases src.len() - p,
{
    if p < src.len() && src[p] != '\n' {
        lemma_line_comment_end(src, p + 1);
        lemma_same_line_end(src, p + 1, end);
    }
}

proof fn lemma_same_comment_end(src: Seq<char>, p: int, end: int)
    requires
        0 <= p <= src.len(),
        block_comment_end(src, p) matches Some(e) && e <= end,
        end <= src.len(),
    ensures
        to_comment_close(src, p, end) + 2 == block_comment_end(src, p)->0,
    decreases src.len() - p,
{
    lemma_block_comment_end(src, p);
    if !(src[p] == '*' && at(src, p + 1, '/')) {
        lemma_block_comment_end(src, p + 1);
        lemma_same_comment_end(src, p + 1, end);
    }
}

/// What the lexer leaves out between two tokens is white space and comments.
proof fn lemma_skipped_is_trivia(src: Seq<char>, p: int)
    requires
        0 <= p <= src.len(),
    ensures
        skipped(src, p) matches Ok(q) ==> trivia(src, p, q),
    decreases src.len() - p,
{
    lemma_run_end(src, p, CharClass::Space);
    lemma_skipped(src, p);
    let r = run_end(src, p, CharClass::Space);
    if skipped(src, p) is Ok {
        let q = skipped(src, p)->Ok_0;
        if at(src, r, '/') && at(src, r + 1, '/') {
            lemma_line_comment_end(src, r);
            let e = line_comment_end(src, r);
            assert(e == line_comment_end(src, r + 1));
            assert(e == line_comment_end(src, r + 2));
            lemma_line_comment_end(src, r + 2);
            lemma_skipped_is_trivia(src, e);
            lemma_skipped(src, e);
            lemma_same_line_end(src, r + 2, q);
            assert(trivia(src, r, q));
        } else if at(src, r, '/') && at(src, r + 1, '*') {
            lemma_block_comment_end(src, r + 2);
            let e = block_comment_end(src, r + 2)->0;
            lemma_skipped_is_trivia(src, e);
            lemma_skipped(src, e);
            lemma_same_comment_end(src, r + 2, q);
            assert(trivia(src, r, q));
        }
        lemma_trivia_spaces(src, p, q);
    }
}

// ---------------------------------------------------------------------------
// Tokens.

/// The text of a keyword or a sign.
pub open spec fn spelling(k: TokenKind) -> Option<Seq<char>> {
    match k {
        TokenKind::Pub => Some("pub"@),
        TokenKind::Use => Some("use"@),
        TokenKind::Import => Some("import"@),
        TokenKind::From => Some("from"@),
        TokenKind::As => Some("as"@),
        TokenKind::Fn => Some("fn"@),
        TokenKind::Struct => Some("struct"@),
        TokenKind::Let => Some("let"@),
        TokenKind::For => Some("for"@),
        TokenKind::If => Some("if"@),
        TokenKind::Else => Some("else"@),
        TokenKind::Match => Some("match"@),
        TokenKind::While => Some("while"@),
        TokenKind::Break => Some("break"@),
        TokenKind::Continue => Some("continue"@),
        TokenKind::Bang => Some("!"@),
        TokenKind::BangEqual => Some("!="@),
        TokenKind::Plus => Some("+"@),
        TokenKind::PlusPlus => Some("++"@),
        TokenKind::PlusEqual => Some("+="@),
        TokenKind::Minus => Some("-"@),
        TokenKind::Star => Some("*"@),
        TokenKind::Slash => Some("/"@),
        TokenKind::Percent => Some("%"@),
        TokenKind::Ampersand => Some("&"@),
        TokenKind::AmpersandAmpersand => Some("&&"@),
        TokenKind::PipePipe => Some("||"@),
        TokenKind::Pipe => Some("|"@),
        TokenKind::LParen => Some("("@),
        TokenKind::RParen => Some(")"@),
        TokenKind::LBracket => Some("["@),
        TokenKind::RBracket => Some("]"@),
        TokenKind::LBrace => Some("{"@),
        TokenKind::RBrace => Some("}"@),
        TokenKind::Comma => Some(","@),
        TokenKind::Colon => Some(":"@),
        TokenKind::Question => Some("?"@),
        TokenKind::Dot => Some("."@),
        TokenKind::Ellipsis => Some("..."@),
        TokenKind::Semicolon => Some(";"@),
        TokenKind::Equal => Some("="@),
        TokenKind::EqualEqual => Some("=="@),
        TokenKind::FatArrow => Some("=>"@),
        TokenKind::Less => Some("<"@),
        TokenKind::LessEqual => Some("<="@),
        TokenKind::Greater => Some(">"@),
        TokenKind::GreaterEqual => Some(">="@),
        _ => None,
    }
}

proof fn lemma_signs_spelled()
    ensures
        "!"@ == seq!['!'],
        "!="@ == seq!['!', '='],
        "+"@ == seq!['+'],
        "++"@ == seq!['+', '+'],
        "+="@ == seq!['+', '='],
        "-"@ == seq!['-'],
        "*"@ == seq!['*'],
        "/"@ == seq!['/'],
        "%"@ == seq!['%'],
        "&"@ == seq!['&'],
        "&&"@ == seq!['&', '&'],
        "||"@ == seq!['|', '|'],
        "|"@ == seq!['|'],
        "("@ == seq!['('],
        ")"@ == seq![')'],
        "["@ == seq!['['],
        "]"@ == seq![']'],
        "{"@ == seq!['{'],
        "}"@ == seq!['}'],
        ","@ == seq![','],
        ":"@ == seq![':'],
        "?"@ == seq!['?'],
        "."@ == seq!['.'],
        "..."@ == seq!['.', '.', '.'],
        ";"@ == seq![';'],
        "="@ == seq!['='],
        "=="@ == seq!['=', '='],
        "=>"@ == seq!['=', '>'],
        "<"@ == seq!['<'],
        "<="@ == seq!['<', '='],
        ">"@ == seq!['>'],
        ">="@ == seq!['>', '='],
{
    reveal_strlit("!");
    reveal_strlit("!=");
    reveal_strlit("+");
    reveal_strlit("++");
    reveal_strlit("+=");
    reveal_strlit("-");
    reveal_strlit("*");
    reveal_strlit("/");
    reveal_strlit("%");
    reveal_strlit("&");
    reveal_strlit("&&");
    reveal_strlit("||");
    reveal_strlit("|");
    reveal_strlit("(");
    reveal_strlit(")");
    reveal_strlit("[");
    reveal_strlit("]");
    reveal_strlit("{");
    reveal_strlit("}");
    reveal_strlit(",");
    reveal_strlit(":");
    reveal_strlit("?");
    reveal_strlit(".");
    reveal_strlit("...");
    reveal_strlit(";");
    reveal_strlit("=");
    reveal_strlit("==");
    reveal_strlit("=>");
    reveal_strlit("<");
    reveal_strlit("<=");
    reveal_strlit(">");
    reveal_strlit(">=");
    assert("!"@ =~= seq!['!']);
    assert("!="@ =~= seq!['!', '=']);
    assert("+"@ =~= seq!['+']);
    assert("++"@ =~= seq!['+', '+']);
    assert("+="@ =~= seq!['+', '=']);
    assert("-"@ =~= seq!['-']);
    assert("*"@ =~= seq!['*']);
    assert("/"@ =~= seq!['/']);
    assert("%"@ =~= seq!['%']);
    assert("&"@ =~= seq!['&']);
    assert("&&"@ =~= seq!['&', '&']);
    assert("||"@ =~= seq!['|', '|']);
    assert("|"@ =~= seq!['|']);
    assert("("@ =~= seq!['(']);
    assert(")"@ =~= seq![')']);
    assert("["@ =~= seq!['[']);
    assert("]"@ =~= seq![']']);
    assert("{"@ =~= seq!['{']);
    assert("}"@ =~= seq!['}']);
    assert(","@ =~= seq![',']);
    assert(":"@ =~= seq![':']);
    assert("?"@ =~= seq!['?']);
    assert("."@ =~= seq!['.']);
    assert("..."@ =~= seq!['.', '.', '.']);
    assert(";"@ =~= seq![';']);
    assert("="@ =~= seq!['=']);
    assert("=="@ =~= seq!['=', '=']);
    assert("=>"@ =~= seq!['=', '>']);
    assert("<"@ =~= seq!['<']);
    assert("<="@ =~= seq!['<', '=']);
    assert(">"@ =~= seq!['>']);
    assert(">="@ =~= seq!['>', '=']);
}

/// A sign stands in the text as it is spelled.
proof fn lemma_sign(d: Dialect, src: Seq<char>, p: int)
    requires
        0 <= p < src.len(),
    ensures
        sign(d, src, p) matches Some((k, n)) ==> p + n <= src.len() && spelling(k) == Some(
            src.subrange(p, p + n),
        ) && !is_keyword(k),
{
    lemma_signs_spelled();
    if sign(d, src, p) is Some {
        let (_, n) = sign(d, src, p)->0;
        if n == 1 {
            assert(src.subrange(p, p + 1) =~= seq![src[p]]);
        } else if n == 2 {
            assert(src.subrange(p, p + 2) =~= seq![src[p], src[p + 1]]);
        } else {
            assert(src.subrange(p, p + 3) =~= seq![src[p], src[p + 1], src[p + 2]]);
        }
    }
}

/// A token that has a spelling of its own and is no keyword stands in the text as it is
/// spelled.
proof fn lemma_token_spelled(d: Dialect, src: Seq<char>, id: SourceId, p: int)
    requires
        0 <= p <= src.len(),
    ensures
        lexeme(d, src, id, p) matches Ok(l) ==> (spelling(l.kind) is Some && !is_keyword(l.kind)
            ==> spelling(l.kind) == Some(src.subrange(p, l.end))),
{
    if p < src.len() {
        lemma_sign(d, src, p);
    }
}

/// Whether a keyword is written as it stands in the text.
pub open spec fn behind_path(f: FmtV) -> bool {
    f.prev == Some(PrevKind::PathSeparator) || f.prev == Some(PrevKind::Dot) || f.prev == Some(
        PrevKind::OptionalAccess,
    )
}

/// The end of the tokens that are written at once.
pub open spec fn unit_end(f: FmtV, place: PlaceV) -> int {
    place.ts[place.index + f.token_width(place) - 1].end
}

/// Whether the token at hand stands in the text as it is spelled, and is written by itself.
spec fn writable(f: FmtV, place: PlaceV) -> bool {
    let t = place.ts[place.index];
    &&& 0 <= place.index < place.ts.len()
    &&& t.kind != TokenKind::Eof
    &&& f.token_width(place) == 1
    &&& (is_keyword(t.kind) && behind_path(f)) || spelling(t.kind) is None || spelling(t.kind)
        == Some(place.text())
}

proof fn lemma_word_token(f: FmtV, place: PlaceV)
    requires
        writable(f, place),
        ({
            let k = place.ts[place.index].kind;
            spelling(k) is None || (is_keyword(k) && behind_path(f))
        }),
    ensures
        dense(f.token(place).out) == dense(f.out) + dense(place.text()),
{
    broadcast use lemma_write;

    reveal(FmtV::token);
}

proof fn lemma_keyword_token(f: FmtV, place: PlaceV)
    requires
        writable(f, place),
        ({
            let k = place.ts[place.index].kind;
            is_keyword(k) && !behind_path(f)
        }),
    ensures
        dense(f.token(place).out) == dense(f.out) + dense(place.text()),
{
    broadcast use lemma_write;

    reveal(FmtV::token);
}

proof fn lemma_group_token(f: FmtV, place: PlaceV)
    requires
        writable(f, place),
        ({
            let k = place.ts[place.index].kind;
            k == TokenKind::LParen || k == TokenKind::RParen || k == TokenKind::LBracket || k
                == TokenKind::RBracket || k == TokenKind::LBrace || k == TokenKind::RBrace
        }),
    ensures
        dense(f.token(place).out) == dense(f.out) + dense(place.text()),
{
    broadcast use lemma_write;

    reveal(FmtV::token);
}

proof fn lemma_mark_token(f: FmtV, place: PlaceV)
    requires
        writable(f, place),
        ({
            let k = place.ts[place.index].kind;
            k == TokenKind::Comma || k == TokenKind::Colon || k == TokenKind::Question || k
                == TokenKind::Dot || k == TokenKind::Ellipsis || k == TokenKind::Semicolon
        }),
    ensures
        dense(f.token(place).out) == dense(f.out) + dense(place.text()),
{
    broadcast use lemma_write;

    reveal(FmtV::token);
}

proof fn lemma_operator_token(f: FmtV, place: PlaceV)
    requires
        writable(f, place),
        ({
            let k = place.ts[place.index].kind;
            k == TokenKind::Equal || k == TokenKind::FatArrow || k == TokenKind::PlusPlus || k
                == TokenKind::Star || k == TokenKind::Minus || k == TokenKind::PipePipe || k
                == TokenKind::Pipe || k == TokenKind::Less || k == TokenKind::Greater
        }),
    ensures
        dense(f.token(place).out) == dense(f.out) + dense(place.text()),
{
    broadcast use lemma_write;

    reveal(FmtV::token);
}

proof fn lemma_plain_operator_token(f: FmtV, place: PlaceV)
    requires
        writable(f, place),
        ({
            let k = place.ts[place.index].kind;
            k == TokenKind::Plus || k == TokenKind::PlusEqual || k == TokenKind::Slash || k
                == TokenKind::Percent || k == TokenKind::Bang || k == TokenKind::BangEqual || k
                == TokenKind::Ampersand || k == TokenKind::AmpersandAmpersand || k
                == TokenKind::EqualEqual || k == TokenKind::LessEqual || k
                == TokenKind::GreaterEqual
        }),
    ensures
        dense(f.token(place).out) == dense(f.out) + dense(place.text()),
{
    broadcast use lemma_write;

    reveal(FmtV::token);
}

/// To write a token adds what it holds.
proof fn lemma_token(f: FmtV, place: PlaceV)
    requires
        writable(f, place),
    ensures
        dense(f.token(place).out) == dense(f.out) + dense(place.text()),
{
    match place.ts[place.index].kind {
        TokenKind::LParen
        | TokenKind::RParen
        | TokenKind::LBracket
        | TokenKind::RBracket
        | TokenKind::LBrace
        | TokenKind::RBrace => lemma_group_token(f, place),
        TokenKind::Comma
        | TokenKind::Colon
        | TokenKind::Question
        | TokenKind::Dot
        | TokenKind::Ellipsis
        | TokenKind::Semicolon => lemma_mark_token(f, place),
        TokenKind::Equal
        | TokenKind::FatArrow
        | TokenKind::PlusPlus
        | TokenKind::Star
        | TokenKind::Minus
        | TokenKind::PipePipe
        | TokenKind::Pipe
        | TokenKind::Less
        | TokenKind::Greater => lemma_operator_token(f, place),
        TokenKind::Plus
        | TokenKind::PlusEqual
        | TokenKind::Slash
        | TokenKind::Percent
        | TokenKind::Bang
        | TokenKind::BangEqual
        | TokenKind::Ampersand
        | TokenKind::AmpersandAmpersand
        | TokenKind::EqualEqual
        | TokenKind::LessEqual
        | TokenKind::GreaterEqual => lemma_plain_operator_token(f, place),
        k => {
            if is_keyword(k) && !behind_path(f) {
                lemma_keyword_token(f, place);
            } else {
                lemma_word_token(f, place);
            }
        },
    }
}

proof fn lemma_pair_of_tokens(f: FmtV, place: PlaceV)
    requires
        0 <= place.index < place.ts.len(),
        f.token_width(place) == 2,
        spelling(place.ts[place.index].kind) == Some(place.text()),
        spelling(place.ts[place.index + 1].kind) == Some(place.on(1).text()),
    ensures
        dense(f.token(place).out) == dense(f.out) + dense(place.text()) + dense(place.on(1).text()),
{
    broadcast use lemma_write;

    reveal(FmtV::token);
    lemma_signs_spelled();
    reveal_strlit("::");
    reveal_strlit("?.");
    reveal_strlit("->");
    let a = place.text();
    let b = place.on(1).text();
    lemma_dense_join(a, b);
    assert("::"@ =~= ":"@ + ":"@);
    assert("?."@ =~= "?"@ + "."@);
    assert("->"@ =~= "-"@ + ">"@);
    assert(dense(f.out) + dense(a + b) =~= dense(f.out) + dense(a) + dense(b));
}

// ---------------------------------------------------------------------------
// Whole texts.

/// Where the token before one ends, in tokens from position `p` on.
spec fn end_before(ts: Seq<TokenV>, p: int, i: int) -> int {
    if i <= 0 {
        p
    } else {
        ts[i - 1].end
    }
}

/// Whether a token stands behind white space and comments, and is spelled as its kind is.
spec fn stands(src: Seq<char>, t: TokenV, p: int) -> bool {
    &&& 0 <= p <= t.start <= t.end <= src.len()
    &&& trivia(src, p, t.start)
    &&& spelling(t.kind) is Some && !is_keyword(t.kind) ==> spelling(t.kind) == Some(
        src.subrange(t.start, t.end),
    )
}

/// Whether a text from position `p` on is made of tokens with white space and comments
/// between them.
spec fn made_of(src: Seq<char>, ts: Seq<TokenV>, p: int) -> bool {
    &&& ts.len() > 0
    &&& ts.last().kind == TokenKind::Eof
    &&& ts.last().start == src.len()
    &&& forall|i: int| 0 <= i < ts.len() - 1 ==> (#[trigger] ts[i]).kind != TokenKind::Eof
    &&& forall|i: int| 0 <= i < ts.len() ==> stands(src, #[trigger] ts[i], end_before(ts, p, i))
}

proof fn lemma_lexed_stands(d: Dialect, src: Seq<char>, id: SourceId, p: int)
    requires
        0 <= p <= src.len(),
    ensures
        lexed(d, src, id, p) matches Ok((t, q)) ==> stands(src, t, p) && t.end == q && (t.kind
            == TokenKind::Eof ==> t.start == src.len()),
{
    lemma_skipped(src, p);
    lemma_skipped_is_trivia(src, p);
    match skipped(src, p) {
        Ok(q) => {
            lemma_lexeme(d, src, id, q);
            lemma_token_spelled(d, src, id, q);
        },
        Err(_) => {},
    }
}

proof fn lemma_lexed_made_of(d: Dialect, src: Seq<char>, id: SourceId, p: int)
    requires
        0 <= p <= src.len(),
    ensures
        lexed_all(d, src, id, p) matches Ok(ts) ==> made_of(src, ts, p),
    decreases src.len() - p,
{
    lemma_lexed_stands(d, src, id, p);
    law_lexing_makes_progress(d, src, id, p);
    match lexed(d, src, id, p) {
        Ok((t, q)) => {
            if t.kind != TokenKind::Eof {
                lemma_lexed_made_of(d, src, id, q);
                if lexed_all(d, src, id, q) is Ok {
                    let rest = lexed_all(d, src, id, q)->Ok_0;
                    let ts = seq![t] + rest;
                    assert forall|i: int| 0 <= i < ts.len() implies stands(
                        src,
                        #[trigger] ts[i],
                        end_before(ts, p, i),
                    ) by {
                        if i > 0 {
                            assert(ts[i] == rest[i - 1]);
                            assert(end_before(ts, p, i) == end_before(rest, q, i - 1));
                        }
                    }
                    assert forall|i: int| 0 <= i < ts.len() - 1 implies (#[trigger] ts[i]).kind
                        != TokenKind::Eof by {
                        if i > 0 {
                            assert(ts[i] == rest[i - 1]);
                        }
                    }
                    assert(ts.last() == rest.last());
                }
            } else {
                assert(seq![t][0] == t);
            }
        },
        Err(_) => {},
    }
}

/// Whether, as a text is formatted, every keyword stands in it as it is spelled, and nothing
/// but white space stands between two signs that are written as one.
pub open spec fn plain(f: FmtV, place: PlaceV) -> bool
    decreases place.ts.len() - place.index,
{
    let ts = place.ts;
    let i = place.index;
    if i < 0 || i >= ts.len() || ts[i].kind == TokenKind::Eof {
        true
    } else {
        let g = before_token(f, place);
        &&& is_keyword(ts[i].kind) && !behind_path(g) ==> spelling(ts[i].kind) == Some(
            place.text(),
        )
        &&& g.token_width(place) == 2 ==> dense(place.src.subrange(ts[i].end, ts[i + 1].start))
            == Seq::<char>::empty()
        &&& plain(g.token(place), place.on(g.token_width(place)))
    }
}

/// The state behind a token and what stands before it.
proof fn lemma_step(f: FmtV, place: PlaceV)
    requires
        made_of(place.src, place.ts, 0),
        0 <= place.index < place.ts.len(),
        place.ts[place.index].kind != TokenKind::Eof,
        plain(f, place),
    ensures
        ({
            let g = before_token(f, place);
            let next = place.on(g.token_width(place));
            &&& 0 <= place.gap_start() <= next.gap_start() <= place.src.len()
            &&& next.index < place.ts.len()
            &&& dense(g.token(place).out) == dense(f.out) + dense(
                place.src.subrange(place.gap_start(), next.gap_start()),
            )
        }),
{
    let src = place.src;
    let ts = place.ts;
    let i = place.index;
    let t = ts[i];
    let p = place.gap_start();
    let g = before_token(f, place);
    assert(stands(src, ts[i], end_before(ts, 0, i)));
    lemma_gap(f, place, p, t.start, false);
    assert(dense(g.out) == dense(f.out) + dense(src.subrange(p, t.start)));
    lemma_dense_split(src, p, t.start, t.end);
    if g.token_width(place) == 1 {
        lemma_token(g, place);
        assert(dense(g.token(place).out) =~= dense(f.out) + dense(src.subrange(p, t.end)));
    } else {
        let u = ts[i + 1];
        assert(stands(src, ts[i + 1], end_before(ts, 0, i + 1)));
        lemma_pair_of_tokens(g, place);
        lemma_dense_split(src, t.end, u.start, u.end);
        lemma_dense_split(src, p, t.end, u.end);
        assert(dense(g.token(place).out) =~= dense(f.out) + dense(src.subrange(p, u.end)));
    }
}

proof fn lemma_formatted_from(f: FmtV, place: PlaceV)
    requires
        made_of(place.src, place.ts, 0),
        0 <= place.index < place.ts.len(),
        plain(f, place),
    ensures
        0 <= place.gap_start() <= place.src.len(),
        dense(formatted_from(f, place).out) == dense(f.out) + dense(
            place.src.subrange(place.gap_start(), place.src.len() as int),
        ),
    decreases place.ts.len() - place.index,
{
    let src = place.src;
    let ts = place.ts;
    let i = place.index;
    let p = place.gap_start();
    let n = src.len() as int;
    assert(stands(src, ts[i], end_before(ts, 0, i)));
    if ts[i].kind == TokenKind::Eof {
        assert(i == ts.len() - 1);
        lemma_gap(f, place, p, ts[i].start, false);
    } else {
        let g = before_token(f, place);
        let next = place.on(g.token_width(place));
        lemma_step(f, place);
        lemma_formatted_from(g.token(place), next);
        lemma_dense_split(src, p, next.gap_start(), n);
        assert(dense(formatted_from(f, place).out) =~= dense(f.out) + dense(src.subrange(p, n)));
    }
}

/// Formatting changes nothing but white space: without white space, a formatted text is what
/// the text was. A keyword that stands in the text under another name, and a comment between
/// two signs that are written as one, are left out.
pub proof fn law_only_white_space_changes(d: Dialect, src: Seq<char>, ts: Seq<TokenV>)
    requires
        lexed_all(d, src, 0, 0) == Ok::<Seq<TokenV>, ParseErrorV>(ts),
        plain(format_start(), (PlaceV { src, ts, index: 0 })),
    ensures
        dense(formatted(src, ts)) == dense(src),
{
    let place = PlaceV { src, ts, index: 0 };
    lemma_lexed_made_of(d, src, 0, 0);
    lemma_formatted_from(format_start(), place);
    let out = formatted_from(format_start(), place).out;
    assert(src.subrange(0, src.len() as int) =~= src);
    assert(dense(out) =~= dense(src));
    lemma_dense_trimmed(out);
    let cut = trimmed(out);
    assert(cut.push('\n').drop_last() =~= cut);
}

/// Whether every keyword of a language is spelled as its kind is.
pub open spec fn spells_plainly(d: Dialect) -> bool {
    &&& forall|w: Seq<char>| #[trigger] d.import_keywords@.contains(w) ==> w == "import"@
    &&& forall|w: Seq<char>| #[trigger] d.from_keywords@.contains(w) ==> w == "from"@
    &&& forall|w: Seq<char>| #[trigger] d.fn_alias_keywords@.contains(w) ==> w == "fn"@
    &&& forall|w: Seq<char>| #[trigger] d.let_alias_keywords@.contains(w) ==> w == "let"@
}

/// Whether two signs may be written as one.
pub open spec fn may_join(a: TokenKind, b: TokenKind) -> bool {
    (a == TokenKind::Colon && b == TokenKind::Colon) || (a == TokenKind::Question && b
        == TokenKind::Dot) || (a == TokenKind::Minus && b == TokenKind::Greater)
}

/// Whether nothing but white space stands between a token and the next one, where the two
/// may be written as one.
pub open spec fn joint_clear(src: Seq<char>, ts: Seq<TokenV>, i: int) -> bool {
    may_join(ts[i].kind, ts[i + 1].kind) ==> dense(src.subrange(ts[i].end, ts[i + 1].start))
        == Seq::<char>::empty()
}

/// Whether every keyword of a text is spelled as its kind is.
spec fn keywords_spelled(src: Seq<char>, ts: Seq<TokenV>) -> bool {
    forall|i: int|
        0 <= i < ts.len() && is_keyword((#[trigger] ts[i]).kind) ==> spelling(ts[i].kind) == Some(
            src.subrange(ts[i].start, ts[i].end),
        )
}

proof fn lemma_keywords_spelled(d: Dialect, src: Seq<char>, id: SourceId, p: int)
    requires
        0 <= p <= src.len(),
        spells_plainly(d),
    ensures
        lexed_all(d, src, id, p) matches Ok(ts) ==> keywords_spelled(src, ts),
    decreases src.len() - p,
{
    law_lexing_makes_progress(d, src, id, p);
    lemma_skipped(src, p);
    match lexed(d, src, id, p) {
        Ok((t, q)) => {
            if t.start < src.len() {
                lemma_sign(d, src, t.start);
            }
            if t.kind != TokenKind::Eof {
                lemma_keywords_spelled(d, src, id, q);
                if lexed_all(d, src, id, q) is Ok {
                    let rest = lexed_all(d, src, id, q)->Ok_0;
                    let ts = seq![t] + rest;
                    assert forall|i: int|
                        0 <= i < ts.len() && is_keyword((#[trigger] ts[i]).kind) implies spelling(
                        ts[i].kind,
                    ) == Some(src.subrange(ts[i].start, ts[i].end)) by {
                        if i > 0 {
                            assert(ts[i] == rest[i - 1]);
                        }
                    }
                }
            } else {
                assert(seq![t][0] == t);
            }
        },
        Err(_) => {},
    }
}

proof fn lemma_plain(f: FmtV, place: PlaceV)
    requires
        keywords_spelled(place.src, place.ts),
        place.ts.len() > 0,
        place.ts.last().kind == TokenKind::Eof,
        forall|i: int|
            0 <= i < place.ts.len() - 1 ==> #[trigger] joint_clear(place.src, place.ts, i),
    ensures
        plain(f, place),
    decreases place.ts.len() - place.index,
{
    let ts = place.ts;
    let i = place.index;
    if 0 <= i < ts.len() && ts[i].kind != TokenKind::Eof {
        let g = before_token(f, place);
        assert(joint_clear(place.src, ts, i));
        lemma_plain(g.token(place), place.on(g.token_width(place)));
    }
}

/// Where a language spells its keywords plainly, formatting changes nothing but white space
/// in a text without comments between signs that may be written as one.
pub proof fn law_plain_texts_are_kept(d: Dialect, src: Seq<char>, ts: Seq<TokenV>)
    requires
        lexed_all(d, src, 0, 0) == Ok::<Seq<TokenV>, ParseErrorV>(ts),
        spells_plainly(d),
        forall|i: int| 0 <= i < ts.len() - 1 ==> #[trigger] joint_clear(src, ts, i),
    ensures
        dense(formatted(src, ts)) == dense(src),
{
    lemma_lexed_made_of(d, src, 0, 0);
    lemma_keywords_spelled(d, src, 0, 0);
    lemma_plain(format_start(), PlaceV { src, ts, index: 0 });
    law_only_white_space_changes(d, src, ts);
}

// ---------------------------------------------------------------------------
// Tokens in turn.

/// What a token says of its place: it has the line and the bytes of the positions that it
/// stands at, and every token but the end of the text has some.
proof fn lemma_token_bytes(d: Dialect, src: Seq<char>, id: SourceId, p: int)
    requires
        0 <= p <= src.len(),
        utf8_len_of(src) <= usize::MAX,
    ensures
        lexed(d, src, id, p) matches Ok((t, q)) ==> {
            &&& t.end == q
            &&& t.line == line_no(src, t.start)
            &&& t.span.lo == byte_offset(src, t.start)
            &&& t.span.hi == byte_offset(src, t.end)
            &&& t.span.lo <= t.span.hi <= utf8_len_of(src)
            &&& t.kind != TokenKind::Eof ==> t.span.lo < t.span.hi
        },
{
    lemma_skipped(src, p);
    match skipped(src, p) {
        Ok(q) => {
            lemma_lexeme(d, src, id, q);
            match lexeme(d, src, id, q) {
                Ok(l) => {
                    lemma_offset_monotone(src, q, l.end);
                    lemma_offset_monotone(src, l.end, src.len() as int);
                    assert(src.take(src.len() as int) =~= src);
                    if q < l.end {
                        lemma_utf8_len_push(src.take(q), src[q]);
                        assert(src.take(q + 1) =~= src.take(q).push(src[q]));
                        lemma_offset_monotone(src, q + 1, l.end);
                    }
                },
                Err(_) => {},
            }
        },
        Err(_) => {},
    }
}

/// Two tokens in turn: the second stands behind the first, on the same line or a later one,
/// with nothing but white space and comments between them. Every token but the end of the
/// text takes some bytes of it, and behind the end comes the same end again.
pub proof fn law_tokens_in_turn(d: Dialect, src: Seq<char>, id: SourceId, p: int)
    requires
        0 <= p <= src.len(),
        utf8_len_of(src) <= usize::MAX,
    ensures
        lexed(d, src, id, p) matches Ok((t1, q1)) ==> (lexed(d, src, id, q1) matches Ok((t2, _))
            ==> {
            &&& t1.span.lo <= t1.span.hi <= t2.span.lo <= t2.span.hi <= utf8_len_of(src)
            &&& t1.span.hi == byte_offset(src, t1.end)
            &&& t2.span.lo == byte_offset(src, t2.start)
            &&& 0 <= t1.end <= t2.start <= src.len()
            &&& trivia(src, t1.end, t2.start)
            &&& t1.line <= t2.line
            &&& t1.kind == TokenKind::Eof ==> t2 == t1
            &&& t1.kind != TokenKind::Eof ==> t1.span.lo < t1.span.hi
            &&& t2.kind != TokenKind::Eof ==> t2.span.lo < t2.span.hi
        }),
{
    lemma_token_bytes(d, src, id, p);
    lemma_lexed_stands(d, src, id, p);
    match lexed(d, src, id, p) {
        Ok((t1, q1)) => {
            lemma_token_bytes(d, src, id, q1);
            lemma_lexed_stands(d, src, id, q1);
            match lexed(d, src, id, q1) {
                Ok((t2, _)) => {
                    lemma_offset_monotone(src, t1.end, t2.start);
                    lemma_newlines_monotone(src, 0, t1.start);
                    lemma_newlines_monotone(src, t1.start, t2.start);
                },
                Err(_) => {},
            }
        },
        Err(_) => {},
    }
}

} // verus!
