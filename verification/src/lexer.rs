//! Splitting a source text into tokens.

use vstd::prelude::*;
use crate::errors::{parse_error, ParseError, ParseErrorV};
use crate::source_map::{
    byte_offset, lemma_newlines_monotone, newlines_before, SourceId, Span,
};
use crate::tables::StrSet;
use crate::text::{
    byte_len, chars_of, ident_continue, ident_start, is_ascii_digit, is_ascii_hexdigit, is_digit,
    is_hex_digit, is_ident_continue, is_ident_start, is_whitespace, lemma_utf8_len_push,
    lemma_utf8_len_take, len_utf8, same_text, text_between, utf8_len_of, white_space,
};

verus! {

/// What a token is. Its text and its number stand beside the kind.
#[derive(Clone, Copy, Debug, PartialEq, Eq, Structural)]
pub enum TokenKind {
    Ident,
    Int,
    IntMinMagnitude,
    Float,
    String,
    True,
    False,
    Null,
    Pub,
    Use,
    Import,
    From,
    As,
    Fn,
    Struct,
    Let,
    For,
    If,
    Else,
    Match,
    While,
    Break,
    Continue,
    Bang,
    BangEqual,
    Plus,
    PlusPlus,
    PlusEqual,
    Minus,
    Star,
    Slash,
    Percent,
    Ampersand,
    AmpersandAmpersand,
    PipePipe,
    Pipe,
    LParen,
    RParen,
    LBracket,
    RBracket,
    LBrace,
    RBrace,
    Comma,
    Colon,
    Question,
    Dot,
    Ellipsis,
    Semicolon,
    Equal,
    EqualEqual,
    FatArrow,
    Less,
    LessEqual,
    Greater,
    GreaterEqual,
    Eof,
}

/// A token: an identifier, a string or a number with its text, a keyword or a sign.
#[derive(Debug)]
pub struct Token {
    pub kind: TokenKind,
    pub text: String,
    pub number: i64,
    pub line: usize,
    pub span: Span,
    /// The positions of its first character and of the one behind its last.
    pub start: usize,
    pub end: usize,
}

/// The model of a token.
pub struct TokenV {
    pub kind: TokenKind,
    pub text: Seq<char>,
    pub number: i64,
    pub line: usize,
    pub span: Span,
    pub start: int,
    pub end: int,
}

impl Token {
    pub open spec fn view(&self) -> TokenV {
        TokenV {
            kind: self.kind,
            text: self.text@,
            number: self.number,
            line: self.line,
            span: self.span,
            start: self.start as int,
            end: self.end as int,
        }
    }
}

/// The models of a list of tokens.
pub open spec fn tokens_view(s: Seq<Token>) -> Seq<TokenV> {
    Seq::new(s.len(), |i: int| s[i]@)
}

/// How a language differs from its relatives.
#[derive(Debug)]
pub struct Dialect {
    pub import_keywords: StrSet,
    pub from_keywords: StrSet,
    pub fn_alias_keywords: StrSet,
    pub let_alias_keywords: StrSet,
    pub allow_import_stmt: bool,
    pub allow_return_stmt: bool,
    pub allow_require_declaration: bool,
    pub allow_typeof_operator: bool,
    pub allow_arrow_closure: bool,
    pub allow_dotted_call: bool,
    pub allow_namespace_path_separator: bool,
    pub allow_let_mut_binding: bool,
    pub allow_macro_calls: bool,
    /// Whether `++` and `+=` are signs of their own.
    pub allow_update_operators: bool,
    /// Whether `...` is a sign of its own.
    pub allow_spread: bool,
}

impl Dialect {
    /// A dialect with nothing but the common language.
    pub fn plain() -> (r: Dialect)
        ensures
            r.import_keywords@ == Set::<Seq<char>>::empty(),
            r.from_keywords@ == Set::<Seq<char>>::empty(),
            r.fn_alias_keywords@ == Set::<Seq<char>>::empty(),
            r.let_alias_keywords@ == Set::<Seq<char>>::empty(),
            !r.allow_import_stmt,
            !r.allow_return_stmt,
            !r.allow_require_declaration,
            !r.allow_typeof_operator,
            !r.allow_arrow_closure,
            !r.allow_dotted_call,
            r.allow_namespace_path_separator,
            !r.allow_let_mut_binding,
            !r.allow_macro_calls,
            !r.allow_update_operators,
            !r.allow_spread,
    {
        Dialect {
            import_keywords: StrSet::new(),
            from_keywords: StrSet::new(),
            fn_alias_keywords: StrSet::new(),
            let_alias_keywords: StrSet::new(),
            allow_import_stmt: false,
            allow_return_stmt: false,
            allow_require_declaration: false,
            allow_typeof_operator: false,
            allow_arrow_closure: false,
            allow_dotted_call: false,
            allow_namespace_path_separator: true,
            allow_let_mut_binding: false,
            allow_macro_calls: false,
            allow_update_operators: false,
            allow_spread: false,
        }
    }
}

// ---------------------------------------------------------------------------
// The model of a lexer.

/// A class of characters.
#[derive(Clone, Copy, PartialEq, Eq, Structural)]
pub enum CharClass {
    Digit,
    HexDigit,
    Ident,
    Space,
}

/// Whether a character belongs to a class.
pub open spec fn in_class(class: CharClass, c: char) -> bool {
    match class {
        CharClass::Digit => is_digit(c),
        CharClass::HexDigit => is_hex_digit(c),
        CharClass::Ident => ident_continue(c),
        CharClass::Space => white_space(c),
    }
}

/// The first position from `p` on whose character is not of a class.
pub open spec fn run_end(src: Seq<char>, p: int, class: CharClass) -> int
    decreases src.len() - p,
{
    if 0 <= p < src.len() && in_class(class, src[p]) {
        run_end(src, p + 1, class)
    } else {
        p
    }
}

/// Whether a character stands at a position.
pub open spec fn at(src: Seq<char>, p: int, c: char) -> bool {
    0 <= p < src.len() && src[p] == c
}

/// The position behind the next line feed, or the end.
pub open spec fn line_comment_end(src: Seq<char>, p: int) -> int
    decreases src.len() - p,
{
    if p < 0 || p >= src.len() {
        p
    } else if src[p] == '\n' {
        p + 1
    } else {
        line_comment_end(src, p + 1)
    }
}

/// The position behind the next end of a block comment.
pub open spec fn block_comment_end(src: Seq<char>, p: int) -> Option<int>
    decreases src.len() - p,
{
    if p < 0 || p >= src.len() {
        None
    } else if src[p] == '*' && at(src, p + 1, '/') {
        Some(p + 2)
    } else {
        block_comment_end(src, p + 1)
    }
}

/// The line of a position, counted from 1.
pub open spec fn line_no(src: Seq<char>, p: int) -> usize {
    if newlines_before(src, p) < usize::MAX {
        (newlines_before(src, p) + 1) as usize
    } else {
        usize::MAX
    }
}

/// The position of the next token: behind white space and comments.
pub open spec fn skipped(src: Seq<char>, p: int) -> Result<int, ParseErrorV>
    decreases src.len() - p,
{
    let q = run_end(src, p, CharClass::Space);
    if at(src, q, '/') && at(src, q + 1, '/') {
        let e = line_comment_end(src, q);
        if p < e <= src.len() {
            skipped(src, e)
        } else {
            Ok(q)
        }
    } else if at(src, q, '/') && at(src, q + 1, '*') {
        match block_comment_end(src, q + 2) {
            Some(e) => if p < e <= src.len() {
                skipped(src, e)
            } else {
                Ok(q)
            },
            None => Err(parse_error(line_no(src, q), "unterminated block comment"@)),
        }
    } else {
        Ok(q)
    }
}

/// The value of a digit.
pub open spec fn digit_value(c: char) -> nat {
    if is_digit(c) {
        (c as u32 - '0' as u32) as nat
    } else if 'a' <= c && c <= 'f' {
        (c as u32 - 'a' as u32 + 10) as nat
    } else if 'A' <= c && c <= 'F' {
        (c as u32 - 'A' as u32 + 10) as nat
    } else {
        0
    }
}

/// The value of digits in a radix.
pub open spec fn digits_value(digits: Seq<char>, radix: nat) -> nat
    decreases digits.len(),
{
    if digits.len() == 0 {
        0
    } else {
        digits_value(digits.drop_last(), radix) * radix + digit_value(digits.last())
    }
}

/// What a token says beside its place.
pub struct Lexeme {
    pub kind: TokenKind,
    pub text: Seq<char>,
    pub number: i64,
    pub end: int,
}

/// An integer literal. The magnitude of the least integer is a kind of its own:
/// only a minus sign in front makes it a number.
pub open spec fn integer_lexeme(
    text: Seq<char>,
    digits: Seq<char>,
    radix: nat,
    line: usize,
    end: int,
) -> Result<Lexeme, ParseErrorV> {
    let value = digits_value(digits, radix);
    if value <= i64::MAX {
        Ok(Lexeme { kind: TokenKind::Int, text: Seq::empty(), number: value as i64, end })
    } else if value == 0x8000_0000_0000_0000nat {
        Ok(Lexeme { kind: TokenKind::IntMinMagnitude, text, number: 0, end })
    } else if value <= u64::MAX {
        Err(parse_error(line, "integer literal '"@ + text + "' is out of range for i64"@))
    } else {
        Err(parse_error(line, "invalid number '"@ + text + "'"@))
    }
}

/// A number literal.
pub open spec fn number_lexeme(src: Seq<char>, p: int) -> Result<Lexeme, ParseErrorV> {
    let line = line_no(src, p);
    if at(src, p, '0') && (at(src, p + 1, 'x') || at(src, p + 1, 'X')) {
        let h = run_end(src, p + 2, CharClass::HexDigit);
        if h == p + 2 {
            Err(parse_error(line, "invalid number '"@ + src.subrange(p, h) + "'"@))
        } else {
            integer_lexeme(src.subrange(p, h), src.subrange(p + 2, h), 16, line, h)
        }
    } else {
        let e = run_end(src, p, CharClass::Digit);
        if at(src, e, '.') && 0 <= e + 1 < src.len() && is_digit(src[e + 1]) {
            let f = run_end(src, e + 1, CharClass::Digit);
            Ok(Lexeme { kind: TokenKind::Float, text: src.subrange(p, f), number: 0, end: f })
        } else {
            integer_lexeme(src.subrange(p, e), src.subrange(p, e), 10, line, e)
        }
    }
}

/// The value of a hexadecimal digit.
pub open spec fn nibble(c: char) -> Option<nat> {
    if is_hex_digit(c) {
        Some(digit_value(c))
    } else {
        None
    }
}

/// The character that an escape of one letter stands for.
pub open spec fn escaped(c: char) -> Option<char> {
    if c == 'n' {
        Some('\n')
    } else if c == 'r' {
        Some('\r')
    } else if c == 't' {
        Some('\t')
    } else if c == '\\' || c == '"' || c == '\'' {
        Some(c)
    } else if c == '0' {
        Some('\0')
    } else {
        None
    }
}

/// One character of a string literal and the position behind it.
pub open spec fn string_char(src: Seq<char>, p: int, line: usize) -> Result<
    (char, int),
    ParseErrorV,
> {
    if src[p] != '\\' {
        Ok((src[p], p + 1))
    } else if p + 1 >= src.len() {
        Err(parse_error(line, "unterminated string escape"@))
    } else if src[p + 1] == 'x' {
        if p + 2 >= src.len() {
            Err(parse_error(line, "unterminated string escape"@))
        } else if nibble(src[p + 2]) is None {
            Err(parse_error(line, "invalid escape '\\x'"@))
        } else if p + 3 >= src.len() {
            Err(parse_error(line, "unterminated string escape"@))
        } else if nibble(src[p + 3]) is None {
            Err(parse_error(line, "invalid escape '\\x'"@))
        } else {
            Ok(((nibble(src[p + 2])->0 * 16 + nibble(src[p + 3])->0) as char, p + 4))
        }
    } else {
        match escaped(src[p + 1]) {
            Some(c) => Ok((c, p + 2)),
            None => Err(
                parse_error(line, "invalid escape '\\"@ + seq![src[p + 1]] + "'"@),
            ),
        }
    }
}

/// The rest of a string literal from position `p` on, and the position behind it.
pub open spec fn string_rest(src: Seq<char>, p: int, delimiter: char, line: usize) -> Result<
    (Seq<char>, int),
    ParseErrorV,
>
    decreases src.len() - p,
{
    if p < 0 || p >= src.len() {
        Err(parse_error(line, "unterminated string literal"@))
    } else if src[p] == delimiter {
        Ok((Seq::empty(), p + 1))
    } else {
        match string_char(src, p, line) {
            Ok((c, q)) => if p < q {
                match string_rest(src, q, delimiter, line) {
                    Ok((rest, end)) => Ok((seq![c] + rest, end)),
                    Err(e) => Err(e),
                }
            } else {
                Ok((Seq::empty(), q))
            },
            Err(e) => Err(e),
        }
    }
}

/// The kind of an identifier or keyword.
pub open spec fn word_kind(d: Dialect, word: Seq<char>) -> TokenKind {
    if word == "pub"@ {
        TokenKind::Pub
    } else if word == "use"@ {
        TokenKind::Use
    } else if d.import_keywords@.contains(word) {
        TokenKind::Import
    } else if d.from_keywords@.contains(word) {
        TokenKind::From
    } else if word == "as"@ {
        TokenKind::As
    } else if word == "fn"@ {
        TokenKind::Fn
    } else if d.fn_alias_keywords@.contains(word) {
        TokenKind::Fn
    } else if word == "struct"@ {
        TokenKind::Struct
    } else if word == "let"@ {
        TokenKind::Let
    } else if d.let_alias_keywords@.contains(word) {
        TokenKind::Let
    } else if word == "for"@ {
        TokenKind::For
    } else if word == "if"@ {
        TokenKind::If
    } else if word == "else"@ {
        TokenKind::Else
    } else if word == "match"@ {
        TokenKind::Match
    } else if word == "while"@ {
        TokenKind::While
    } else if word == "break"@ {
        TokenKind::Break
    } else if word == "continue"@ {
        TokenKind::Continue
    } else if word == "true"@ {
        TokenKind::True
    } else if word == "false"@ {
        TokenKind::False
    } else if word == "null"@ {
        TokenKind::Null
    } else {
        TokenKind::Ident
    }
}

/// The sign at a position and its length.
pub open spec fn sign(d: Dialect, src: Seq<char>, p: int) -> Option<(TokenKind, int)> {
    let c = src[p];
    if c == '+' && d.allow_update_operators && at(src, p + 1, '+') {
        Some((TokenKind::PlusPlus, 2))
    } else if c == '+' && d.allow_update_operators && at(src, p + 1, '=') {
        Some((TokenKind::PlusEqual, 2))
    } else if c == '+' {
        Some((TokenKind::Plus, 1))
    } else if c == '!' && at(src, p + 1, '=') {
        Some((TokenKind::BangEqual, 2))
    } else if c == '!' {
        Some((TokenKind::Bang, 1))
    } else if c == '-' {
        Some((TokenKind::Minus, 1))
    } else if c == '*' {
        Some((TokenKind::Star, 1))
    } else if c == '/' {
        Some((TokenKind::Slash, 1))
    } else if c == '%' {
        Some((TokenKind::Percent, 1))
    } else if c == '&' && at(src, p + 1, '&') {
        Some((TokenKind::AmpersandAmpersand, 2))
    } else if c == '&' {
        Some((TokenKind::Ampersand, 1))
    } else if c == '|' && at(src, p + 1, '|') {
        Some((TokenKind::PipePipe, 2))
    } else if c == '|' {
        Some((TokenKind::Pipe, 1))
    } else if c == '(' {
        Some((TokenKind::LParen, 1))
    } else if c == ')' {
        Some((TokenKind::RParen, 1))
    } else if c == '[' {
        Some((TokenKind::LBracket, 1))
    } else if c == ']' {
        Some((TokenKind::RBracket, 1))
    } else if c == '{' {
        Some((TokenKind::LBrace, 1))
    } else if c == '}' {
        Some((TokenKind::RBrace, 1))
    } else if c == ',' {
        Some((TokenKind::Comma, 1))
    } else if c == ':' {
        Some((TokenKind::Colon, 1))
    } else if c == '?' {
        Some((TokenKind::Question, 1))
    } else if c == '.' && d.allow_spread && at(src, p + 1, '.') && at(src, p + 2, '.') {
        Some((TokenKind::Ellipsis, 3))
    } else if c == '.' {
        Some((TokenKind::Dot, 1))
    } else if c == ';' {
        Some((TokenKind::Semicolon, 1))
    } else if c == '<' && at(src, p + 1, '=') {
        Some((TokenKind::LessEqual, 2))
    } else if c == '<' {
        Some((TokenKind::Less, 1))
    } else if c == '>' && at(src, p + 1, '=') {
        Some((TokenKind::GreaterEqual, 2))
    } else if c == '>' {
        Some((TokenKind::Greater, 1))
    } else if c == '=' && at(src, p + 1, '=') {
        Some((TokenKind::EqualEqual, 2))
    } else if c == '=' && at(src, p + 1, '>') {
        Some((TokenKind::FatArrow, 2))
    } else if c == '=' {
        Some((TokenKind::Equal, 1))
    } else {
        None
    }
}

/// What stands at the position of a token.
pub open spec fn lexeme(d: Dialect, src: Seq<char>, id: SourceId, p: int) -> Result<
    Lexeme,
    ParseErrorV,
> {
    if p >= src.len() {
        Ok(Lexeme { kind: TokenKind::Eof, text: Seq::empty(), number: 0, end: p })
    } else {
        match sign(d, src, p) {
            Some((kind, len)) => Ok(Lexeme { kind, text: Seq::empty(), number: 0, end: p + len }),
            None => if src[p] == '"' || src[p] == '\'' {
                match string_rest(src, p + 1, src[p], line_no(src, p)) {
                    Ok((text, end)) => Ok(Lexeme { kind: TokenKind::String, text, number: 0, end }),
                    Err(e) => Err(e),
                }
            } else if is_digit(src[p]) {
                number_lexeme(src, p)
            } else if ident_start(src[p]) {
                let e = run_end(src, p, CharClass::Ident);
                let word = src.subrange(p, e);
                let kind = word_kind(d, word);
                Ok(
                    Lexeme {
                        kind,
                        text: if kind == TokenKind::Ident {
                            word
                        } else {
                            Seq::empty()
                        },
                        number: 0,
                        end: e,
                    },
                )
            } else {
                Err(
                    ParseErrorV {
                        span: Some(
                            Span {
                                source_id: id,
                                lo: byte_offset(src, p) as usize,
                                hi: (byte_offset(src, p) + 1) as usize,
                            },
                        ),
                        ..parse_error(
                            line_no(src, p),
                            "unexpected character '"@ + seq![src[p]] + "'"@,
                        )
                    },
                )
            },
        }
    }
}

/// The next token from a position on, and the position behind it.
pub open spec fn lexed(d: Dialect, src: Seq<char>, id: SourceId, p: int) -> Result<
    (TokenV, int),
    ParseErrorV,
> {
    match skipped(src, p) {
        Ok(q) => match lexeme(d, src, id, q) {
            Ok(l) => Ok(
                (
                    TokenV {
                        kind: l.kind,
                        text: l.text,
                        number: l.number,
                        line: line_no(src, q),
                        span: Span {
                            source_id: id,
                            lo: byte_offset(src, q) as usize,
                            hi: byte_offset(src, l.end) as usize,
                        },
                        start: q,
                        end: l.end,
                    },
                    l.end,
                ),
            ),
            Err(e) => Err(e),
        },
        Err(e) => Err(e),
    }
}

/// All tokens from a position on. The last one is the end of the text.
pub open spec fn lexed_all(d: Dialect, src: Seq<char>, id: SourceId, p: int) -> Result<
    Seq<TokenV>,
    ParseErrorV,
>
    decreases src.len() - p,
{
    match lexed(d, src, id, p) {
        Ok((t, q)) => if t.kind == TokenKind::Eof || !(p < q && q <= src.len()) {
            Ok(seq![t])
        } else {
            match lexed_all(d, src, id, q) {
                Ok(rest) => Ok(seq![t] + rest),
                Err(e) => Err(e),
            }
        },
        Err(e) => Err(e),
    }
}

// ---------------------------------------------------------------------------
// Progress.

pub proof fn lemma_run_end(src: Seq<char>, p: int, class: CharClass)
    requires
        0 <= p <= src.len(),
    ensures
        p <= run_end(src, p, class) <= src.len(),
        p < src.len() && in_class(class, src[p]) ==> run_end(src, p, class) > p,
    decreases src.len() - p,
{
    if p < src.len() && in_class(class, src[p]) {
        lemma_run_end(src, p + 1, class);
    }
}

pub proof fn lemma_line_comment_end(src: Seq<char>, p: int)
    requires
        0 <= p <= src.len(),
    ensures
        p <= line_comment_end(src, p) <= src.len(),
        p < src.len() ==> line_comment_end(src, p) > p,
    decreases src.len() - p,
{
    if p < src.len() && src[p] != '\n' {
        lemma_line_comment_end(src, p + 1);
    }
}

pub proof fn lemma_block_comment_end(src: Seq<char>, p: int)
    requires
        0 <= p <= src.len(),
    ensures
        block_comment_end(src, p) matches Some(e) ==> p < e <= src.len(),
    decreases src.len() - p,
{
    if p < src.len() && !(src[p] == '*' && at(src, p + 1, '/')) {
        lemma_block_comment_end(src, p + 1);
    }
}

pub proof fn lemma_skipped(src: Seq<char>, p: int)
    requires
        0 <= p <= src.len(),
    ensures
        skipped(src, p) matches Ok(q) ==> p <= q <= src.len(),
    decreases src.len() - p,
{
    lemma_run_end(src, p, CharClass::Space);
    let q = run_end(src, p, CharClass::Space);
    if at(src, q, '/') && at(src, q + 1, '/') {
        lemma_line_comment_end(src, q);
        lemma_skipped(src, line_comment_end(src, q));
    } else if at(src, q, '/') && at(src, q + 1, '*') {
        lemma_block_comment_end(src, q + 2);
        match block_comment_end(src, q + 2) {
            Some(e) => lemma_skipped(src, e),
            None => {},
        }
    }
}

proof fn lemma_string_rest(src: Seq<char>, p: int, delimiter: char, line: usize)
    requires
        0 <= p <= src.len(),
    ensures
        string_rest(src, p, delimiter, line) matches Ok((_, e)) ==> p < e <= src.len(),
    decreases src.len() - p,
{
    if p < src.len() && src[p] != delimiter {
        match string_char(src, p, line) {
            Ok((_, q)) => {
                if q <= src.len() {
                    lemma_string_rest(src, q, delimiter, line);
                }
            },
            Err(_) => {},
        }
    }
}

pub proof fn lemma_lexeme(d: Dialect, src: Seq<char>, id: SourceId, p: int)
    requires
        0 <= p <= src.len(),
    ensures
        lexeme(d, src, id, p) matches Ok(l) ==> p <= l.end <= src.len() && (l.kind != TokenKind::Eof
            ==> p < l.end) && (p < src.len() ==> l.kind != TokenKind::Eof),
{
    if p < src.len() {
        if sign(d, src, p) is None {
            lemma_string_rest(src, p + 1, src[p], line_no(src, p));
            lemma_run_end(src, p, CharClass::Digit);
            lemma_run_end(src, p, CharClass::Ident);
            let e = run_end(src, p, CharClass::Digit);
            if at(src, e, '.') {
                lemma_run_end(src, e + 1, CharClass::Digit);
            }
            if at(src, p, '0') && (at(src, p + 1, 'x') || at(src, p + 1, 'X')) {
                lemma_run_end(src, p + 2, CharClass::HexDigit);
            }
        }
    }
}

/// A lexer never goes back and never beyond the end, and every token but the last
/// takes at least one character.
pub proof fn law_lexing_makes_progress(d: Dialect, src: Seq<char>, id: SourceId, p: int)
    requires
        0 <= p <= src.len(),
    ensures
        lexed(d, src, id, p) matches Ok((t, q)) ==> p <= q <= src.len() && (t.kind
            != TokenKind::Eof ==> p < q),
{
    lemma_skipped(src, p);
    match skipped(src, p) {
        Ok(q) => lemma_lexeme(d, src, id, q),
        Err(_) => {},
    }
}

pub proof fn lemma_offset_monotone(src: Seq<char>, a: int, b: int)
    requires
        0 <= a <= b <= src.len(),
    ensures
        byte_offset(src, a) <= byte_offset(src, b),
{
    assert(src.take(b).take(a) =~= src.take(a));
    lemma_utf8_len_take(src.take(b), a);
}

/// Whether tokens stand in a text from a position on, one behind the other, and exactly
/// the last one is the end of the text.
pub open spec fn in_order(ts: Seq<TokenV>, src: Seq<char>, p: int) -> bool {
    &&& ts.len() > 0
    &&& ts.last().kind == TokenKind::Eof
    &&& forall|i: int| 0 <= i < ts.len() - 1 ==> (#[trigger] ts[i]).kind != TokenKind::Eof
    &&& forall|i: int|
        0 <= i < ts.len() ==> byte_offset(src, p) <= (#[trigger] ts[i]).span.lo <= ts[i].span.hi
    &&& forall|i: int, j: int|
        0 <= i < j < ts.len() ==> (#[trigger] ts[i]).span.hi <= (#[trigger] ts[j]).span.lo
    &&& forall|i: int|
        0 <= i < ts.len() ==> p <= (#[trigger] ts[i]).start <= ts[i].end <= src.len()
    &&& forall|i: int, j: int|
        0 <= i < j < ts.len() ==> (#[trigger] ts[i]).end <= (#[trigger] ts[j]).start
}

/// Where a token stands.
proof fn lemma_token_place(d: Dialect, src: Seq<char>, id: SourceId, p: int)
    requires
        0 <= p <= src.len(),
        utf8_len_of(src) <= usize::MAX,
    ensures
        lexed(d, src, id, p) matches Ok((t, q)) ==> {
            &&& byte_offset(src, p) <= t.span.lo <= t.span.hi <= byte_offset(src, q)
            &&& p <= t.start <= t.end <= q <= src.len()
        },
{
    law_lexing_makes_progress(d, src, id, p);
    match lexed(d, src, id, p) {
        Ok((t, q)) => {
            lemma_skipped(src, p);
            let start = skipped(src, p)->Ok_0;
            lemma_lexeme(d, src, id, start);
            lemma_offset_monotone(src, p, start);
            lemma_offset_monotone(src, start, q);
            lemma_offset_monotone(src, q, src.len() as int);
            assert(src.take(src.len() as int) =~= src);
        },
        Err(_) => {},
    }
}

/// A token before tokens in order.
proof fn lemma_in_order_cons(t: TokenV, rest: Seq<TokenV>, src: Seq<char>, p: int, q: int)
    requires
        in_order(rest, src, q),
        t.kind != TokenKind::Eof,
        byte_offset(src, p) <= t.span.lo <= t.span.hi <= byte_offset(src, q),
        p <= t.start <= t.end <= q <= src.len(),
    ensures
        in_order(seq![t] + rest, src, p),
{
    let ts = seq![t] + rest;
    assert forall|i: int| 1 <= i < ts.len() implies #[trigger] ts[i] == rest[i - 1] by {}
    assert(ts[0] == t);
    assert(ts.last() == rest.last());
}

/// The tokens of a text: exactly the last one is its end, they come in the order of
/// the text, and none reaches into the next.
pub proof fn law_tokens_are_ordered(d: Dialect, src: Seq<char>, id: SourceId, p: int)
    requires
        0 <= p <= src.len(),
        utf8_len_of(src) <= usize::MAX,
    ensures
        lexed_all(d, src, id, p) matches Ok(ts) ==> in_order(ts, src, p),
    decreases src.len() - p,
{
    law_lexing_makes_progress(d, src, id, p);
    lemma_token_place(d, src, id, p);
    match lexed(d, src, id, p) {
        Ok((t, q)) => {
            if t.kind != TokenKind::Eof {
                law_tokens_are_ordered(d, src, id, q);
                if lexed_all(d, src, id, q) is Ok {
                    lemma_in_order_cons(t, lexed_all(d, src, id, q)->Ok_0, src, p, q);
                }
            } else {
                assert(seq![t][0] == t);
            }
        },
        Err(_) => {},
    }
}

// ---------------------------------------------------------------------------
// The lexer.

/// A lexer in the middle of a text.
pub struct Lexer<'d> {
    chars: Vec<char>,
    pos: usize,
    line: usize,
    offset: usize,
    source_id: SourceId,
    dialect: &'d Dialect,
}

impl<'d> Lexer<'d> {
    /// The text.
    pub closed spec fn src(&self) -> Seq<char> {
        self.chars@
    }

    /// The position in the text.
    pub closed spec fn at_pos(&self) -> int {
        self.pos as int
    }

    pub closed spec fn id(&self) -> SourceId {
        self.source_id
    }

    pub closed spec fn dialect_of(&self) -> Dialect {
        *self.dialect
    }

    /// The line and the offset are those of the position.
    pub closed spec fn wf(&self) -> bool {
        &&& self.pos <= self.chars@.len()
        &&& self.line == line_no(self.chars@, self.pos as int)
        &&& self.offset == byte_offset(self.chars@, self.pos as int)
        &&& utf8_len_of(self.chars@) <= usize::MAX
    }

    /// Whether two lexers read the same text.
    pub open spec fn same_text_as(&self, other: &Lexer<'d>) -> bool {
        self.src() == other.src() && self.id() == other.id() && self.dialect_of()
            == other.dialect_of()
    }

    pub fn new(source: &str, source_id: SourceId, dialect: &'d Dialect) -> (r: Self)
        ensures
            r.wf(),
            r.src() == source@,
            r.at_pos() == 0,
            r.id() == source_id,
            r.dialect_of() == *dialect,
    {
        let total: usize = byte_len(source);
        let chars = chars_of(source);
        assert(source@.take(0) =~= Seq::<char>::empty());
        Lexer { chars, pos: 0, line: 1, offset: 0, source_id, dialect }
    }

    fn current(&self) -> (r: Option<char>)
        requires
            self.wf(),
        ensures
            r == if self.at_pos() < self.src().len() {
                Some(self.src()[self.at_pos()])
            } else {
                None
            },
    {
        if self.pos < self.chars.len() {
            Some(self.chars[self.pos])
        } else {
            None
        }
    }

    /// Whether a character stands a few places ahead.
    fn peek_is(&self, ahead: usize, c: char) -> (r: bool)
        requires
            self.wf(),
            ahead <= 4,
        ensures
            r == at(self.src(), self.at_pos() + ahead, c),
    {
        let left: usize = self.chars.len() - self.pos;
        ahead < left && self.chars[self.pos + ahead] == c
    }

    fn advance(&mut self)
        requires
            old(self).wf(),
            old(self).at_pos() < old(self).src().len(),
        ensures
            final(self).wf(),
            final(self).same_text_as(old(self)),
            final(self).at_pos() == old(self).at_pos() + 1,
    {
        let total: usize = self.chars.len();
        let c = self.chars[self.pos];
        let ghost src = self.chars@;
        let ghost p = self.pos as int;
        proof {
            lemma_newlines_monotone(src, 0, p);
        }
        assert(newlines_before(src, p + 1) == newlines_before(src, p) + (if c == '\n' {
            1int
        } else {
            0int
        }));
        if c == '\n' && self.line < usize::MAX {
            self.line += 1;
        }
        proof {
            lemma_utf8_len_push(src.take(p), c);
            assert(src.take(p + 1) =~= src.take(p).push(c));
            lemma_utf8_len_take(src, p + 1);
        }
        self.offset += len_utf8(c);
        self.pos += 1;
    }

    /// Moves behind a run of characters of a class.
    fn skip_run(&mut self, class: CharClass)
        requires
            old(self).wf(),
        ensures
            final(self).wf(),
            final(self).same_text_as(old(self)),
            final(self).at_pos() == run_end(old(self).src(), old(self).at_pos(), class),
            old(self).at_pos() <= final(self).at_pos() <= old(self).src().len(),
    {
        proof {
            lemma_run_end(self.src(), self.at_pos(), class);
        }
        while self.pos < self.chars.len() && char_in_class(class, self.chars[self.pos])
            invariant
                self.wf(),
                self.same_text_as(old(self)),
                old(self).at_pos() <= self.at_pos(),
                run_end(old(self).src(), old(self).at_pos(), class) == run_end(
                    self.src(),
                    self.at_pos(),
                    class,
                ),
            decreases self.src().len() - self.at_pos(),
        {
            self.advance();
        }
    }

    fn skip_line_comment(&mut self)
        requires
            old(self).wf(),
        ensures
            final(self).wf(),
            final(self).same_text_as(old(self)),
            final(self).at_pos() == line_comment_end(old(self).src(), old(self).at_pos()),
    {
        let mut done = false;
        while !done && self.pos < self.chars.len()
            invariant
                self.wf(),
                self.same_text_as(old(self)),
                done ==> self.at_pos() == line_comment_end(old(self).src(), old(self).at_pos()),
                !done ==> line_comment_end(old(self).src(), old(self).at_pos())
                    == line_comment_end(self.src(), self.at_pos()),
            decreases self.src().len() - self.at_pos(),
        {
            let c = self.chars[self.pos];
            self.advance();
            if c == '\n' {
                done = true;
            }
        }
    }

    /// Moves behind the end of a block comment, where there is one.
    fn skip_block_comment(&mut self) -> (r: bool)
        requires
            old(self).wf(),
        ensures
            final(self).wf(),
            final(self).same_text_as(old(self)),
            old(self).at_pos() <= final(self).at_pos() <= old(self).src().len(),
            match block_comment_end(old(self).src(), old(self).at_pos()) {
                Some(e) => r && final(self).at_pos() == e,
                None => !r,
            },
    {
        while self.pos < self.chars.len()
            invariant
                self.wf(),
                old(self).at_pos() <= self.at_pos(),
                self.same_text_as(old(self)),
                block_comment_end(old(self).src(), old(self).at_pos()) == block_comment_end(
                    self.src(),
                    self.at_pos(),
                ),
            decreases self.src().len() - self.at_pos(),
        {
            if self.chars[self.pos] == '*' && self.peek_is(1, '/') {
                self.advance();
                self.advance();
                return true;
            }
            self.advance();
        }
        false
    }

    fn skip_whitespace_and_comments(&mut self) -> (r: Result<(), ParseError>)
        requires
            old(self).wf(),
        ensures
            final(self).wf(),
            final(self).same_text_as(old(self)),
            old(self).at_pos() <= final(self).at_pos() <= old(self).src().len(),
            match skipped(old(self).src(), old(self).at_pos()) {
                Ok(q) => r is Ok && final(self).at_pos() == q,
                Err(e) => r is Err && r->Err_0@ == e,
            },
    {
        let mut more = true;
        let ghost src = self.src();
        while more
            invariant
                self.wf(),
                old(self).at_pos() <= self.at_pos(),
                self.same_text_as(old(self)),
                src == self.src(),
                more ==> skipped(src, old(self).at_pos()) == skipped(src, self.at_pos()),
                !more ==> skipped(src, old(self).at_pos()) == Ok::<int, ParseErrorV>(
                    self.at_pos(),
                ),
            decreases src.len() - self.at_pos(), (if more {
                1int
            } else {
                0int
            }),
        {
            let ghost p = self.at_pos();
            self.skip_run(CharClass::Space);
            let ghost q = self.at_pos();
            if self.peek_is(0, '/') && self.peek_is(1, '/') {
                proof {
                    lemma_line_comment_end(src, q);
                }
                self.skip_line_comment();
            } else if self.peek_is(0, '/') && self.peek_is(1, '*') {
                let start_line = self.line;
                self.advance();
                self.advance();
                proof {
                    lemma_block_comment_end(src, q + 2);
                }
                if !self.skip_block_comment() {
                    return Err(
                        ParseError::at_line(start_line, "unterminated block comment".to_string()),
                    );
                }
            } else {
                more = false;
            }
        }
        Ok(())
    }

    /// The value of the digits between two positions, unless it is too large.
    fn number_value(&self, lo: usize, hi: usize, radix: u64) -> (r: Option<u64>)
        requires
            lo <= hi <= self.src().len(),
            2 <= radix <= 16,
            radix == 16 ==> forall|k: int| lo <= k < hi ==> is_hex_digit(#[trigger] self.src()[k]),
            radix < 16 ==> forall|k: int| lo <= k < hi ==> is_digit(#[trigger] self.src()[k]),
        ensures
            match r {
                Some(v) => v == digits_value(
                    self.src().subrange(lo as int, hi as int),
                    radix as nat,
                ),
                None => digits_value(self.src().subrange(lo as int, hi as int), radix as nat)
                    > u64::MAX,
            },
    {
        let mut value: u64 = 0;
        let mut i: usize = lo;
        assert(self.src().subrange(lo as int, lo as int) =~= Seq::<char>::empty());
        while i < hi
            invariant
                lo <= i <= hi <= self.src().len(),
                2 <= radix <= 16,
                radix == 16 ==> forall|k: int|
                    lo <= k < hi ==> is_hex_digit(#[trigger] self.src()[k]),
                radix < 16 ==> forall|k: int| lo <= k < hi ==> is_digit(#[trigger] self.src()[k]),
                value == digits_value(self.src().subrange(lo as int, i as int), radix as nat),
            decreases hi - i,
        {
            let digit: u64 = hex_nibble(self.chars[i]).unwrap() as u64;
            let ghost before = self.src().subrange(lo as int, i as int);
            let ghost after = self.src().subrange(lo as int, i + 1);
            proof {
                assert(after.drop_last() =~= before);
                assert(after.last() == self.src()[i as int]);
                assert(digits_value(after, radix as nat) == value * radix + digit);
            }
            let scaled = match value.checked_mul(radix) {
                Some(v) => v,
                None => {
                    proof {
                        lemma_digits_grow(self.src(), lo as int, i + 1, hi as int, radix as nat);
                    }
                    return None;
                },
            };
            value = match scaled.checked_add(digit) {
                Some(v) => v,
                None => {
                    proof {
                        lemma_digits_grow(self.src(), lo as int, i + 1, hi as int, radix as nat);
                    }
                    return None;
                },
            };
            i += 1;
        }
        Some(value)
    }

    /// An integer literal of the digits between two positions.
    fn parse_integer_literal(
        &self,
        start: usize,
        lo: usize,
        hi: usize,
        radix: u64,
        line: usize,
    ) -> (r: Result<(TokenKind, String, i64), ParseError>)
        requires
            start <= lo <= hi <= self.src().len(),
            2 <= radix <= 16,
            radix == 16 ==> forall|k: int| lo <= k < hi ==> is_hex_digit(#[trigger] self.src()[k]),
            radix < 16 ==> forall|k: int| lo <= k < hi ==> is_digit(#[trigger] self.src()[k]),
        ensures
            match integer_lexeme(
                self.src().subrange(start as int, hi as int),
                self.src().subrange(lo as int, hi as int),
                radix as nat,
                line,
                hi as int,
            ) {
                Ok(l) => r is Ok && r->Ok_0.0 == l.kind && r->Ok_0.1@ == l.text && r->Ok_0.2
                    == l.number,
                Err(e) => r is Err && r->Err_0@ == e,
            },
    {
        let text = text_between(&self.chars, start, hi);
        match self.number_value(lo, hi, radix) {
            Some(value) => {
                if value <= 0x7FFF_FFFF_FFFF_FFFF {
                    Ok((TokenKind::Int, String::new(), value as i64))
                } else if value == 0x8000_0000_0000_0000 {
                    Ok((TokenKind::IntMinMagnitude, text, 0))
                } else {
                    let mut message = "integer literal '".to_string();
                    message.push_str(text.as_str());
                    message.push_str("' is out of range for i64");
                    Err(ParseError::at_line(line, message))
                }
            },
            None => {
                let mut message = "invalid number '".to_string();
                message.push_str(text.as_str());
                message.push_str("'");
                Err(ParseError::at_line(line, message))
            },
        }
    }

    fn consume_number(&mut self) -> (r: Result<(TokenKind, String, i64), ParseError>)
        requires
            old(self).wf(),
            old(self).at_pos() < old(self).src().len(),
            is_digit(old(self).src()[old(self).at_pos()]),
        ensures
            final(self).wf(),
            final(self).same_text_as(old(self)),
            old(self).at_pos() <= final(self).at_pos() <= old(self).src().len(),
            match number_lexeme(old(self).src(), old(self).at_pos()) {
                Ok(l) => r is Ok && r->Ok_0.0 == l.kind && r->Ok_0.1@ == l.text && r->Ok_0.2
                    == l.number
                    && final(self).at_pos() == l.end,
                Err(e) => r is Err && r->Err_0@ == e,
            },
    {
        let line = self.line;
        let start = self.pos;
        let ghost src = self.src();
        if self.peek_is(0, '0') && (self.peek_is(1, 'x') || self.peek_is(1, 'X')) {
            self.advance();
            self.advance();
            let digits = self.pos;
            self.skip_run(CharClass::HexDigit);
            proof {
                lemma_run_in_class(src, digits as int, CharClass::HexDigit);
            }
            if self.pos == digits {
                let mut message = "invalid number '".to_string();
                message.push_str(text_between(&self.chars, start, self.pos).as_str());
                message.push_str("'");
                return Err(ParseError::at_line(line, message));
            }
            return self.parse_integer_literal(start, digits, self.pos, 16, line);
        }
        self.skip_run(CharClass::Digit);
        proof {
            lemma_run_in_class(src, start as int, CharClass::Digit);
        }
        let whole = self.pos;
        let left: usize = self.chars.len() - self.pos;
        if self.peek_is(0, '.') && left > 1 && is_ascii_digit(self.chars[self.pos + 1]) {
            self.advance();
            self.skip_run(CharClass::Digit);
            let text = text_between(&self.chars, start, self.pos);
            return Ok((TokenKind::Float, text, 0));
        }
        self.parse_integer_literal(start, start, whole, 10, line)
    }

    /// Reads one character of a string literal.
    fn consume_string_char(&mut self, line: usize) -> (r: Result<char, ParseError>)
        requires
            old(self).wf(),
            old(self).at_pos() < old(self).src().len(),
        ensures
            final(self).wf(),
            final(self).same_text_as(old(self)),
            old(self).at_pos() <= final(self).at_pos() <= old(self).src().len(),
            match string_char(old(self).src(), old(self).at_pos(), line) {
                Ok((c, q)) => r is Ok && r->Ok_0 == c && final(self).at_pos() == q,
                Err(e) => r is Err && r->Err_0@ == e,
            },
    {
        let c = self.chars[self.pos];
        self.advance();
        if c != '\\' {
            return Ok(c);
        }
        let e = match self.current() {
            Some(e) => e,
            None => {
                return Err(ParseError::at_line(line, "unterminated string escape".to_string()));
            },
        };
        if e == 'x' {
            self.advance();
            let hi = match self.current() {
                Some(h) => h,
                None => {
                    return Err(
                        ParseError::at_line(line, "unterminated string escape".to_string()),
                    );
                },
            };
            let hi_value = match hex_nibble(hi) {
                Some(v) => v,
                None => {
                    return Err(ParseError::at_line(line, "invalid escape '\\x'".to_string()));
                },
            };
            self.advance();
            let lo = match self.current() {
                Some(l) => l,
                None => {
                    return Err(
                        ParseError::at_line(line, "unterminated string escape".to_string()),
                    );
                },
            };
            let lo_value = match hex_nibble(lo) {
                Some(v) => v,
                None => {
                    return Err(ParseError::at_line(line, "invalid escape '\\x'".to_string()));
                },
            };
            self.advance();
            let byte: u8 = hi_value * 16 + lo_value;
            return Ok(byte as char);
        }
        let mapped = match unescape(e) {
            Some(m) => m,
            None => {
                let mut message = "invalid escape '\\".to_string();
                message.push(e);
                message.push_str("'");
                assert("invalid escape '\\"@.push(e) =~= "invalid escape '\\"@ + seq![e]);
                return Err(ParseError::at_line(line, message));
            },
        };
        self.advance();
        Ok(mapped)
    }

    /// Reads a string literal from behind its opening delimiter on.
    fn consume_string(&mut self, delimiter: char, line: usize) -> (r: Result<String, ParseError>)
        requires
            old(self).wf(),
        ensures
            final(self).wf(),
            final(self).same_text_as(old(self)),
            old(self).at_pos() <= final(self).at_pos() <= old(self).src().len(),
            match string_rest(old(self).src(), old(self).at_pos(), delimiter, line) {
                Ok((text, end)) => r is Ok && r->Ok_0@ == text && final(self).at_pos() == end,
                Err(e) => r is Err && r->Err_0@ == e,
            },
    {
        let mut out = String::new();
        let ghost src = self.src();
        let ghost total = string_rest(src, self.at_pos(), delimiter, line);
        while self.pos < self.chars.len()
            invariant
                self.wf(),
                old(self).at_pos() <= self.at_pos(),
                self.same_text_as(old(self)),
                src == self.src(),
                total == string_rest(src, old(self).at_pos(), delimiter, line),
                match string_rest(src, self.at_pos(), delimiter, line) {
                    Ok((rest, end)) => total is Ok && total->Ok_0.0 =~= out@ + rest && total->Ok_0.1
                        == end,
                    Err(e) => total == Err::<(Seq<char>, int), ParseErrorV>(e),
                },
            decreases src.len() - self.at_pos(),
        {
            if self.chars[self.pos] == delimiter {
                self.advance();
                return Ok(out);
            }
            let ghost before = out@;
            match self.consume_string_char(line) {
                Ok(c) => {
                    out.push(c);
                    proof {
                        assert forall|rest: Seq<char>|
                            before + (seq![c] + rest) =~= out@ + rest by {};
                    }
                },
                Err(e) => {
                    return Err(e);
                },
            }
        }
        Err(ParseError::at_line(line, "unterminated string literal".to_string()))
    }

    fn match_sign(&self) -> (r: Option<(TokenKind, usize)>)
        requires
            self.wf(),
            self.at_pos() < self.src().len(),
        ensures
            r is Some <==> sign(self.dialect_of(), self.src(), self.at_pos()) is Some,
            r matches Some((kind, len)) ==> sign(self.dialect_of(), self.src(), self.at_pos())
                == Some((kind, len as int)) && self.at_pos() + len <= self.src().len(),
    {
        let c = self.chars[self.pos];
        if c == '+' && self.dialect.allow_update_operators && self.peek_is(1, '+') {
            Some((TokenKind::PlusPlus, 2))
        } else if c == '+' && self.dialect.allow_update_operators && self.peek_is(1, '=') {
            Some((TokenKind::PlusEqual, 2))
        } else if c == '+' {
            Some((TokenKind::Plus, 1))
        } else if c == '!' && self.peek_is(1, '=') {
            Some((TokenKind::BangEqual, 2))
        } else if c == '!' {
            Some((TokenKind::Bang, 1))
        } else if c == '-' {
            Some((TokenKind::Minus, 1))
        } else if c == '*' {
            Some((TokenKind::Star, 1))
        } else if c == '/' {
            Some((TokenKind::Slash, 1))
        } else if c == '%' {
            Some((TokenKind::Percent, 1))
        } else if c == '&' && self.peek_is(1, '&') {
            Some((TokenKind::AmpersandAmpersand, 2))
        } else if c == '&' {
            Some((TokenKind::Ampersand, 1))
        } else if c == '|' && self.peek_is(1, '|') {
            Some((TokenKind::PipePipe, 2))
        } else if c == '|' {
            Some((TokenKind::Pipe, 1))
        } else if c == '(' {
            Some((TokenKind::LParen, 1))
        } else if c == ')' {
            Some((TokenKind::RParen, 1))
        } else if c == '[' {
            Some((TokenKind::LBracket, 1))
        } else if c == ']' {
            Some((TokenKind::RBracket, 1))
        } else if c == '{' {
            Some((TokenKind::LBrace, 1))
        } else if c == '}' {
            Some((TokenKind::RBrace, 1))
        } else if c == ',' {
            Some((TokenKind::Comma, 1))
        } else if c == ':' {
            Some((TokenKind::Colon, 1))
        } else if c == '?' {
            Some((TokenKind::Question, 1))
        } else if c == '.' && self.dialect.allow_spread && self.peek_is(1, '.') && self.peek_is(2, '.') {
            Some((TokenKind::Ellipsis, 3))
        } else if c == '.' {
            Some((TokenKind::Dot, 1))
        } else if c == ';' {
            Some((TokenKind::Semicolon, 1))
        } else if c == '<' && self.peek_is(1, '=') {
            Some((TokenKind::LessEqual, 2))
        } else if c == '<' {
            Some((TokenKind::Less, 1))
        } else if c == '>' && self.peek_is(1, '=') {
            Some((TokenKind::GreaterEqual, 2))
        } else if c == '>' {
            Some((TokenKind::Greater, 1))
        } else if c == '=' && self.peek_is(1, '=') {
            Some((TokenKind::EqualEqual, 2))
        } else if c == '=' && self.peek_is(1, '>') {
            Some((TokenKind::FatArrow, 2))
        } else if c == '=' {
            Some((TokenKind::Equal, 1))
        } else {
            None
        }
    }

    fn keyword_kind(&self, word: &str) -> (r: TokenKind)
        ensures
            r == word_kind(self.dialect_of(), word@),
    {
        if same_text(word, "pub") {
            TokenKind::Pub
        } else if same_text(word, "use") {
            TokenKind::Use
        } else if self.dialect.import_keywords.contains(word) {
            TokenKind::Import
        } else if self.dialect.from_keywords.contains(word) {
            TokenKind::From
        } else if same_text(word, "as") {
            TokenKind::As
        } else if same_text(word, "fn") {
            TokenKind::Fn
        } else if self.dialect.fn_alias_keywords.contains(word) {
            TokenKind::Fn
        } else if same_text(word, "struct") {
            TokenKind::Struct
        } else if same_text(word, "let") {
            TokenKind::Let
        } else if self.dialect.let_alias_keywords.contains(word) {
            TokenKind::Let
        } else if same_text(word, "for") {
            TokenKind::For
        } else if same_text(word, "if") {
            TokenKind::If
        } else if same_text(word, "else") {
            TokenKind::Else
        } else if same_text(word, "match") {
            TokenKind::Match
        } else if same_text(word, "while") {
            TokenKind::While
        } else if same_text(word, "break") {
            TokenKind::Break
        } else if same_text(word, "continue") {
            TokenKind::Continue
        } else if same_text(word, "true") {
            TokenKind::True
        } else if same_text(word, "false") {
            TokenKind::False
        } else if same_text(word, "null") {
            TokenKind::Null
        } else {
            TokenKind::Ident
        }
    }

    pub fn next_token(&mut self) -> (r: Result<Token, ParseError>)
        requires
            old(self).wf(),
        ensures
            final(self).wf(),
            final(self).same_text_as(old(self)),
            old(self).at_pos() <= final(self).at_pos() <= old(self).src().len(),
            match lexed(
                old(self).dialect_of(),
                old(self).src(),
                old(self).id(),
                old(self).at_pos(),
            ) {
                Ok((t, q)) => r is Ok && r->Ok_0@ == t && final(self).at_pos() == q,
                Err(e) => r is Err && r->Err_0@ == e,
            },
    {
        match self.skip_whitespace_and_comments() {
            Ok(()) => {},
            Err(e) => {
                return Err(e);
            },
        }
        let line = self.line;
        let start = self.offset;
        let source_id = self.source_id;
        let first = self.pos;
        let ghost src = self.src();
        let ghost p = self.at_pos();
        let c = match self.current() {
            Some(c) => c,
            None => {
                return Ok(
                    Token {
                        kind: TokenKind::Eof,
                        text: String::new(),
                        number: 0,
                        line,
                        span: Span::new(source_id, start, start),
                        start: self.pos,
                        end: self.pos,
                    },
                );
            },
        };
        let mut kind = TokenKind::Eof;
        let mut text = String::new();
        let mut number: i64 = 0;
        match self.match_sign() {
            Some((k, len)) => {
                kind = k;
                let mut n: usize = 0;
                while n < len
                    invariant
                        n <= len,
                        p + len <= src.len(),
                        self.wf(),
                        self.same_text_as(old(self)),
                        src == self.src(),
                        self.at_pos() == p + n,
                    decreases len - n,
                {
                    self.advance();
                    n += 1;
                }
            },
            None => {
                if c == '"' || c == '\'' {
                    self.advance();
                    match self.consume_string(c, line) {
                        Ok(t) => {
                            text = t;
                        },
                        Err(e) => {
                            return Err(e);
                        },
                    }
                    kind = TokenKind::String;
                } else if is_ascii_digit(c) {
                    match self.consume_number() {
                        Ok((k, t, v)) => {
                            kind = k;
                            text = t;
                            number = v;
                        },
                        Err(e) => {
                            return Err(e);
                        },
                    }
                } else if is_ident_start(c) {
                    let from = self.pos;
                    self.skip_run(CharClass::Ident);
                    let word = text_between(&self.chars, from, self.pos);
                    kind = self.keyword_kind(word.as_str());
                    if kind == TokenKind::Ident {
                        text = word;
                    }
                } else {
                    let mut message = "unexpected character '".to_string();
                    message.push(c);
                    message.push_str("'");
                    proof {
                        assert("unexpected character '"@.push(c) =~= "unexpected character '"@
                            + seq![c]);
                        lemma_utf8_len_push(src.take(p), c);
                        assert(src.take(p + 1) =~= src.take(p).push(c));
                        lemma_utf8_len_take(src, p + 1);
                    }
                    return Err(
                        ParseError {
                            line,
                            message,
                            span: Some(Span::new(source_id, start, start + 1)),
                            code: None,
                        },
                    );
                }
            },
        }
        Ok(
            Token {
                kind,
                text,
                number,
                line,
                span: Span::new(source_id, start, self.offset),
                start: first,
                end: self.pos,
            },
        )
    }
}

fn char_in_class(class: CharClass, c: char) -> (r: bool)
    ensures
        r == in_class(class, c),
{
    match class {
        CharClass::Digit => is_ascii_digit(c),
        CharClass::HexDigit => is_ascii_hexdigit(c),
        CharClass::Ident => is_ident_continue(c),
        CharClass::Space => is_whitespace(c),
    }
}

fn hex_nibble(ch: char) -> (r: Option<u8>)
    ensures
        r is Some <==> nibble(ch) is Some,
        r matches Some(v) ==> nibble(ch) == Some(v as nat) && v < 16 && (is_digit(ch) ==> v < 10),
{
    let n: u32 = ch as u32;
    if '0' <= ch && ch <= '9' {
        Some((n - 48) as u8)
    } else if 'a' <= ch && ch <= 'f' {
        Some((n - 97 + 10) as u8)
    } else if 'A' <= ch && ch <= 'F' {
        Some((n - 65 + 10) as u8)
    } else {
        None
    }
}

fn unescape(c: char) -> (r: Option<char>)
    ensures
        r == escaped(c),
{
    if c == 'n' {
        Some('\n')
    } else if c == 'r' {
        Some('\r')
    } else if c == 't' {
        Some('\t')
    } else if c == '\\' || c == '"' || c == '\'' {
        Some(c)
    } else if c == '0' {
        Some('\0')
    } else {
        None
    }
}

proof fn lemma_run_in_class(src: Seq<char>, p: int, class: CharClass)
    requires
        0 <= p <= src.len(),
    ensures
        forall|k: int| p <= k < run_end(src, p, class) ==> in_class(class, #[trigger] src[k]),
    decreases src.len() - p,
{
    if p < src.len() && in_class(class, src[p]) {
        lemma_run_in_class(src, p + 1, class);
    }
}

proof fn lemma_digits_grow(src: Seq<char>, lo: int, i: int, hi: int, radix: nat)
    requires
        0 <= lo <= i <= hi <= src.len(),
        radix >= 1,
    ensures
        digits_value(src.subrange(lo, i), radix) <= digits_value(src.subrange(lo, hi), radix),
    decreases hi - i,
{
    if i < hi {
        lemma_digits_grow(src, lo, i + 1, hi, radix);
        let after = src.subrange(lo, i + 1);
        assert(after.drop_last() =~= src.subrange(lo, i));
        let v = digits_value(src.subrange(lo, i), radix);
        assert(v * radix >= v) by (nonlinear_arith)
            requires
                radix >= 1,
        ;
    }
}

/// All tokens of a text.
pub fn lex_tokens(source: &str, source_id: SourceId, dialect: &Dialect) -> (r: Result<
    Vec<Token>,
    ParseError,
>)
    ensures
        match lexed_all(*dialect, source@, source_id, 0) {
            Ok(ts) => r is Ok && tokens_view(r->Ok_0@) == ts,
            Err(e) => r is Err && r->Err_0@ == e,
        },
{
    let mut lexer = Lexer::new(source, source_id, dialect);
    let mut tokens: Vec<Token> = Vec::new();
    let ghost total = lexed_all(*dialect, source@, source_id, 0);
    assert(tokens_view(tokens@) =~= Seq::<TokenV>::empty());
    let mut done = false;
    while !done
        invariant
            lexer.src() == source@,
            lexer.id() == source_id,
            lexer.dialect_of() == *dialect,
            0 <= lexer.at_pos() <= source@.len(),
            !done ==> lexer.wf(),
            total == lexed_all(*dialect, source@, source_id, 0),
            done ==> total is Ok && total->Ok_0 =~= tokens_view(tokens@),
            !done ==> match lexed_all(*dialect, source@, source_id, lexer.at_pos()) {
                Ok(rest) => total is Ok && total->Ok_0 =~= tokens_view(tokens@) + rest,
                Err(e) => total == Err::<Seq<TokenV>, ParseErrorV>(e),
            },
        decreases source@.len() - lexer.at_pos(), (if done {
            0int
        } else {
            1int
        }),
    {
        proof {
            law_lexing_makes_progress(*dialect, source@, source_id, lexer.at_pos());
        }
        let ghost before = tokens@;
        match lexer.next_token() {
            Ok(token) => {
                done = token.kind == TokenKind::Eof;
                let ghost model = token@;
                tokens.push(token);
                proof {
                    assert(tokens_view(tokens@) =~= tokens_view(before).push(model));
                    assert forall|rest: Seq<TokenV>|
                        tokens_view(before) + (seq![model] + rest) =~= tokens_view(tokens@)
                            + rest by {};
                }
            },
            Err(e) => {
                return Err(e);
            },
        }
    }
    Ok(tokens)
}

} // verus!
