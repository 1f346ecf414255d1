//! What splitting a text into tokens is for: what was written as a token reads as that token.

use vstd::prelude::*;
use vstd::utf8::encode_scalar;
use crate::lexer::{
    at, block_comment_end, digit_value, digits_value, in_class, integer_lexeme, lemma_run_end,
    lemma_skipped, lexed, lexed_all, lexeme, line_comment_end, line_no, run_end, sign, skipped,
    string_char, string_rest, word_kind, CharClass, Dialect, TokenKind,
};
use crate::source_map::{byte_offset, newlines_before, SourceId};
use crate::text::{
    decimal, ident_continue, ident_start, is_digit, is_hex_digit, utf8_len, white_space,
};

verus! {

// ---------------------------------------------------------------------------
// Signs and keywords.

/// How a sign is written.
pub open spec fn sign_text(kind: TokenKind) -> Option<Seq<char>> {
    match kind {
        TokenKind::Bang => Some(seq!['!']),
        TokenKind::BangEqual => Some(seq!['!', '=']),
        TokenKind::Plus => Some(seq!['+']),
        TokenKind::PlusPlus => Some(seq!['+', '+']),
        TokenKind::PlusEqual => Some(seq!['+', '=']),
        TokenKind::Minus => Some(seq!['-']),
        TokenKind::Star => Some(seq!['*']),
        TokenKind::Slash => Some(seq!['/']),
        TokenKind::Percent => Some(seq!['%']),
        TokenKind::Ampersand => Some(seq!['&']),
        TokenKind::AmpersandAmpersand => Some(seq!['&', '&']),
        TokenKind::PipePipe => Some(seq!['|', '|']),
        TokenKind::Pipe => Some(seq!['|']),
        TokenKind::LParen => Some(seq!['(']),
        TokenKind::RParen => Some(seq![')']),
        TokenKind::LBracket => Some(seq!['[']),
        TokenKind::RBracket => Some(seq![']']),
        TokenKind::LBrace => Some(seq!['{']),
        TokenKind::RBrace => Some(seq!['}']),
        TokenKind::Comma => Some(seq![',']),
        TokenKind::Colon => Some(seq![':']),
        TokenKind::Question => Some(seq!['?']),
        TokenKind::Dot => Some(seq!['.']),
        TokenKind::Ellipsis => Some(seq!['.', '.', '.']),
        TokenKind::Semicolon => Some(seq![';']),
        TokenKind::Equal => Some(seq!['=']),
        TokenKind::EqualEqual => Some(seq!['=', '=']),
        TokenKind::FatArrow => Some(seq!['=', '>']),
        TokenKind::Less => Some(seq!['<']),
        TokenKind::LessEqual => Some(seq!['<', '=']),
        TokenKind::Greater => Some(seq!['>']),
        TokenKind::GreaterEqual => Some(seq!['>', '=']),
        _ => None,
    }
}

/// Whether a dialect has a sign.
pub open spec fn has_sign(d: Dialect, kind: TokenKind) -> bool {
    match kind {
        TokenKind::PlusPlus | TokenKind::PlusEqual => d.allow_update_operators,
        TokenKind::Ellipsis => d.allow_spread,
        _ => true,
    }
}

/// Whether a text stands at a position.
pub open spec fn stands(src: Seq<char>, p: int, text: Seq<char>) -> bool {
    0 <= p && p + text.len() <= src.len() && forall|i: int|
        0 <= i < text.len() ==> src[p + i] == #[trigger] text[i]
}

/// A sign is read where its text stands, unless a longer one stands there; and no sign is read
/// that does not stand there.
pub proof fn law_signs_are_read_as_written(d: Dialect, src: Seq<char>, p: int, kind: TokenKind)
    requires
        0 <= p < src.len(),
        sign_text(kind) is Some,
    ensures
        sign(d, src, p) matches Some((k, n)) ==> has_sign(d, k) && (sign_text(k) matches Some(t)
            ==> n == t.len() && stands(src, p, t)) && sign_text(k) is Some,
        has_sign(d, kind) && stands(src, p, sign_text(kind)->0) ==> (sign(d, src, p) matches Some(
            (k, n),
        ) && n >= sign_text(kind)->0.len() && (n == sign_text(kind)->0.len() ==> k == kind)),
{
    let t = sign_text(kind)->0;
    if stands(src, p, t) {
        assert(src[p + 0] == t[0]);
        if t.len() > 1 {
            assert(src[p + 1] == t[1]);
        }
        if t.len() > 2 {
            assert(src[p + 2] == t[2]);
        }
    }
}

/// How a keyword is written in every dialect.
pub open spec fn keyword_text(kind: TokenKind) -> Option<Seq<char>> {
    match kind {
        TokenKind::Pub => Some("pub"@),
        TokenKind::Use => Some("use"@),
        TokenKind::As => Some("as"@),
        TokenKind::Fn => Some("fn"@),
        TokenKind::Struct => Some("struct"@),
        TokenKind::Let => Some("let"@),
        TokenKind::For => Some("for"@),
        TokenKind::If => Some("if"@),
        TokenKind::Else => Some("else"@),
        TokenKind::Match => Some("match"@),
        TokenKind::While => Some("while"@),
        TokenKind::Break => Some("break"@),
        TokenKind::Continue => Some("continue"@),
        TokenKind::True => Some("true"@),
        TokenKind::False => Some("false"@),
        TokenKind::Null => Some("null"@),
        _ => None,
    }
}

/// Whether a word is a keyword of a dialect alone.
pub open spec fn is_dialect_word(d: Dialect, word: Seq<char>) -> bool {
    d.import_keywords@.contains(word) || d.from_keywords@.contains(word)
        || d.fn_alias_keywords@.contains(word) || d.let_alias_keywords@.contains(word)
}

proof fn lemma_keywords_differ()
    ensures
        forall|a: TokenKind, b: TokenKind|
            #![trigger keyword_text(a), keyword_text(b)]
            keyword_text(a) is Some && keyword_text(a) == keyword_text(b) ==> a == b,
{
    reveal_strlit("pub");
    reveal_strlit("use");
    reveal_strlit("as");
    reveal_strlit("fn");
    reveal_strlit("struct");
    reveal_strlit("let");
    reveal_strlit("for");
    reveal_strlit("if");
    reveal_strlit("else");
    reveal_strlit("match");
    reveal_strlit("while");
    reveal_strlit("break");
    reveal_strlit("continue");
    reveal_strlit("true");
    reveal_strlit("false");
    reveal_strlit("null");
    assert forall|a: TokenKind, b: TokenKind|
        #![trigger keyword_text(a), keyword_text(b)]
        keyword_text(a) is Some && keyword_text(a) == keyword_text(b) implies a == b by {
        let x = keyword_text(a)->0;
        let y = keyword_text(b)->0;
        assert(x.len() == y.len());
        assert(x[0] == y[0]);
        assert(x[1] == y[1]);
    }
}

/// A keyword reads as its kind, the words of a dialect as what they stand for, and every other
/// word as an identifier.
pub proof fn law_words_are_read_as_written(d: Dialect, word: Seq<char>, kind: TokenKind)
    ensures
        !is_dialect_word(d, word) && keyword_text(kind) == Some(word) ==> word_kind(d, word)
            == kind,
        !is_dialect_word(d, word) && word_kind(d, word) != TokenKind::Ident ==> keyword_text(
            word_kind(d, word),
        ) == Some(word),
        word != "pub"@ && word != "use"@ && d.import_keywords@.contains(word) ==> word_kind(d, word)
            == TokenKind::Import,
        word_kind(d, word) == TokenKind::Import ==> d.import_keywords@.contains(word),
        word_kind(d, word) == TokenKind::From ==> d.from_keywords@.contains(word),
        word_kind(d, word) == TokenKind::Fn ==> word == "fn"@ || d.fn_alias_keywords@.contains(
            word,
        ),
        word_kind(d, word) == TokenKind::Let ==> word == "let"@ || d.let_alias_keywords@.contains(
            word,
        ),
        keyword_text(TokenKind::Pub) == Some(word) ==> word_kind(d, word) == TokenKind::Pub,
        d.import_keywords@.contains(word) || d.from_keywords@.contains(word)
            || d.fn_alias_keywords@.contains(word) || d.let_alias_keywords@.contains(word)
            ==> word_kind(d, word) != TokenKind::Ident,
{
    lemma_keywords_differ();
    assert(keyword_text(TokenKind::Pub) == Some("pub"@));
    assert(keyword_text(TokenKind::Use) == Some("use"@));
    assert(keyword_text(TokenKind::As) == Some("as"@));
    assert(keyword_text(TokenKind::Fn) == Some("fn"@));
    assert(keyword_text(TokenKind::Struct) == Some("struct"@));
    assert(keyword_text(TokenKind::Let) == Some("let"@));
    assert(keyword_text(TokenKind::For) == Some("for"@));
    assert(keyword_text(TokenKind::If) == Some("if"@));
    assert(keyword_text(TokenKind::Else) == Some("else"@));
    assert(keyword_text(TokenKind::Match) == Some("match"@));
    assert(keyword_text(TokenKind::While) == Some("while"@));
    assert(keyword_text(TokenKind::Break) == Some("break"@));
    assert(keyword_text(TokenKind::Continue) == Some("continue"@));
    assert(keyword_text(TokenKind::True) == Some("true"@));
    assert(keyword_text(TokenKind::False) == Some("false"@));
    assert(keyword_text(TokenKind::Null) == Some("null"@));
}

// ---------------------------------------------------------------------------
// Runs of characters.

/// Whether all characters of a text are of a class.
pub open spec fn all_of(class: CharClass, text: Seq<char>) -> bool {
    forall|i: int| 0 <= i < text.len() ==> in_class(class, #[trigger] text[i])
}

/// A run takes the characters of its class, all of them and no others.
pub proof fn law_runs_take_their_class(src: Seq<char>, p: int, n: int, class: CharClass)
    requires
        0 <= p,
        0 <= n,
        p + n <= src.len(),
        all_of(class, src.subrange(p, p + n)),
        p + n < src.len() ==> !in_class(class, src[p + n]),
    ensures
        run_end(src, p, class) == p + n,
    decreases n,
{
    if n > 0 {
        assert(src.subrange(p, p + n)[0] == src[p]);
        assert(all_of(class, src.subrange(p + 1, p + n))) by {
            assert forall|i: int| 0 <= i < n - 1 implies in_class(
                class,
                #[trigger] src.subrange(p + 1, p + n)[i],
            ) by {
                assert(src.subrange(p, p + n)[i + 1] == src[p + 1 + i]);
            }
        }
        law_runs_take_their_class(src, p + 1, n - 1, class);
    }
}

/// An identifier reads as its word, a keyword as its kind: as long as the word goes on.
pub proof fn law_identifiers_read_back(
    d: Dialect,
    src: Seq<char>,
    id: SourceId,
    p: int,
    word: Seq<char>,
)
    requires
        stands(src, p, word),
        word.len() > 0,
        ident_start(word[0]),
        all_of(CharClass::Ident, word),
        p + word.len() < src.len() ==> !ident_continue(src[p + word.len() as int]),
    ensures
        lexeme(d, src, id, p) matches Ok(l) && l.end == p + word.len() && l.kind == word_kind(
            d,
            word,
        ) && (l.kind == TokenKind::Ident ==> l.text == word),
{
    assert(src[p + 0] == word[0]);
    assert(src.subrange(p, p + word.len()) =~= word);
    law_runs_take_their_class(src, p, word.len() as int, CharClass::Ident);
}

// ---------------------------------------------------------------------------
// Numbers.

/// A number raised to a power.
pub open spec fn power(base: nat, n: nat) -> nat
    decreases n,
{
    if n == 0 {
        1
    } else {
        base * power(base, (n - 1) as nat)
    }
}

/// The value of digits is their place value: digits in front of others count the radix to the
/// power of their number.
pub proof fn law_digits_have_place_value(a: Seq<char>, b: Seq<char>, radix: nat)
    ensures
        digits_value(a + b, radix) == digits_value(a, radix) * power(radix, b.len())
            + digits_value(b, radix),
    decreases b.len(),
{
    if b.len() == 0 {
        assert(a + b =~= a);
        assert(digits_value(a, radix) * 1 == digits_value(a, radix)) by (nonlinear_arith);
    } else {
        let c = b.drop_last();
        assert((a + b).drop_last() =~= a + c);
        assert((a + b).last() == b.last());
        law_digits_have_place_value(a, c, radix);
        let x = digits_value(a, radix);
        let y = power(radix, c.len());
        let z = digits_value(c, radix);
        assert(power(radix, b.len()) == radix * y);
        assert((x * y + z) * radix == x * (radix * y) + z * radix) by (nonlinear_arith);
    }
}

/// The digits of numbers up to fifteen.
pub open spec fn lower_digits() -> Seq<char> {
    seq!['0', '1', '2', '3', '4', '5', '6', '7', '8', '9', 'a', 'b', 'c', 'd', 'e', 'f']
}

/// The same in capitals.
pub open spec fn upper_digits() -> Seq<char> {
    seq!['0', '1', '2', '3', '4', '5', '6', '7', '8', '9', 'A', 'B', 'C', 'D', 'E', 'F']
}

/// A digit has the value that is its place among the digits, in either case; and nothing else
/// is a digit.
pub proof fn law_digits_in_turn(k: nat, c: char)
    ensures
        k < 16 ==> is_hex_digit(lower_digits()[k as int]) && digit_value(lower_digits()[k as int])
            == k,
        k < 16 ==> is_hex_digit(upper_digits()[k as int]) && digit_value(upper_digits()[k as int])
            == k,
        k < 16 ==> (is_digit(lower_digits()[k as int]) <==> k < 10),
        is_hex_digit(c) ==> digit_value(c) < 16 && (c == lower_digits()[digit_value(c) as int] || c
            == upper_digits()[digit_value(c) as int]),
        is_digit(c) ==> digit_value(c) < 10,
{
}

proof fn lemma_decimal_digits(n: nat)
    ensures
        decimal(n).len() > 0,
        all_of(CharClass::Digit, decimal(n)),
        digits_value(decimal(n), 10) == n,
        n < 10 ==> decimal(n).len() == 1,
        n > 0 ==> decimal(n)[0] != '0',
    decreases n,
{
    let last = ('0' as u32 + (n % 10) as u32) as char;
    assert(digit_value(last) == n % 10);
    if n >= 10 {
        let rest = decimal(n / 10);
        lemma_decimal_digits(n / 10);
        assert(decimal(n) == rest.push(last));
        assert(rest.push(last).drop_last() =~= rest);
        assert(rest.push(last).last() == last);
        assert(all_of(CharClass::Digit, decimal(n))) by {
            assert forall|i: int| 0 <= i < decimal(n).len() implies in_class(
                CharClass::Digit,
                #[trigger] decimal(n)[i],
            ) by {
                if i < rest.len() {
                    assert(in_class(CharClass::Digit, rest[i]));
                }
            }
        }
    } else {
        assert(decimal(n) == seq![last]);
        assert(seq![last].drop_last() =~= Seq::empty());
        assert(digits_value(Seq::empty(), 10) == 0);
    }
}

/// An integer that is written out in decimal reads as that integer.
pub proof fn law_integers_read_back(d: Dialect, src: Seq<char>, id: SourceId, p: int, n: nat)
    requires
        n <= i64::MAX,
        stands(src, p, decimal(n)),
        ({
            let q = p + decimal(n).len();
            q < src.len() ==> !is_digit(src[q]) && src[q] != '.' && src[q] != 'x' && src[q] != 'X'
        }),
    ensures
        lexeme(d, src, id, p) matches Ok(l) && l.kind == TokenKind::Int && l.number == n && l.end
            == p + decimal(n).len(),
{
    lemma_decimal_digits(n);
    let t = decimal(n);
    assert(src[p + 0] == t[0]);
    assert(in_class(CharClass::Digit, t[0]));
    if t.len() > 1 {
        assert(src[p + 1] == t[1]);
        assert(in_class(CharClass::Digit, t[1]));
    }
    assert(src.subrange(p, p + t.len()) =~= t);
    law_runs_take_their_class(src, p, t.len() as int, CharClass::Digit);
}

/// A number with a fraction reads as a number with just its text.
pub proof fn law_fractions_read_back(
    d: Dialect,
    src: Seq<char>,
    id: SourceId,
    p: int,
    whole: Seq<char>,
    part: Seq<char>,
)
    requires
        whole.len() > 0,
        part.len() > 0,
        all_of(CharClass::Digit, whole),
        all_of(CharClass::Digit, part),
        stands(src, p, whole + seq!['.'] + part),
        ({
            let q = p + whole.len() + 1 + part.len();
            q < src.len() ==> !is_digit(src[q])
        }),
    ensures
        lexeme(d, src, id, p) matches Ok(l) && l.kind == TokenKind::Float && l.text == whole
            + seq!['.'] + part && l.end == p + whole.len() + 1 + part.len(),
{
    let t = whole + seq!['.'] + part;
    let w = whole.len() as int;
    assert(in_class(CharClass::Digit, whole[0]));
    assert(in_class(CharClass::Digit, part[0]));
    assert(t[0] == whole[0]);
    assert(t[w] == '.');
    assert(t[w + 1] == part[0]);
    assert(src[p + 0] == t[0]);
    assert(src[p + w] == t[w]);
    assert(src[p + (w + 1)] == t[w + 1]);
    if w > 1 {
        assert(in_class(CharClass::Digit, whole[1]));
        assert(t[1] == whole[1]);
        assert(src[p + 1] == t[1]);
    }
    assert(src.subrange(p, p + t.len()) =~= t);
    assert(src.subrange(p, p + w) =~= whole) by {
        assert forall|i: int| 0 <= i < w implies src[p + i] == whole[i] by {
            assert(t[i] == whole[i]);
            assert(src[p + i] == t[i]);
        }
    }
    assert(src.subrange(p + w + 1, p + w + 1 + part.len()) =~= part) by {
        assert forall|i: int| 0 <= i < part.len() implies src[p + w + 1 + i] == part[i] by {
            assert(t[w + 1 + i] == part[i]);
            assert(src[p + (w + 1 + i)] == t[w + 1 + i]);
        }
    }
    law_runs_take_their_class(src, p, w, CharClass::Digit);
    law_runs_take_their_class(src, p + w + 1, part.len() as int, CharClass::Digit);
}

/// Hexadecimal digits read as the integer that they are the digits of.
pub proof fn law_hexadecimal_integers_are_read(
    d: Dialect,
    src: Seq<char>,
    id: SourceId,
    p: int,
    x: char,
    digits: Seq<char>,
)
    requires
        x == 'x' || x == 'X',
        digits.len() > 0,
        all_of(CharClass::HexDigit, digits),
        digits_value(digits, 16) <= i64::MAX,
        stands(src, p, seq!['0', x] + digits),
        ({
            let q = p + 2 + digits.len();
            q < src.len() ==> !is_hex_digit(src[q])
        }),
    ensures
        lexeme(d, src, id, p) matches Ok(l) && l.kind == TokenKind::Int && l.number == digits_value(
            digits,
            16,
        ) && l.end == p + 2 + digits.len(),
{
    let t = seq!['0', x] + digits;
    assert(src[p + 0] == t[0]);
    assert(src[p + 1] == t[1]);
    assert(src.subrange(p + 2, p + 2 + digits.len()) =~= digits) by {
        assert forall|i: int| 0 <= i < digits.len() implies src[p + 2 + i] == digits[i] by {
            assert(t[2 + i] == digits[i]);
            assert(src[p + (2 + i)] == t[2 + i]);
        }
    }
    law_runs_take_their_class(src, p + 2, digits.len() as int, CharClass::HexDigit);
}

/// An integer of more than sixty-three bits is refused, but for the least one's magnitude.
pub proof fn law_integers_that_do_not_fit(
    text: Seq<char>,
    digits: Seq<char>,
    radix: nat,
    line: usize,
    end: int,
)
    ensures
        integer_lexeme(text, digits, radix, line, end) is Ok <==> digits_value(digits, radix)
            <= -(i64::MIN as int),
        integer_lexeme(text, digits, radix, line, end) matches Ok(l) ==> (l.kind == TokenKind::Int
            <==> digits_value(digits, radix) <= i64::MAX),
{
}

// ---------------------------------------------------------------------------
// Strings.

/// How a character is written inside a string literal.
pub open spec fn quoted_char(c: char) -> Seq<char> {
    if c == '\n' {
        seq!['\\', 'n']
    } else if c == '\r' {
        seq!['\\', 'r']
    } else if c == '\t' {
        seq!['\\', 't']
    } else if c == '\0' {
        seq!['\\', '0']
    } else if c == '\\' || c == '"' || c == '\'' {
        seq!['\\', c]
    } else {
        seq![c]
    }
}

/// How a text is written inside a string literal.
pub open spec fn quoted(text: Seq<char>) -> Seq<char>
    decreases text.len(),
{
    if text.len() == 0 {
        Seq::empty()
    } else {
        quoted_char(text[0]) + quoted(text.skip(1))
    }
}

proof fn lemma_quoted_rest(
    src: Seq<char>,
    p: int,
    delimiter: char,
    line: usize,
    text: Seq<char>,
)
    requires
        delimiter == '"' || delimiter == '\'',
        stands(src, p, quoted(text)),
        at(src, p + quoted(text).len(), delimiter),
    ensures
        string_rest(src, p, delimiter, line) == Ok::<_, crate::errors::ParseErrorV>(
            (text, p + quoted(text).len() + 1),
        ),
    decreases text.len(),
{
    if text.len() == 0 {
        assert(text =~= Seq::empty());
    } else {
        let c = text[0];
        let w = quoted_char(c);
        let rest = quoted(text.skip(1));
        let t = quoted(text);
        assert(t == w + rest);
        assert(src[p + 0] == t[0]);
        if w.len() == 2 {
            assert(src[p + 1] == t[1]);
        }
        assert(stands(src, p + w.len(), rest)) by {
            assert forall|i: int| 0 <= i < rest.len() implies src[p + w.len() + i]
                == #[trigger] rest[i] by {
                assert(t[w.len() + i] == rest[i]);
                assert(src[p + (w.len() + i)] == t[w.len() + i]);
            }
        }
        assert(string_char(src, p, line) == Ok::<_, crate::errors::ParseErrorV>(
            (c, p + w.len()),
        ));
        lemma_quoted_rest(src, p + w.len(), delimiter, line, text.skip(1));
        assert(seq![c] + text.skip(1) =~= text);
    }
}

/// A text that is written out as a string literal, in either quotes, reads as that text.
pub proof fn law_strings_read_back(
    d: Dialect,
    src: Seq<char>,
    id: SourceId,
    p: int,
    delimiter: char,
    text: Seq<char>,
)
    requires
        delimiter == '"' || delimiter == '\'',
        stands(src, p, seq![delimiter] + quoted(text) + seq![delimiter]),
    ensures
        lexeme(d, src, id, p) matches Ok(l) && l.kind == TokenKind::String && l.text == text
            && l.end == p + quoted(text).len() + 2,
{
    let q = quoted(text);
    let t = seq![delimiter] + q + seq![delimiter];
    assert(src[p + 0] == t[0]);
    assert(stands(src, p + 1, q)) by {
        assert forall|i: int| 0 <= i < q.len() implies src[p + 1 + i] == #[trigger] q[i] by {
            assert(t[1 + i] == q[i]);
            assert(src[p + (1 + i)] == t[1 + i]);
        }
    }
    assert(t[1 + q.len() as int] == delimiter);
    assert(src[p + (1 + q.len())] == t[1 + q.len() as int]);
    lemma_quoted_rest(src, p + 1, delimiter, line_no(src, p), text);
}

/// A character by its number in two hexadecimal digits is the character of that number.
pub proof fn law_characters_by_number(src: Seq<char>, p: int, line: usize)
    requires
        0 <= p,
        p + 4 <= src.len(),
        src[p] == '\\',
        src[p + 1] == 'x',
        is_hex_digit(src[p + 2]),
        is_hex_digit(src[p + 3]),
    ensures
        string_char(src, p, line) matches Ok((c, q)) && q == p + 4 && c as u32 == digits_value(
            seq![src[p + 2], src[p + 3]],
            16,
        ),
{
    let s = seq![src[p + 2], src[p + 3]];
    let t = s.drop_last();
    assert(t =~= seq![src[p + 2]]);
    assert(t.drop_last() =~= Seq::empty());
    assert(digits_value(Seq::empty(), 16) == 0);
    assert(digits_value(t, 16) == digit_value(src[p + 2]));
    law_digits_in_turn(0, src[p + 2]);
    law_digits_in_turn(0, src[p + 3]);
}

// ---------------------------------------------------------------------------
// White space and comments.

/// White space in front of a token is passed over.
pub proof fn law_white_space_is_passed_over(src: Seq<char>, p: int, n: int)
    requires
        0 <= p,
        0 <= n,
        p + n <= src.len(),
        all_of(CharClass::Space, src.subrange(p, p + n)),
        p + n < src.len() ==> !white_space(src[p + n]) && src[p + n] != '/',
    ensures
        skipped(src, p) == Ok::<int, crate::errors::ParseErrorV>(p + n),
{
    law_runs_take_their_class(src, p, n, CharClass::Space);
}

/// A token starts neither with white space nor with a comment.
pub proof fn law_tokens_start_behind_white_space(src: Seq<char>, p: int)
    requires
        0 <= p <= src.len(),
    ensures
        skipped(src, p) matches Ok(q) ==> p <= q <= src.len() && (q < src.len() ==> !white_space(
            src[q],
        ) && !(src[q] == '/' && (at(src, q + 1, '/') || at(src, q + 1, '*')))),
    decreases src.len() - p,
{
    lemma_skipped(src, p);
    lemma_run_end(src, p, CharClass::Space);
    lemma_run_stops(src, p, CharClass::Space);
    let q = run_end(src, p, CharClass::Space);
    if at(src, q, '/') && at(src, q + 1, '/') {
        crate::lexer::lemma_line_comment_end(src, q);
        law_tokens_start_behind_white_space(src, line_comment_end(src, q));
    } else if at(src, q, '/') && at(src, q + 1, '*') {
        crate::lexer::lemma_block_comment_end(src, q + 2);
        match block_comment_end(src, q + 2) {
            Some(e) => law_tokens_start_behind_white_space(src, e),
            None => {},
        }
    }
}

proof fn lemma_run_stops(src: Seq<char>, p: int, class: CharClass)
    requires
        0 <= p <= src.len(),
    ensures
        run_end(src, p, class) < src.len() ==> !in_class(class, src[run_end(src, p, class)]),
    decreases src.len() - p,
{
    if p < src.len() && in_class(class, src[p]) {
        lemma_run_stops(src, p + 1, class);
    }
}

/// A comment up to the end of its line is passed over with the line.
pub proof fn law_line_comments_are_passed_over(src: Seq<char>, p: int, n: int)
    requires
        0 <= p,
        2 <= n,
        p + n < src.len(),
        src[p] == '/',
        src[p + 1] == '/',
        forall|i: int| p <= i < p + n ==> src[i] != '\n',
        src[p + n] == '\n',
    ensures
        skipped(src, p) == skipped(src, p + n + 1),
{
    lemma_line_ends(src, p, n);
    assert(run_end(src, p, CharClass::Space) == p);
}

proof fn lemma_line_ends(src: Seq<char>, p: int, n: int)
    requires
        0 <= p,
        0 <= n,
        p + n < src.len(),
        forall|i: int| p <= i < p + n ==> src[i] != '\n',
        src[p + n] == '\n',
    ensures
        line_comment_end(src, p) == p + n + 1,
    decreases n,
{
    if n > 0 {
        lemma_line_ends(src, p + 1, n - 1);
    }
}

/// A comment between its marks is passed over.
pub proof fn law_block_comments_are_passed_over(src: Seq<char>, p: int, n: int)
    requires
        0 <= p,
        0 <= n,
        p + n + 4 <= src.len(),
        src[p] == '/',
        src[p + 1] == '*',
        forall|i: int|
            p + 2 <= i < p + 2 + n ==> !(#[trigger] src[i] == '*' && at(src, i + 1, '/')),
        src[p + 2 + n] == '*',
        src[p + 3 + n] == '/',
    ensures
        skipped(src, p) == skipped(src, p + n + 4),
{
    lemma_block_ends(src, p + 2, n);
    assert(run_end(src, p, CharClass::Space) == p);
}

proof fn lemma_block_ends(src: Seq<char>, p: int, n: int)
    requires
        0 <= p,
        0 <= n,
        p + n + 2 <= src.len(),
        forall|i: int| p <= i < p + n ==> !(#[trigger] src[i] == '*' && at(src, i + 1, '/')),
        src[p + n] == '*',
        src[p + n + 1] == '/',
    ensures
        block_comment_end(src, p) == Some(p + n + 2),
    decreases n,
{
    if n > 0 {
        assert(src[p] == src[p + 0]);
        lemma_block_ends(src, p + 1, n - 1);
    }
}

// ---------------------------------------------------------------------------
// Places.

/// The line of a token is one more than the line feeds before it, and a position lies one line
/// further just behind each of them.
pub proof fn law_lines_are_counted(src: Seq<char>, p: int)
    requires
        0 <= p < src.len(),
        src.len() < usize::MAX,
    ensures
        line_no(src, 0) == 1,
        line_no(src, p + 1) == line_no(src, p) + (if src[p] == '\n' {
            1int
        } else {
            0int
        }),
{
    lemma_few_lines(src, p + 1);
    lemma_few_lines(src, p);
}

proof fn lemma_few_lines(src: Seq<char>, p: int)
    requires
        0 <= p,
    ensures
        0 <= newlines_before(src, p) <= p,
    decreases p,
{
    if p > 0 {
        lemma_few_lines(src, p - 1);
    }
}

proof fn lemma_encoded_len(c: char)
    ensures
        utf8_len(c) == encode_scalar(c as u32).len(),
{
}

/// The span of a token holds its bytes: a character takes as many as its encoding has.
pub proof fn law_spans_count_bytes(src: Seq<char>, p: int)
    requires
        0 <= p < src.len(),
    ensures
        byte_offset(src, 0) == 0,
        byte_offset(src, p + 1) == byte_offset(src, p) + encode_scalar(src[p] as u32).len(),
{
    assert(src.take(p + 1).drop_last() =~= src.take(p));
    assert(src.take(p + 1).last() == src[p]);
    assert(src.take(0) =~= Seq::empty());
    lemma_encoded_len(src[p]);
}

/// Tokens are read in turn: the next one starts where the one before it ended, and the end of
/// the text is the last.
pub proof fn law_tokens_are_read_in_turn(d: Dialect, src: Seq<char>, id: SourceId, p: int)
    requires
        0 <= p <= src.len(),
    ensures
        lexed_all(d, src, id, p) matches Ok(ts) ==> ts.len() > 0 && (lexed(d, src, id, p) matches Ok(
            (t, q),
        ) && t == ts[0] && (t.kind != TokenKind::Eof ==> lexed_all(d, src, id, q) == Ok::<
            _,
            crate::errors::ParseErrorV,
        >(ts.skip(1)))) && ts.last().kind == TokenKind::Eof,
        lexed_all(d, src, id, p) is Err <==> (lexed(d, src, id, p) matches Err(_)) || (lexed(
            d,
            src,
            id,
            p,
        ) matches Ok((t, q)) && t.kind != TokenKind::Eof && lexed_all(d, src, id, q) is Err),
    decreases src.len() - p,
{
    crate::lexer::law_lexing_makes_progress(d, src, id, p);
    match lexed(d, src, id, p) {
        Ok((t, q)) => {
            if t.kind != TokenKind::Eof {
                law_tokens_are_read_in_turn(d, src, id, q);
                match lexed_all(d, src, id, q) {
                    Ok(rest) => {
                        assert((seq![t] + rest).skip(1) =~= rest);
                    },
                    Err(_) => {},
                }
            }
        },
        Err(_) => {},
    }
}

} // verus!
