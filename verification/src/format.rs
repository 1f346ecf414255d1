//! Formatting of source texts.

use vstd::prelude::*;
use crate::errors::ParseError;
use crate::lexer::{
    law_tokens_are_ordered, lex_tokens, lexed_all, tokens_view, Dialect, Token, TokenKind, TokenV,
};
use crate::lint::less_one;
use crate::scan::{
    check_if_expression_start, check_kind_at, if_is_expression, is_kind, kind_at, peek_kind_at,
};
use crate::text::{byte_len, chars_of, is_whitespace, same_text, text_between, white_space};

verus! {

/// The width from which on groups are spread over lines.
pub const SOFT_MAX_LINE_WIDTH: usize = 100;

/// What a pair of braces holds.
#[derive(Clone, Copy, Debug, PartialEq, Eq, Structural)]
pub enum BraceKind {
    Block,
    MatchBody,
    StructBody,
    Collection,
}

/// What is open around a position.
#[derive(Clone, Copy, Debug, PartialEq, Eq, Structural)]
pub enum ContextKind {
    Brace(BraceKind),
    Paren { for_head: bool },
    Bracket,
}

/// A group that is open, and whether its lines are indented.
#[derive(Clone, Copy, Debug, PartialEq, Eq, Structural)]
pub struct Context {
    pub kind: ContextKind,
    pub indented: bool,
}

/// How many groups of each sort are open.
#[derive(Clone, Copy, Debug, PartialEq, Eq, Structural)]
pub struct DelimiterDepths {
    pub paren: usize,
    pub bracket: usize,
    pub brace: usize,
}

/// A pair of braces that is to come at a depth.
#[derive(Clone, Copy, Debug, PartialEq, Eq, Structural)]
pub struct BraceExpectation {
    pub kind: BraceKind,
    pub depths: DelimiterDepths,
}

/// What was written last.
#[derive(Clone, Copy, Debug, PartialEq, Eq, Structural)]
pub enum PrevKind {
    Word,
    Pub,
    Use,
    Import,
    From,
    As,
    Fn,
    Struct,
    Let,
    For,
    If,
    Else,
    Match,
    While,
    Break,
    Continue,
    LParen,
    RParen,
    LBracket,
    RBracket,
    LBrace,
    RBrace,
    Comma,
    Colon,
    Dot,
    PathSeparator,
    OptionalAccess,
    Semicolon,
    Equal,
    FatArrow,
    ReturnArrow,
    Plus,
    PlusPlus,
    PlusEqual,
    Minus,
    Star,
    Slash,
    Percent,
    Bang,
    Ampersand,
    Pipe,
    PipePipe,
    AndAnd,
    OrOr,
    EqEq,
    BangEq,
    Less,
    LessEq,
    Greater,
    GreaterEq,
    Ellipsis,
}

// ---------------------------------------------------------------------------
// The model of the formatter.

/// The sum of two numbers, but not beyond the largest.
pub open spec fn sat_sum(a: usize, b: nat) -> usize {
    if a + b <= usize::MAX {
        (a + b) as usize
    } else {
        usize::MAX
    }
}

/// The width of an indent.
pub open spec fn indent_width(indent: usize) -> usize {
    if indent * 4 <= usize::MAX {
        (indent * 4) as usize
    } else {
        usize::MAX
    }
}

/// The smaller of two numbers.
pub open spec fn smaller(a: nat, b: nat) -> nat {
    if a <= b {
        a
    } else {
        b
    }
}

/// A position in a text: one of its tokens.
pub struct PlaceV {
    pub src: Seq<char>,
    pub ts: Seq<TokenV>,
    pub index: int,
}

impl PlaceV {
    pub open spec fn peek(self, ahead: int) -> Option<TokenKind> {
        kind_at(self.ts, self.index + ahead)
    }

    pub open spec fn next_is_closer(self) -> bool {
        self.peek(1) == Some(TokenKind::RParen) || self.peek(1) == Some(TokenKind::RBracket)
            || self.peek(1) == Some(TokenKind::RBrace)
    }

    /// The text of the token.
    pub open spec fn text(self) -> Seq<char> {
        self.src.subrange(self.ts[self.index].start, self.ts[self.index].end)
    }

    /// Where the token before this one ends.
    pub open spec fn gap_start(self) -> int {
        if self.index <= 0 {
            0
        } else {
            self.ts[self.index - 1].end
        }
    }

    /// The position some tokens on.
    pub open spec fn on(self, count: int) -> PlaceV {
        PlaceV { index: self.index + count, ..self }
    }
}

/// The state of the formatter.
pub struct FmtV {
    pub out: Seq<char>,
    pub indent: usize,
    pub line_len: usize,
    pub line_start: bool,
    pub pending_space: bool,
    pub pending_newlines: usize,
    pub pending_code_break: bool,
    pub prev: Option<PrevKind>,
    pub contexts: Seq<Context>,
    pub expectations: Seq<BraceExpectation>,
    pub generic_depth: usize,
    pub at_stmt_start: bool,
    pub in_fn_signature: bool,
    pub in_closure_params: bool,
}

/// A text without spaces and tabs at its end.
pub open spec fn trimmed(s: Seq<char>) -> Seq<char>
    decreases s.len(),
{
    if s.len() > 0 && (s.last() == ' ' || s.last() == '\t') {
        trimmed(s.drop_last())
    } else {
        s
    }
}

/// Copies of a character.
pub open spec fn repeated(c: char, n: nat) -> Seq<char> {
    Seq::new(n, |i: int| c)
}

/// The position behind the last line feed among the first `n` characters.
pub open spec fn last_line_start(s: Seq<char>, n: int) -> int
    decreases n,
{
    if n <= 0 {
        0
    } else if s[n - 1] == '\n' {
        n
    } else {
        last_line_start(s, n - 1)
    }
}

/// A word before which words need a space.
pub open spec fn ends_operand(p: Option<PrevKind>) -> bool {
    p == Some(PrevKind::Word) || p == Some(PrevKind::RParen) || p == Some(PrevKind::RBracket) || p
        == Some(PrevKind::RBrace)
}

/// The number of open groups of each sort among the first `n` contexts.
pub open spec fn depths_of(contexts: Seq<Context>, n: int) -> DelimiterDepths
    decreases n,
{
    if n <= 0 {
        DelimiterDepths { paren: 0, bracket: 0, brace: 0 }
    } else {
        let d = depths_of(contexts, n - 1);
        match contexts[n - 1].kind {
            ContextKind::Brace(_) => DelimiterDepths { brace: sat_sum(d.brace, 1), ..d },
            ContextKind::Paren { .. } => DelimiterDepths { paren: sat_sum(d.paren, 1), ..d },
            ContextKind::Bracket => DelimiterDepths { bracket: sat_sum(d.bracket, 1), ..d },
        }
    }
}

/// The last of the first `n` expectations at a depth.
pub open spec fn expectation_at(list: Seq<BraceExpectation>, depths: DelimiterDepths, n: int) -> int
    decreases n,
{
    if n <= 0 {
        -1
    } else if list[n - 1].depths == depths {
        n - 1
    } else {
        expectation_at(list, depths, n - 1)
    }
}

/// The last of the first `n` expectations of a block.
pub open spec fn block_expectation(list: Seq<BraceExpectation>, n: int) -> int
    decreases n,
{
    if n <= 0 {
        -1
    } else if list[n - 1].kind == BraceKind::Block {
        n - 1
    } else {
        block_expectation(list, n - 1)
    }
}

/// Whether a line may be continued around a token.
pub open spec fn continues_line(k: Option<TokenKind>) -> bool {
    k == Some(TokenKind::Plus)
        || k == Some(TokenKind::PlusEqual)
        || k == Some(TokenKind::Minus)
        || k == Some(TokenKind::Star)
        || k == Some(TokenKind::Slash)
        || k == Some(TokenKind::Percent)
        || k == Some(TokenKind::EqualEqual)
        || k == Some(TokenKind::BangEqual)
        || k == Some(TokenKind::Less)
        || k == Some(TokenKind::LessEqual)
        || k == Some(TokenKind::Greater)
        || k == Some(TokenKind::GreaterEqual)
        || k == Some(TokenKind::AmpersandAmpersand)
        || k == Some(TokenKind::PipePipe)
}

/// Whether a word token is written as a name behind a path or a dot.
pub open spec fn is_keyword(k: TokenKind) -> bool {
    k == TokenKind::Pub
        || k == TokenKind::Use
        || k == TokenKind::Import
        || k == TokenKind::From
        || k == TokenKind::As
        || k == TokenKind::Fn
        || k == TokenKind::Struct
        || k == TokenKind::Let
        || k == TokenKind::For
        || k == TokenKind::If
        || k == TokenKind::Else
        || k == TokenKind::Match
        || k == TokenKind::While
        || k == TokenKind::Break
        || k == TokenKind::Continue
}

/// Tokens that keep a block on the line of what follows it.
pub open spec fn stays_behind_block(k: Option<TokenKind>) -> bool {
    k is None
        || k == Some(TokenKind::Else)
        || k == Some(TokenKind::Semicolon)
        || k == Some(TokenKind::Comma)
        || k == Some(TokenKind::Dot)
        || k == Some(TokenKind::Question)
        || k == Some(TokenKind::LParen)
        || k == Some(TokenKind::LBracket)
        || k == Some(TokenKind::Plus)
        || k == Some(TokenKind::Minus)
        || k == Some(TokenKind::Star)
        || k == Some(TokenKind::Slash)
        || k == Some(TokenKind::Percent)
        || k == Some(TokenKind::EqualEqual)
        || k == Some(TokenKind::BangEqual)
        || k == Some(TokenKind::Less)
        || k == Some(TokenKind::LessEqual)
        || k == Some(TokenKind::Greater)
        || k == Some(TokenKind::GreaterEqual)
        || k == Some(TokenKind::AmpersandAmpersand)
        || k == Some(TokenKind::PipePipe)
        || k == Some(TokenKind::PlusEqual)
}

/// Tokens that may follow the type arguments of a name.
pub open spec fn follows_generics(k: Option<TokenKind>) -> bool {
    k == Some(TokenKind::LParen)
        || k == Some(TokenKind::LBrace)
        || k == Some(TokenKind::LBracket)
        || k == Some(TokenKind::Equal)
        || k == Some(TokenKind::Comma)
        || k == Some(TokenKind::RParen)
        || k == Some(TokenKind::RBracket)
        || k == Some(TokenKind::RBrace)
        || k == Some(TokenKind::Greater)
        || k == Some(TokenKind::Semicolon)
}

/// The position of the `>` that closes type arguments, from position `i` on.
pub open spec fn generic_close(
    ts: Seq<TokenV>,
    i: int,
    angles: nat,
    brackets: nat,
    content: bool,
) -> Option<int>
    decreases ts.len() - i,
{
    if i < 0 || i >= ts.len() {
        None
    } else {
        let k = ts[i].kind;
        if k == TokenKind::Ident || k == TokenKind::Null {
            generic_close(ts, i + 1, angles, brackets, true)
        } else if k == TokenKind::Comma || k == TokenKind::Ellipsis {
            generic_close(ts, i + 1, angles, brackets, content)
        } else if k == TokenKind::LBracket {
            generic_close(ts, i + 1, angles, brackets + 1, content)
        } else if k == TokenKind::RBracket {
            if brackets == 0 {
                None
            } else {
                generic_close(ts, i + 1, angles, (brackets - 1) as nat, content)
            }
        } else if k == TokenKind::Less {
            generic_close(ts, i + 1, angles + 1, brackets, content)
        } else if k == TokenKind::Greater {
            if brackets > 0 {
                None
            } else if angles == 0 {
                if content {
                    Some(i)
                } else {
                    None
                }
            } else {
                generic_close(ts, i + 1, (angles - 1) as nat, brackets, content)
            }
        } else {
            None
        }
    }
}

/// Whether the nearest `if` or `else` before position `i` belongs to the `=>` that the
/// search started from.
pub open spec fn arrow_of_if(
    ts: Seq<TokenV>,
    i: int,
    parens: nat,
    brackets: nat,
    braces: nat,
) -> bool
    decreases i,
{
    if i <= 0 || i > ts.len() {
        false
    } else {
        let k = ts[i - 1].kind;
        let flat = parens == 0 && brackets == 0 && braces == 0;
        if k == TokenKind::RParen {
            arrow_of_if(ts, i - 1, parens + 1, brackets, braces)
        } else if k == TokenKind::LParen {
            arrow_of_if(
                ts,
                i - 1,
                if flat {
                    parens
                } else {
                    less_one(parens)
                },
                brackets,
                braces,
            )
        } else if k == TokenKind::RBracket {
            arrow_of_if(ts, i - 1, parens, brackets + 1, braces)
        } else if k == TokenKind::LBracket {
            arrow_of_if(
                ts,
                i - 1,
                parens,
                if flat {
                    brackets
                } else {
                    less_one(brackets)
                },
                braces,
            )
        } else if k == TokenKind::RBrace {
            arrow_of_if(ts, i - 1, parens, brackets, braces + 1)
        } else if k == TokenKind::LBrace {
            !flat && arrow_of_if(ts, i - 1, parens, brackets, less_one(braces))
        } else if flat && (k == TokenKind::If || k == TokenKind::Else) {
            true
        } else if flat && (k == TokenKind::Comma || k == TokenKind::Semicolon) {
            false
        } else {
            arrow_of_if(ts, i - 1, parens, brackets, braces)
        }
    }
}

/// The sort of group that a context is.
#[derive(Clone, Copy, PartialEq, Eq, Structural)]
pub enum GroupSort {
    Paren,
    Bracket,
    Brace,
}

/// How many groups are open inside the one that is searched. The group itself counts.
pub struct GroupNesting {
    pub parens: nat,
    pub brackets: nat,
    pub braces: nat,
}

pub open spec fn root_nesting(sort: GroupSort) -> GroupNesting {
    GroupNesting {
        parens: if sort == GroupSort::Paren {
            1
        } else {
            0
        },
        brackets: if sort == GroupSort::Bracket {
            1
        } else {
            0
        },
        braces: if sort == GroupSort::Brace {
            1
        } else {
            0
        },
    }
}

/// The position of the token that closes a group, and the number of commas at its top
/// level, from position `i` on.
pub open spec fn group_close(
    ts: Seq<TokenV>,
    i: int,
    sort: GroupSort,
    n: GroupNesting,
    commas: nat,
) -> Option<(int, nat)>
    decreases ts.len() - i,
{
    if i < 0 || i >= ts.len() {
        None
    } else {
        let k = ts[i].kind;
        let top = n == root_nesting(sort);
        if k == TokenKind::LParen {
            group_close(ts, i + 1, sort, GroupNesting { parens: n.parens + 1, ..n }, commas)
        } else if k == TokenKind::RParen {
            if sort == GroupSort::Paren && top {
                Some((i, commas))
            } else {
                group_close(
                    ts,
                    i + 1,
                    sort,
                    GroupNesting { parens: less_one(n.parens), ..n },
                    commas,
                )
            }
        } else if k == TokenKind::LBracket {
            group_close(ts, i + 1, sort, GroupNesting { brackets: n.brackets + 1, ..n }, commas)
        } else if k == TokenKind::RBracket {
            if sort == GroupSort::Bracket && top {
                Some((i, commas))
            } else {
                group_close(
                    ts,
                    i + 1,
                    sort,
                    GroupNesting { brackets: less_one(n.brackets), ..n },
                    commas,
                )
            }
        } else if k == TokenKind::LBrace {
            group_close(ts, i + 1, sort, GroupNesting { braces: n.braces + 1, ..n }, commas)
        } else if k == TokenKind::RBrace {
            if sort == GroupSort::Brace && top {
                Some((i, commas))
            } else {
                group_close(
                    ts,
                    i + 1,
                    sort,
                    GroupNesting { braces: less_one(n.braces), ..n },
                    commas,
                )
            }
        } else if k == TokenKind::Eof {
            None
        } else if k == TokenKind::Comma && top {
            group_close(ts, i + 1, sort, n, commas + 1)
        } else {
            group_close(ts, i + 1, sort, n, commas)
        }
    }
}

/// The width of a text between two positions when written on one line, with one space
/// for every run of white space inside it.
pub open spec fn inline_width(src: Seq<char>, p: int, end: int, width: nat, pending: bool) -> nat
    decreases end - p,
{
    if p < 0 || p >= end || p >= src.len() {
        width
    } else if white_space(src[p]) {
        inline_width(src, p + 1, end, width, width > 0)
    } else {
        inline_width(
            src,
            p + 1,
            end,
            width + (if pending {
                2nat
            } else {
                1nat
            }),
            false,
        )
    }
}

impl FmtV {
    pub open spec fn request_space(self) -> FmtV {
        if self.line_start {
            self
        } else {
            FmtV { pending_space: true, ..self }
        }
    }

    pub open spec fn clear_space(self) -> FmtV {
        FmtV { pending_space: false, ..self }
    }

    pub open spec fn request_newline(self, count: nat) -> FmtV {
        FmtV {
            pending_newlines: if self.pending_newlines >= smaller(count, 2) {
                self.pending_newlines
            } else {
                smaller(count, 2) as usize
            },
            pending_space: false,
            ..self
        }
    }

    /// The output without white space at its end.
    pub open spec fn trim(self) -> FmtV {
        let cut = (self.out.len() - trimmed(self.out).len()) as nat;
        FmtV {
            out: trimmed(self.out),
            line_len: if self.line_len >= cut {
                (self.line_len - cut) as usize
            } else {
                0
            },
            ..self
        }
    }

    /// The output with the line feeds or the space that were asked for.
    pub open spec fn flush(self) -> FmtV {
        if self.pending_newlines > 0 {
            let t = self.trim();
            FmtV {
                out: t.out + repeated('\n', self.pending_newlines as nat),
                pending_newlines: 0,
                line_start: true,
                line_len: 0,
                ..t
            }
        } else if self.pending_space && !self.line_start && !(self.out.len() > 0 && self.out.last()
            == ' ') {
            FmtV {
                out: self.out.push(' '),
                pending_space: false,
                line_len: sat_sum(self.line_len, 1),
                ..self
            }
        } else {
            self
        }
    }

    /// The output with the indent of a new line.
    pub open spec fn indented(self) -> FmtV {
        if self.line_start {
            FmtV {
                out: self.out + repeated(' ', indent_width(self.indent) as nat),
                line_len: indent_width(self.indent),
                line_start: false,
                ..self
            }
        } else {
            self
        }
    }

    /// The output with a text.
    pub open spec fn write(self, text: Seq<char>) -> FmtV {
        let f = self.flush().indented();
        let start = last_line_start(text, text.len() as int);
        FmtV {
            out: f.out + text,
            pending_space: false,
            line_start: start > 0 && start == text.len(),
            line_len: if start > 0 {
                (text.len() - start) as usize
            } else {
                sat_sum(f.line_len, text.len())
            },
            ..f
        }
    }

    pub open spec fn note(self, prev: PrevKind) -> FmtV {
        FmtV { prev: Some(prev), ..self }
    }

    pub open spec fn inside_stmt(self) -> FmtV {
        FmtV { at_stmt_start: false, ..self }
    }

    pub open spec fn space_before_word(self) -> FmtV {
        if ends_operand(self.prev) {
            self.request_space()
        } else {
            self
        }
    }

    pub open spec fn keyword(self, text: Seq<char>, prev: PrevKind, space: bool) -> FmtV {
        let f = self.space_before_word().write(text).note(prev).inside_stmt();
        if space {
            f.request_space()
        } else {
            f
        }
    }

    pub open spec fn word(self, text: Seq<char>) -> FmtV {
        self.space_before_word().write(text).note(PrevKind::Word).inside_stmt()
    }

    pub open spec fn binary(self, text: Seq<char>, prev: PrevKind) -> FmtV {
        self.request_space().write(text).note(prev).request_space().inside_stmt()
    }

    pub open spec fn increment(self) -> FmtV {
        let f = if ends_operand(self.prev) {
            self.clear_space()
        } else {
            self
        };
        f.write("++"@).note(PrevKind::PlusPlus).inside_stmt()
    }

    pub open spec fn prefix(self, text: Seq<char>, prev: PrevKind, space: bool) -> FmtV {
        let f = self.write(text).note(prev);
        (if space {
            f.request_space()
        } else {
            f
        }).inside_stmt()
    }

    /// A sign without a space before it.
    pub open spec fn tight(self, text: Seq<char>, prev: PrevKind) -> FmtV {
        self.clear_space().write(text).note(prev)
    }

    pub open spec fn generic_open(self) -> FmtV {
        let f = self.tight("<"@, PrevKind::Less);
        FmtV { generic_depth: sat_sum(f.generic_depth, 1), at_stmt_start: false, ..f }
    }

    pub open spec fn generic_close(self) -> FmtV {
        let f = self.tight(">"@, PrevKind::Greater);
        FmtV {
            generic_depth: less_one(f.generic_depth as nat) as usize,
            at_stmt_start: false,
            ..f
        }
    }

    pub open spec fn depths(self) -> DelimiterDepths {
        depths_of(self.contexts, self.contexts.len() as int)
    }

    pub open spec fn expect_brace(self, kind: BraceKind) -> FmtV {
        FmtV {
            expectations: self.expectations.push(
                BraceExpectation { kind, depths: self.depths() },
            ),
            ..self
        }
    }

    pub open spec fn drop_block_expectation(self) -> FmtV {
        let k = block_expectation(self.expectations, self.expectations.len() as int);
        if k >= 0 {
            FmtV { expectations: self.expectations.remove(k), ..self }
        } else {
            self
        }
    }

    /// The kind of the braces that open here.
    pub open spec fn brace_kind(self) -> BraceKind {
        let k = expectation_at(self.expectations, self.depths(), self.expectations.len() as int);
        if k >= 0 {
            self.expectations[k].kind
        } else {
            BraceKind::Collection
        }
    }

    pub open spec fn brace_resolved(self) -> FmtV {
        let k = expectation_at(self.expectations, self.depths(), self.expectations.len() as int);
        if k >= 0 {
            FmtV { expectations: self.expectations.remove(k), ..self }
        } else {
            self
        }
    }

    pub open spec fn last_context(self) -> Option<Context> {
        if self.contexts.len() > 0 {
            Some(self.contexts.last())
        } else {
            None
        }
    }

    /// The length of the current line once what was asked for is written.
    pub open spec fn line_len_so_far(self) -> usize {
        let start = if self.pending_newlines > 0 {
            0
        } else {
            self.line_len
        };
        let with_indent = if self.pending_newlines > 0 || self.line_start {
            sat_sum(start, indent_width(self.indent) as nat)
        } else {
            start
        };
        if self.pending_space && with_indent > 0 {
            sat_sum(with_indent, 1)
        } else {
            with_indent
        }
    }

    /// Whether the group that opens here is too wide for its line.
    pub open spec fn too_wide(self, at: PlaceV, sort: GroupSort) -> bool {
        match group_close(at.ts, at.index + 1, sort, root_nesting(sort), 0) {
            Some((close, commas)) => commas > 0 && sat_sum(
                sat_sum(
                    self.line_len_so_far(),
                    inline_width(
                        at.src,
                        at.ts[at.index].start,
                        at.ts[close].end,
                        0,
                        false,
                    ),
                ),
                commas,
            ) > SOFT_MAX_LINE_WIDTH,
            None => false,
        }
    }

    pub open spec fn push_context(self, kind: ContextKind, folded: bool) -> FmtV {
        let f = FmtV {
            contexts: self.contexts.push(Context { kind, indented: folded }),
            indent: if folded {
                sat_sum(self.indent, 1)
            } else {
                self.indent
            },
            ..self
        };
        if folded {
            f.request_newline(1)
        } else {
            f
        }
    }

    pub open spec fn open_paren(self, at: PlaceV) -> FmtV {
        let spaced = self.prev == Some(PrevKind::If) || self.prev == Some(PrevKind::For)
            || self.prev == Some(PrevKind::While) || self.prev == Some(PrevKind::Match) || self.prev
            == Some(PrevKind::Import) || self.prev == Some(PrevKind::Equal);
        let f = (if spaced {
            self.request_space()
        } else {
            self.clear_space()
        }).write("("@);
        let for_head = self.prev == Some(PrevKind::For);
        let folded = f.too_wide(at, GroupSort::Paren) && at.peek(1) != Some(TokenKind::RParen);
        f.push_context(ContextKind::Paren { for_head }, folded).note(PrevKind::LParen).inside_stmt()
    }

    pub open spec fn open_bracket(self, at: PlaceV) -> FmtV {
        let tight = ends_operand(self.prev) || self.prev == Some(PrevKind::Dot) || self.prev
            == Some(PrevKind::OptionalAccess);
        let f = (if tight {
            self.clear_space()
        } else {
            self
        }).write("["@);
        let folded = f.too_wide(at, GroupSort::Bracket) && at.peek(1) != Some(TokenKind::RBracket);
        f.push_context(ContextKind::Bracket, folded).note(PrevKind::LBracket).inside_stmt()
    }

    pub open spec fn open_brace(self, at: PlaceV) -> FmtV {
        let kind = self.brace_kind();
        let r = self.brace_resolved();
        let spaced = !(r.prev == Some(PrevKind::PathSeparator) || r.prev == Some(PrevKind::LParen)
            || r.prev == Some(PrevKind::LBracket)) && !r.line_start;
        let f = (if spaced {
            r.request_space()
        } else {
            r.clear_space()
        }).write("{"@);
        let empty = at.peek(1) == Some(TokenKind::RBrace);
        let block = kind != BraceKind::Collection;
        let folded = !block && !empty && f.too_wide(at, GroupSort::Brace);
        let g = if block && !empty {
            FmtV {
                contexts: f.contexts.push(
                    Context { kind: ContextKind::Brace(kind), indented: true },
                ),
                indent: sat_sum(f.indent, 1),
                pending_code_break: true,
                ..f
            }
        } else {
            f.push_context(ContextKind::Brace(kind), folded)
        };
        FmtV {
            prev: Some(PrevKind::LBrace),
            at_stmt_start: block,
            in_fn_signature: false,
            ..g
        }
    }

    /// The state with the innermost group about to close.
    pub open spec fn closing(self) -> FmtV {
        let c = self.contexts.last();
        let popped = FmtV { contexts: self.contexts.drop_last(), ..self };
        let f = if c.indented {
            let g = FmtV { indent: less_one(popped.indent as nat) as usize, ..popped };
            if !g.line_start && !(g.prev == Some(PrevKind::LBrace) || g.prev == Some(
                PrevKind::LBracket,
            ) || g.prev == Some(PrevKind::LParen)) {
                g.request_newline(1)
            } else {
                g
            }
        } else {
            popped
        };
        f.clear_space()
    }

    pub open spec fn close_brace(self, at: PlaceV) -> FmtV {
        let c = self.contexts.last();
        let f = FmtV {
            pending_code_break: false,
            ..self.closing().write("}"@).note(PrevKind::RBrace)
        };
        let breaks = (c.kind == ContextKind::Brace(BraceKind::Block) || c.kind
            == ContextKind::Brace(BraceKind::StructBody)) && !stays_behind_block(at.peek(1));
        if breaks {
            FmtV { pending_code_break: true, at_stmt_start: true, ..f }
        } else {
            f.inside_stmt()
        }
    }

    pub open spec fn close_group(self, text: Seq<char>, prev: PrevKind) -> FmtV {
        FmtV {
            pending_code_break: false,
            at_stmt_start: false,
            ..self.closing().write(text).note(prev)
        }
    }

    pub open spec fn pipe(self) -> FmtV {
        let f = self.write("|"@).note(PrevKind::Pipe);
        (if f.in_closure_params {
            (FmtV { in_closure_params: false, ..f }).request_space()
        } else {
            FmtV { in_closure_params: true, ..f }
        }).inside_stmt()
    }

    pub open spec fn breaks_after_commas(self) -> bool {
        match self.last_context() {
            Some(c) => c.indented && (c.kind is Paren || c.kind is Bracket || c.kind
                == ContextKind::Brace(BraceKind::Collection)),
            None => false,
        }
    }

    pub open spec fn comma(self, at: PlaceV) -> FmtV {
        let f = self.tight(","@, PrevKind::Comma);
        let generic = f.generic_depth > 0;
        let listing = match f.last_context() {
            Some(c) => c.kind == ContextKind::Brace(BraceKind::MatchBody) || c.kind
                == ContextKind::Brace(BraceKind::StructBody),
            None => false,
        };
        if !generic && listing {
            FmtV { pending_code_break: true, at_stmt_start: true, ..f }
        } else if generic {
            f.request_space()
        } else if f.breaks_after_commas() {
            f.request_newline(1)
        } else if !at.next_is_closer() {
            f.request_space()
        } else {
            f
        }
    }

    pub open spec fn colon(self, at: PlaceV) -> FmtV {
        if at.peek(1) == Some(TokenKind::Colon) {
            self.tight("::"@, PrevKind::PathSeparator)
        } else {
            let f = self.tight(":"@, PrevKind::Colon);
            let slice = match f.last_context() {
                Some(c) => c.kind == ContextKind::Bracket,
                None => false,
            };
            if !slice && !at.next_is_closer() {
                f.request_space()
            } else {
                f
            }
        }
    }

    pub open spec fn question(self, at: PlaceV) -> FmtV {
        if at.peek(1) == Some(TokenKind::Dot) {
            self.tight("?."@, PrevKind::OptionalAccess)
        } else {
            self.clear_space().write("?"@)
        }
    }

    pub open spec fn semicolon(self, at: PlaceV) -> FmtV {
        let f = self.tight(";"@, PrevKind::Semicolon);
        let for_head = match f.last_context() {
            Some(c) => c.kind == (ContextKind::Paren { for_head: true }),
            None => false,
        };
        if for_head {
            if at.peek(1) != Some(TokenKind::RParen) {
                f.request_space()
            } else {
                f
            }
        } else {
            (FmtV {
                pending_code_break: true,
                at_stmt_start: true,
                in_fn_signature: false,
                ..f
            }).drop_block_expectation()
        }
    }

    pub open spec fn equal(self) -> FmtV {
        (FmtV {
            in_fn_signature: false,
            ..self.binary("="@, PrevKind::Equal)
        }).drop_block_expectation()
    }

    pub open spec fn fat_arrow(self, at: PlaceV) -> FmtV {
        let f = self.binary("=>"@, PrevKind::FatArrow);
        if arrow_of_if(at.ts, at.index, 0, 0, 0) {
            f.expect_brace(BraceKind::Block)
        } else {
            f
        }
    }

    pub open spec fn star(self) -> FmtV {
        if self.prev == Some(PrevKind::PathSeparator) || self.prev == Some(PrevKind::LBrace)
            || self.prev == Some(PrevKind::Comma) {
            self.tight("*"@, PrevKind::Star)
        } else {
            self.binary("*"@, PrevKind::Star)
        }
    }

    pub open spec fn minus(self, at: PlaceV) -> FmtV {
        if self.in_fn_signature && at.peek(1) == Some(TokenKind::Greater) {
            self.request_space().write("->"@).note(PrevKind::ReturnArrow).request_space()
        } else if !ends_operand(self.prev) {
            self.prefix("-"@, PrevKind::Minus, false)
        } else {
            self.binary("-"@, PrevKind::Minus)
        }
    }

    pub open spec fn pipe_pipe(self) -> FmtV {
        if !ends_operand(self.prev) {
            self.prefix("||"@, PrevKind::PipePipe, true)
        } else {
            self.binary("||"@, PrevKind::OrOr)
        }
    }

    /// Whether the `<` here opens type arguments.
    pub open spec fn opens_generics(self, at: PlaceV) -> bool {
        match generic_close(at.ts, at.index + 1, 0, 0, false) {
            Some(close) => {
                let next = kind_at(at.ts, close + 1);
                if self.prev == Some(PrevKind::PathSeparator) {
                    next == Some(TokenKind::LParen)
                } else {
                    follows_generics(next)
                }
            },
            None => false,
        }
    }

    pub open spec fn less(self, at: PlaceV) -> FmtV {
        if self.opens_generics(at) {
            self.generic_open()
        } else {
            self.binary("<"@, PrevKind::Less)
        }
    }

    pub open spec fn greater(self) -> FmtV {
        if self.generic_depth > 0 {
            self.generic_close()
        } else {
            self.binary(">"@, PrevKind::Greater)
        }
    }

    pub open spec fn fn_keyword(self) -> FmtV {
        (FmtV {
            in_fn_signature: true,
            ..self.keyword("fn"@, PrevKind::Fn, true)
        }).expect_brace(BraceKind::Block)
    }

    pub open spec fn if_keyword(self, at: PlaceV) -> FmtV {
        let f = self.keyword("if"@, PrevKind::If, true);
        if f.at_stmt_start && !if_is_expression(at.ts, at.index) {
            f.expect_brace(BraceKind::Block)
        } else {
            f
        }
    }

    pub open spec fn else_keyword(self, at: PlaceV) -> FmtV {
        let f = self.keyword("else"@, PrevKind::Else, true);
        if at.peek(1) != Some(TokenKind::If) {
            f.expect_brace(BraceKind::Block)
        } else {
            f
        }
    }

    /// The state once the token at hand is written.
    #[verifier::opaque]
    pub open spec fn token(self, at: PlaceV) -> FmtV {
        let k = at.ts[at.index].kind;
        let named = self.prev == Some(PrevKind::PathSeparator) || self.prev == Some(PrevKind::Dot)
            || self.prev == Some(PrevKind::OptionalAccess);
        if named && is_keyword(k) {
            self.word(at.text())
        } else {
            match k {
                TokenKind::Pub => self.keyword("pub"@, PrevKind::Pub, true),
                TokenKind::Use => self.keyword("use"@, PrevKind::Use, true),
                TokenKind::Import => self.keyword("import"@, PrevKind::Import, true),
                TokenKind::From => self.keyword("from"@, PrevKind::From, true),
                TokenKind::As => self.keyword("as"@, PrevKind::As, true),
                TokenKind::Fn => self.fn_keyword(),
                TokenKind::Struct => self.keyword(
                    "struct"@,
                    PrevKind::Struct,
                    true,
                ).expect_brace(BraceKind::StructBody),
                TokenKind::Let => self.keyword("let"@, PrevKind::Let, true),
                TokenKind::For => self.keyword(
                    "for"@,
                    PrevKind::For,
                    true,
                ).expect_brace(BraceKind::Block),
                TokenKind::If => self.if_keyword(at),
                TokenKind::Else => self.else_keyword(at),
                TokenKind::Match => self.keyword(
                    "match"@,
                    PrevKind::Match,
                    true,
                ).expect_brace(BraceKind::MatchBody),
                TokenKind::While => self.keyword(
                    "while"@,
                    PrevKind::While,
                    true,
                ).expect_brace(BraceKind::Block),
                TokenKind::Break => self.keyword("break"@, PrevKind::Break, false),
                TokenKind::Continue => self.keyword("continue"@, PrevKind::Continue, false),
                TokenKind::Ident => self.word(at.text()),
                TokenKind::Int => self.word(at.text()),
                TokenKind::IntMinMagnitude => self.word(at.text()),
                TokenKind::Float => self.word(at.text()),
                TokenKind::String => self.word(at.text()),
                TokenKind::True => self.word(at.text()),
                TokenKind::False => self.word(at.text()),
                TokenKind::Null => self.word(at.text()),
                TokenKind::LParen => self.open_paren(at),
                TokenKind::RParen => self.close_group(")"@, PrevKind::RParen),
                TokenKind::LBracket => self.open_bracket(at),
                TokenKind::RBracket => self.close_group("]"@, PrevKind::RBracket),
                TokenKind::LBrace => self.open_brace(at),
                TokenKind::RBrace => self.close_brace(at),
                TokenKind::Comma => self.comma(at),
                TokenKind::Colon => self.colon(at),
                TokenKind::Question => self.question(at),
                TokenKind::Dot => self.tight("."@, PrevKind::Dot),
                TokenKind::Ellipsis => self.tight("..."@, PrevKind::Ellipsis),
                TokenKind::Semicolon => self.semicolon(at),
                TokenKind::Equal => self.equal(),
                TokenKind::FatArrow => self.fat_arrow(at),
                TokenKind::PlusPlus => self.increment(),
                TokenKind::Plus => self.binary("+"@, PrevKind::Plus),
                TokenKind::PlusEqual => self.binary("+="@, PrevKind::PlusEqual),
                TokenKind::Star => self.star(),
                TokenKind::Slash => self.binary("/"@, PrevKind::Slash),
                TokenKind::Percent => self.binary("%"@, PrevKind::Percent),
                TokenKind::Minus => self.minus(at),
                TokenKind::Bang => self.prefix("!"@, PrevKind::Bang, false),
                TokenKind::BangEqual => self.binary("!="@, PrevKind::BangEq),
                TokenKind::Ampersand => self.prefix("&"@, PrevKind::Ampersand, false),
                TokenKind::AmpersandAmpersand => self.binary("&&"@, PrevKind::AndAnd),
                TokenKind::PipePipe => self.pipe_pipe(),
                TokenKind::Pipe => self.pipe(),
                TokenKind::EqualEqual => self.binary("=="@, PrevKind::EqEq),
                TokenKind::Less => self.less(at),
                TokenKind::LessEqual => self.binary("<="@, PrevKind::LessEq),
                TokenKind::Greater => self.greater(),
                TokenKind::GreaterEqual => self.binary(">="@, PrevKind::GreaterEq),
                TokenKind::Eof => self,
            }
        }
    }

    /// The number of tokens that are written at once.
    pub open spec fn token_width(self, at: PlaceV) -> int {
        let k = at.peek(0);
        if (k == Some(TokenKind::Colon) && at.peek(1) == Some(TokenKind::Colon)) || (k == Some(
            TokenKind::Question,
        ) && at.peek(1) == Some(TokenKind::Dot)) || (k == Some(TokenKind::Minus)
            && self.in_fn_signature && at.peek(1) == Some(TokenKind::Greater)) {
            2
        } else {
            1
        }
    }

    /// Whether a line feed between two tokens is written as a space.
    pub open spec fn collapses_line_break(self, at: PlaceV) -> bool {
        if self.pending_code_break {
            false
        } else if self.generic_depth > 0 {
            true
        } else {
            continues_line(at.peek(-1)) || continues_line(at.peek(0)) || (is_kind(
                at.ts,
                at.index - 1,
                TokenKind::Ident,
            ) && at.ts[at.index - 1].text == "return"@ && !(at.peek(0) is None || at.peek(0)
                == Some(TokenKind::Semicolon) || at.peek(0) == Some(TokenKind::RBrace)
                || at.peek(0) == Some(TokenKind::Eof)))
        }
    }

    /// The innermost group indented, where it spreads over lines.
    pub open spec fn note_newline(self) -> FmtV {
        if self.contexts.len() > 0 && !self.contexts.last().indented && !(self.contexts.last().kind
            == ContextKind::Brace(BraceKind::Block) || self.contexts.last().kind
            == ContextKind::Brace(BraceKind::MatchBody) || self.contexts.last().kind
            == ContextKind::Brace(BraceKind::StructBody)) {
            FmtV {
                contexts: self.contexts.update(
                    self.contexts.len() - 1,
                    Context { indented: true, ..self.contexts.last() },
                ),
                indent: sat_sum(self.indent, 1),
                ..self
            }
        } else {
            self
        }
    }

    /// The state behind line feeds between two tokens, and whether they were kept.
    pub open spec fn gap_newlines(self, at: PlaceV, count: nat, saw: bool) -> (FmtV, bool) {
        if self.collapses_line_break(at) {
            (self.request_space(), saw)
        } else {
            (
                FmtV {
                    pending_code_break: false,
                    ..self.note_newline().request_newline(count)
                },
                true,
            )
        }
    }

    /// The state with a comment that runs to the end of its line.
    pub open spec fn line_comment(self, text: Seq<char>, saw: bool) -> FmtV {
        if self.line_start || saw {
            self.write(text)
        } else {
            self.request_space().write(text)
        }
    }

    /// The state behind the line feed of a comment.
    pub open spec fn comment_newline(self) -> FmtV {
        FmtV { pending_code_break: false, ..self.note_newline().request_newline(1) }
    }

    /// The state with a comment in delimiters, and whether it holds a line feed.
    pub open spec fn block_comment(self, text: Seq<char>, saw: bool) -> (FmtV, bool) {
        if text.contains('\n') {
            let f = self.note_newline();
            let g = if !f.line_start {
                f.request_newline(1)
            } else {
                f
            };
            (FmtV { pending_code_break: false, ..g.write(text) }, true)
        } else if self.line_start || saw {
            (self.write(text), saw)
        } else {
            (self.request_space().write(text).request_space(), saw)
        }
    }
}

/// The position behind a run of line feeds.
pub open spec fn newline_run(src: Seq<char>, p: int, end: int) -> int
    decreases end - p,
{
    if 0 <= p < end && p < src.len() && src[p] == '\n' {
        newline_run(src, p + 1, end)
    } else {
        p
    }
}

/// The position of the next line feed, or the end.
pub open spec fn to_newline(src: Seq<char>, p: int, end: int) -> int
    decreases end - p,
{
    if 0 <= p < end && p < src.len() && src[p] != '\n' {
        to_newline(src, p + 1, end)
    } else {
        p
    }
}

/// The position of the next end of a comment, or the last position.
pub open spec fn to_comment_close(src: Seq<char>, p: int, end: int) -> int
    decreases end - p,
{
    if 0 <= p && p + 1 < end && p + 1 < src.len() && !(src[p] == '*' && src[p + 1] == '/') {
        to_comment_close(src, p + 1, end)
    } else {
        p
    }
}

proof fn lemma_newline_run(src: Seq<char>, p: int, end: int)
    requires
        0 <= p <= end,
    ensures
        p <= newline_run(src, p, end) <= end,
    decreases end - p,
{
    if p < end && p < src.len() && src[p] == '\n' {
        lemma_newline_run(src, p + 1, end);
    }
}

pub proof fn lemma_to_newline(src: Seq<char>, p: int, end: int)
    requires
        0 <= p <= end,
    ensures
        p <= to_newline(src, p, end) <= end,
    decreases end - p,
{
    if p < end && src[p] != '\n' {
        lemma_to_newline(src, p + 1, end);
    }
}

pub proof fn lemma_to_comment_close(src: Seq<char>, p: int, end: int)
    requires
        0 <= p <= end,
    ensures
        p <= to_comment_close(src, p, end) <= end,
    decreases end - p,
{
    if p + 1 < end && p + 1 < src.len() && !(src[p] == '*' && src[p + 1] == '/') {
        lemma_to_comment_close(src, p + 1, end);
    }
}

#[via_fn]
proof fn gap_shrinks(f: FmtV, at: PlaceV, p: int, end: int, saw: bool) {
    if 0 <= p < end && p < at.src.len() {
        lemma_newline_run(at.src, p + 1, end);
        if p + 1 < end {
            lemma_to_newline(at.src, p + 2, end);
            lemma_to_comment_close(at.src, p + 2, end);
        }
    }
}

/// The state behind what stands between two tokens from position `p` on.
pub open spec fn gap(f: FmtV, at: PlaceV, p: int, end: int, saw: bool) -> (FmtV, bool)
    decreases end - p,
    via gap_shrinks
{
    let src = at.src;
    if p < 0 || p >= end || p >= src.len() {
        (f, saw)
    } else if src[p] == '\n' {
        let e = newline_run(src, p + 1, end);
        let (g, s) = f.gap_newlines(at, (e - p) as nat, saw);
        gap(g, at, e, end, s)
    } else if src[p] == '/' && p + 1 < end && p + 1 < src.len() && src[p + 1] == '/' {
        let e = to_newline(src, p + 2, end);
        let g = f.line_comment(src.subrange(p, e), saw);
        if e < end {
            gap(g.comment_newline(), at, e + 1, end, true)
        } else {
            gap(g, at, e, end, saw)
        }
    } else if src[p] == '/' && p + 1 < end && p + 1 < src.len() && src[p + 1] == '*' {
        let close = to_comment_close(src, p + 2, end) + 2;
        let e = if close <= end {
            close
        } else {
            end
        };
        let (g, s) = f.block_comment(src.subrange(p, e), saw);
        gap(g, at, e, end, s)
    } else {
        gap(f, at, p + 1, end, saw)
    }
}

/// The state before a token is written.
pub open spec fn before_token(f: FmtV, at: PlaceV) -> FmtV {
    let (g, saw) = gap(f, at, at.gap_start(), at.ts[at.index].start, false);
    let h = if g.pending_code_break && !saw {
        g.request_newline(1)
    } else {
        g
    };
    if saw {
        FmtV { pending_code_break: false, ..h }
    } else {
        h
    }
}

/// The state at the end of the text.
pub open spec fn formatted_from(f: FmtV, at: PlaceV) -> FmtV
    decreases at.ts.len() - at.index,
{
    if at.index < 0 || at.index >= at.ts.len() {
        f
    } else if at.ts[at.index].kind == TokenKind::Eof {
        gap(f, at, at.gap_start(), at.ts[at.index].start, false).0
    } else {
        let g = before_token(f, at);
        formatted_from(g.token(at), at.on(g.token_width(at)))
    }
}

/// The state at the start of a text.
pub open spec fn format_start() -> FmtV {
    FmtV {
        out: Seq::empty(),
        indent: 0,
        line_len: 0,
        line_start: true,
        pending_space: false,
        pending_newlines: 0,
        pending_code_break: false,
        prev: None,
        contexts: Seq::empty(),
        expectations: Seq::empty(),
        generic_depth: 0,
        at_stmt_start: true,
        in_fn_signature: false,
        in_closure_params: false,
    }
}

/// A text formatted. It ends with a line feed.
pub open spec fn formatted(src: Seq<char>, ts: Seq<TokenV>) -> Seq<char> {
    let f = formatted_from(format_start(), PlaceV { src, ts, index: 0 });
    if f.out.len() > 0 && f.out.last() == '\n' {
        f.out
    } else {
        f.trim().out.push('\n')
    }
}

/// Whether a token opens a group.
pub open spec fn opens(k: TokenKind) -> bool {
    k == TokenKind::LParen || k == TokenKind::LBracket || k == TokenKind::LBrace
}

/// Whether a token closes a group.
pub open spec fn closes(k: TokenKind) -> bool {
    k == TokenKind::RParen || k == TokenKind::RBracket || k == TokenKind::RBrace
}

/// The number of groups that are open behind the first `n` tokens.
pub open spec fn open_groups(ts: Seq<TokenV>, n: int) -> int
    decreases n,
{
    if n <= 0 {
        0
    } else if opens(ts[n - 1].kind) {
        open_groups(ts, n - 1) + 1
    } else if closes(ts[n - 1].kind) {
        open_groups(ts, n - 1) - 1
    } else {
        open_groups(ts, n - 1)
    }
}

/// Whether every closing delimiter has an opening one before it.
pub open spec fn closers_matched(ts: Seq<TokenV>) -> bool {
    forall|n: int| 0 <= n <= ts.len() ==> #[trigger] open_groups(ts, n) >= 0
}

/// A formatted text ends with a line feed.
pub proof fn law_ends_with_newline(src: Seq<char>, ts: Seq<TokenV>)
    ensures
        formatted(src, ts).len() > 0,
        formatted(src, ts).last() == '\n',
{
}

// ---------------------------------------------------------------------------
// The formatter.

/// A text and its tokens.
pub struct FormatInput {
    pub source: Vec<char>,
    pub tokens: Vec<Token>,
}

impl FormatInput {
    pub open spec fn at(&self, index: int) -> PlaceV {
        PlaceV { src: self.source@, ts: tokens_view(self.tokens@), index }
    }

    /// Whether the tokens stand in the text one behind the other.
    pub open spec fn wf(&self) -> bool {
        let ts = tokens_view(self.tokens@);
        &&& forall|i: int|
            0 <= i < ts.len() ==> 0 <= (#[trigger] ts[i]).start <= ts[i].end <= self.source@.len()
        &&& forall|i: int, j: int|
            0 <= i < j < ts.len() ==> (#[trigger] ts[i]).end <= (#[trigger] ts[j]).start
    }

    fn peek(&self, index: usize) -> (r: Option<TokenKind>)
        ensures
            r == kind_at(tokens_view(self.tokens@), index as int),
    {
        peek_kind_at(&self.tokens, index)
    }

    fn peek_next(&self, index: usize) -> (r: Option<TokenKind>)
        requires
            index < self.tokens@.len(),
        ensures
            r == self.at(index as int).peek(1),
    {
        let total: usize = self.tokens.len();
        peek_kind_at(&self.tokens, index + 1)
    }

    fn next_is(&self, index: usize, kind: TokenKind) -> (r: bool)
        requires
            index < self.tokens@.len(),
        ensures
            r == (self.at(index as int).peek(1) == Some(kind)),
    {
        let total: usize = self.tokens.len();
        check_kind_at(&self.tokens, index + 1, kind)
    }

    fn next_is_closer(&self, index: usize) -> (r: bool)
        requires
            index < self.tokens@.len(),
        ensures
            r == self.at(index as int).next_is_closer(),
    {
        self.next_is(index, TokenKind::RParen) || self.next_is(index, TokenKind::RBracket)
            || self.next_is(index, TokenKind::RBrace)
    }

    fn find_generic_angle_group_close(&self, less_index: usize) -> (r: Option<usize>)
        requires
            less_index < self.tokens@.len(),
        ensures
            match generic_close(tokens_view(self.tokens@), less_index + 1, 0, 0, false) {
                Some(close) => r is Some && r->0 == close && less_index < close < self.tokens@.len(),
                None => r is None,
            },
    {
        let total: usize = self.tokens.len();
        let ghost ts = tokens_view(self.tokens@);
        let mut angle_depth: usize = 0;
        let mut bracket_depth: usize = 0;
        let mut saw_content = false;
        let mut index: usize = less_index + 1;
        while index < total
            invariant
                less_index < index <= total,
                total == self.tokens@.len(),
                ts == tokens_view(self.tokens@),
                angle_depth <= index,
                bracket_depth <= index,
                generic_close(ts, less_index + 1, 0, 0, false) == generic_close(
                    ts,
                    index as int,
                    angle_depth as nat,
                    bracket_depth as nat,
                    saw_content,
                ),
            decreases total - index,
        {
            let kind = self.tokens[index].kind;
            assert(ts[index as int].kind == kind);
            match kind {
                TokenKind::Ident | TokenKind::Null => {
                    saw_content = true;
                },
                TokenKind::Comma | TokenKind::Ellipsis => {},
                TokenKind::LBracket => {
                    bracket_depth += 1;
                },
                TokenKind::RBracket => {
                    if bracket_depth == 0 {
                        return None;
                    }
                    bracket_depth -= 1;
                },
                TokenKind::Less => {
                    angle_depth += 1;
                },
                TokenKind::Greater => {
                    if bracket_depth > 0 {
                        return None;
                    }
                    if angle_depth == 0 {
                        return if saw_content {
                            Some(index)
                        } else {
                            None
                        };
                    }
                    angle_depth -= 1;
                },
                _ => {
                    return None;
                },
            }
            index += 1;
        }
        None
    }

    fn fat_arrow_is_if_branch(&self, index: usize) -> (r: bool)
        requires
            index <= self.tokens@.len(),
        ensures
            r == arrow_of_if(tokens_view(self.tokens@), index as int, 0, 0, 0),
    {
        let ghost ts = tokens_view(self.tokens@);
        let mut paren_depth: usize = 0;
        let mut bracket_depth: usize = 0;
        let mut brace_depth: usize = 0;
        let mut cursor: usize = index;
        while cursor > 0
            invariant
                cursor <= index <= self.tokens@.len(),
                ts == tokens_view(self.tokens@),
                paren_depth <= index - cursor,
                bracket_depth <= index - cursor,
                brace_depth <= index - cursor,
                arrow_of_if(ts, index as int, 0, 0, 0) == arrow_of_if(
                    ts,
                    cursor as int,
                    paren_depth as nat,
                    bracket_depth as nat,
                    brace_depth as nat,
                ),
            decreases cursor,
        {
            cursor -= 1;
            let flat = paren_depth == 0 && bracket_depth == 0 && brace_depth == 0;
            let kind = self.tokens[cursor].kind;
            assert(ts[cursor as int].kind == kind);
            match kind {
                TokenKind::RParen => {
                    paren_depth += 1;
                },
                TokenKind::LParen => {
                    if !flat && paren_depth > 0 {
                        paren_depth -= 1;
                    }
                },
                TokenKind::RBracket => {
                    bracket_depth += 1;
                },
                TokenKind::LBracket => {
                    if !flat && bracket_depth > 0 {
                        bracket_depth -= 1;
                    }
                },
                TokenKind::RBrace => {
                    brace_depth += 1;
                },
                TokenKind::LBrace => {
                    if flat {
                        return false;
                    }
                    if brace_depth > 0 {
                        brace_depth -= 1;
                    }
                },
                TokenKind::If | TokenKind::Else => {
                    if flat {
                        return true;
                    }
                },
                TokenKind::Comma | TokenKind::Semicolon => {
                    if flat {
                        return false;
                    }
                },
                _ => {},
            }
        }
        false
    }

    fn find_group_close_and_top_level_commas(&self, open_index: usize, sort: GroupSort) -> (r:
        Option<(usize, usize)>)
        requires
            open_index < self.tokens@.len(),
        ensures
            match group_close(
                tokens_view(self.tokens@),
                open_index + 1,
                sort,
                root_nesting(sort),
                0,
            ) {
                Some((close, commas)) => r is Some && (r->0).0 == close && (r->0).1 == commas
                    && open_index < close < self.tokens@.len(),
                None => r is None,
            },
    {
        let total: usize = self.tokens.len();
        let ghost ts = tokens_view(self.tokens@);
        let root = Self::root_depths_for_kind(sort);
        let mut depths = root;
        let mut comma_count: usize = 0;
        let mut index: usize = open_index + 1;
        while index < total
            invariant
                open_index < index <= total,
                total == self.tokens@.len(),
                ts == tokens_view(self.tokens@),
                root.nesting() == root_nesting(sort),
                depths.paren <= index,
                depths.bracket <= index,
                depths.brace <= index,
                comma_count < index,
                group_close(ts, open_index + 1, sort, root_nesting(sort), 0) == group_close(
                    ts,
                    index as int,
                    sort,
                    depths.nesting(),
                    comma_count as nat,
                ),
            decreases total - index,
        {
            let kind = self.tokens[index].kind;
            assert(ts[index as int].kind == kind);
            let top = depths == root;
            assert(top == (depths.nesting() == root_nesting(sort)));
            match kind {
                TokenKind::Comma => {
                    if top {
                        comma_count += 1;
                    }
                },
                TokenKind::LParen => {
                    depths.paren += 1;
                },
                TokenKind::RParen => {
                    if sort == GroupSort::Paren && top {
                        return Some((index, comma_count));
                    }
                    depths.paren = minus_one(depths.paren);
                },
                TokenKind::LBracket => {
                    depths.bracket += 1;
                },
                TokenKind::RBracket => {
                    if sort == GroupSort::Bracket && top {
                        return Some((index, comma_count));
                    }
                    depths.bracket = minus_one(depths.bracket);
                },
                TokenKind::LBrace => {
                    depths.brace += 1;
                },
                TokenKind::RBrace => {
                    if sort == GroupSort::Brace && top {
                        return Some((index, comma_count));
                    }
                    depths.brace = minus_one(depths.brace);
                },
                TokenKind::Eof => {
                    return None;
                },
                _ => {},
            }
            index += 1;
        }
        None
    }

    fn root_depths_for_kind(sort: GroupSort) -> (r: DelimiterDepths)
        ensures
            r.nesting() == root_nesting(sort),
    {
        match sort {
            GroupSort::Paren => DelimiterDepths { paren: 1, bracket: 0, brace: 0 },
            GroupSort::Bracket => DelimiterDepths { paren: 0, bracket: 1, brace: 0 },
            GroupSort::Brace => DelimiterDepths { paren: 0, bracket: 0, brace: 1 },
        }
    }

    fn normalized_inline_width(&self, lo: usize, hi: usize) -> (r: usize)
        requires
            lo <= hi <= self.source@.len(),
        ensures
            r == inline_width(self.source@, lo as int, hi as int, 0, false),
    {
        let mut width: usize = 0;
        let mut pending_space = false;
        let mut p: usize = lo;
        while p < hi
            invariant
                lo <= p <= hi <= self.source@.len(),
                width + (if pending_space {
                    1int
                } else {
                    0int
                }) <= p - lo,
                inline_width(self.source@, lo as int, hi as int, 0, false) == inline_width(
                    self.source@,
                    p as int,
                    hi as int,
                    width as nat,
                    pending_space,
                ),
            decreases hi - p,
        {
            if is_whitespace(self.source[p]) {
                pending_space = width > 0;
            } else {
                if pending_space {
                    width += 1;
                    pending_space = false;
                }
                width += 1;
            }
            p += 1;
        }
        width
    }
}

impl DelimiterDepths {
    pub open spec fn nesting(self) -> GroupNesting {
        GroupNesting {
            parens: self.paren as nat,
            brackets: self.bracket as nat,
            braces: self.brace as nat,
        }
    }
}

fn minus_one(n: usize) -> (r: usize)
    ensures
        r == less_one(n as nat),
{
    if n > 0 {
        n - 1
    } else {
        0
    }
}

fn sat_add(a: usize, b: usize) -> (r: usize)
    ensures
        r == sat_sum(a, b as nat),
{
    a.saturating_add(b)
}

fn four_times(indent: usize) -> (r: usize)
    ensures
        r == indent_width(indent),
{
    if indent <= usize::MAX / 4 {
        indent * 4
    } else {
        usize::MAX
    }
}

fn is_continuation_operator(kind: Option<TokenKind>) -> (r: bool)
    ensures
        r == continues_line(kind),
{
    kind == Some(TokenKind::Plus)
        || kind == Some(TokenKind::PlusEqual)
        || kind == Some(TokenKind::Minus)
        || kind == Some(TokenKind::Star)
        || kind == Some(TokenKind::Slash)
        || kind == Some(TokenKind::Percent)
        || kind == Some(TokenKind::EqualEqual)
        || kind == Some(TokenKind::BangEqual)
        || kind == Some(TokenKind::Less)
        || kind == Some(TokenKind::LessEqual)
        || kind == Some(TokenKind::Greater)
        || kind == Some(TokenKind::GreaterEqual)
        || kind == Some(TokenKind::AmpersandAmpersand)
        || kind == Some(TokenKind::PipePipe)
}

fn is_keyword_token(kind: TokenKind) -> (r: bool)
    ensures
        r == is_keyword(kind),
{
    kind == TokenKind::Pub
        || kind == TokenKind::Use
        || kind == TokenKind::Import
        || kind == TokenKind::From
        || kind == TokenKind::As
        || kind == TokenKind::Fn
        || kind == TokenKind::Struct
        || kind == TokenKind::Let
        || kind == TokenKind::For
        || kind == TokenKind::If
        || kind == TokenKind::Else
        || kind == TokenKind::Match
        || kind == TokenKind::While
        || kind == TokenKind::Break
        || kind == TokenKind::Continue
}

fn should_break_after_block(kind: Option<TokenKind>) -> (r: bool)
    ensures
        r == !stays_behind_block(kind),
{
    !(kind.is_none()
        || kind == Some(TokenKind::Else)
        || kind == Some(TokenKind::Semicolon)
        || kind == Some(TokenKind::Comma)
        || kind == Some(TokenKind::Dot)
        || kind == Some(TokenKind::Question)
        || kind == Some(TokenKind::LParen)
        || kind == Some(TokenKind::LBracket)
        || kind == Some(TokenKind::Plus)
        || kind == Some(TokenKind::Minus)
        || kind == Some(TokenKind::Star)
        || kind == Some(TokenKind::Slash)
        || kind == Some(TokenKind::Percent)
        || kind == Some(TokenKind::EqualEqual)
        || kind == Some(TokenKind::BangEqual)
        || kind == Some(TokenKind::Less)
        || kind == Some(TokenKind::LessEqual)
        || kind == Some(TokenKind::Greater)
        || kind == Some(TokenKind::GreaterEqual)
        || kind == Some(TokenKind::AmpersandAmpersand)
        || kind == Some(TokenKind::PipePipe)
        || kind == Some(TokenKind::PlusEqual)
    )
}

fn may_follow_generics(kind: Option<TokenKind>) -> (r: bool)
    ensures
        r == follows_generics(kind),
{
    kind == Some(TokenKind::LParen)
        || kind == Some(TokenKind::LBrace)
        || kind == Some(TokenKind::LBracket)
        || kind == Some(TokenKind::Equal)
        || kind == Some(TokenKind::Comma)
        || kind == Some(TokenKind::RParen)
        || kind == Some(TokenKind::RBracket)
        || kind == Some(TokenKind::RBrace)
        || kind == Some(TokenKind::Greater)
        || kind == Some(TokenKind::Semicolon)
}

/// Writes tokens in the standard layout.
pub struct SourceFormatter {
    pub out: Vec<char>,
    pub indent: usize,
    pub line_len: usize,
    pub line_start: bool,
    pub pending_space: bool,
    pub pending_newlines: usize,
    pub pending_code_break: bool,
    pub prev_kind: Option<PrevKind>,
    pub contexts: Vec<Context>,
    pub brace_expectations: Vec<BraceExpectation>,
    pub generic_angle_depth: usize,
    pub at_stmt_start: bool,
    pub in_fn_signature: bool,
    pub in_closure_params: bool,
}

impl SourceFormatter {
    pub open spec fn view(&self) -> FmtV {
        FmtV {
            out: self.out@,
            indent: self.indent,
            line_len: self.line_len,
            line_start: self.line_start,
            pending_space: self.pending_space,
            pending_newlines: self.pending_newlines,
            pending_code_break: self.pending_code_break,
            prev: self.prev_kind,
            contexts: self.contexts@,
            expectations: self.brace_expectations@,
            generic_depth: self.generic_angle_depth,
            at_stmt_start: self.at_stmt_start,
            in_fn_signature: self.in_fn_signature,
            in_closure_params: self.in_closure_params,
        }
    }

    pub fn new() -> (r: SourceFormatter)
        ensures
            r@ == format_start(),
    {
        let r = SourceFormatter {
            out: Vec::new(),
            indent: 0,
            line_len: 0,
            line_start: true,
            pending_space: false,
            pending_newlines: 0,
            pending_code_break: false,
            prev_kind: None,
            contexts: Vec::new(),
            brace_expectations: Vec::new(),
            generic_angle_depth: 0,
            at_stmt_start: true,
            in_fn_signature: false,
            in_closure_params: false,
        };
        assert(r.out@ =~= Seq::<char>::empty());
        assert(r.contexts@ =~= Seq::<Context>::empty());
        assert(r.brace_expectations@ =~= Seq::<BraceExpectation>::empty());
        r
    }

    fn request_space(&mut self)
        ensures
            final(self)@ == old(self)@.request_space(),
    {
        if !self.line_start {
            self.pending_space = true;
        }
    }

    fn clear_pending_space(&mut self)
        ensures
            final(self)@ == old(self)@.clear_space(),
    {
        self.pending_space = false;
    }

    fn request_newline(&mut self, count: usize)
        ensures
            final(self)@ == old(self)@.request_newline(count as nat),
    {
        let wanted: usize = if count <= 2 {
            count
        } else {
            2
        };
        if self.pending_newlines < wanted {
            self.pending_newlines = wanted;
        }
        self.pending_space = false;
    }

    fn trim_trailing_spaces(&mut self)
        ensures
            final(self)@ == old(self)@.trim(),
    {
        let ghost start = self@;
        proof {
            lemma_trimmed_len(self.out@);
        }
        while self.out.len() > 0 && (self.out[self.out.len() - 1] == ' ' || self.out[self.out.len()
            - 1] == '\t')
            invariant
                trimmed(self.out@) == trimmed(start.out),
                self.out@.len() <= start.out.len(),
                self@ == (FmtV {
                    out: self.out@,
                    line_len: if start.line_len >= start.out.len() - self.out@.len() {
                        (start.line_len - (start.out.len() - self.out@.len())) as usize
                    } else {
                        0
                    },
                    ..start
                }),
            decreases self.out@.len(),
        {
            let ghost before = self.out@;
            self.out.pop();
            assert(self.out@ =~= before.drop_last());
            if self.line_len > 0 {
                self.line_len -= 1;
            }
        }
    }

    fn flush_pending_prefix(&mut self)
        ensures
            final(self)@ == old(self)@.flush(),
    {
        if self.pending_newlines > 0 {
            let ghost start = self@;
            self.trim_trailing_spaces();
            let ghost base = self@;
            let count: usize = self.pending_newlines;
            let mut done: usize = 0;
            assert(self.out@ =~= base.out + repeated('\n', 0));
            while done < count
                invariant
                    done <= count,
                    self@ == (FmtV { out: base.out + repeated('\n', done as nat), ..base }),
                decreases count - done,
            {
                self.out.push('\n');
                done += 1;
                assert(self.out@ =~= base.out + repeated('\n', done as nat));
            }
            self.pending_newlines = 0;
            self.line_start = true;
            self.line_len = 0;
        } else if self.pending_space && !self.line_start && !(self.out.len() > 0
            && self.out[self.out.len() - 1] == ' ') {
            self.out.push(' ');
            self.pending_space = false;
            self.line_len = sat_add(self.line_len, 1);
        }
    }

    fn write_indent(&mut self)
        ensures
            final(self)@ == old(self)@.indented(),
    {
        if self.line_start {
            let ghost base = self@;
            let width: usize = four_times(self.indent);
            let mut done: usize = 0;
            assert(self.out@ =~= base.out + repeated(' ', 0));
            while done < width
                invariant
                    done <= width,
                    self@ == (FmtV { out: base.out + repeated(' ', done as nat), ..base }),
                decreases width - done,
            {
                self.out.push(' ');
                done += 1;
                assert(self.out@ =~= base.out + repeated(' ', done as nat));
            }
            self.line_len = width;
            self.line_start = false;
        }
    }

    /// Writes the characters between two positions.
    fn write_chars(&mut self, chars: &Vec<char>, lo: usize, hi: usize)
        requires
            lo <= hi <= chars@.len(),
        ensures
            final(self)@ == old(self)@.write(chars@.subrange(lo as int, hi as int)),
    {
        self.flush_pending_prefix();
        self.write_indent();
        let ghost base = self@;
        let ghost text = chars@.subrange(lo as int, hi as int);
        let mut p: usize = lo;
        assert(self.out@ =~= base.out + text.take(0));
        while p < hi
            invariant
                lo <= p <= hi <= chars@.len(),
                text == chars@.subrange(lo as int, hi as int),
                self@ == (FmtV { out: base.out + text.take(p - lo), ..base }),
            decreases hi - p,
        {
            self.out.push(chars[p]);
            p += 1;
            assert(self.out@ =~= base.out + text.take(p - lo));
        }
        assert(text.take(hi - lo) =~= text);
        self.pending_space = false;
        let mut start: usize = hi;
        while start > lo && chars[start - 1] != '\n'
            invariant
                lo <= start <= hi <= chars@.len(),
                text == chars@.subrange(lo as int, hi as int),
                last_line_start(text, text.len() as int) == last_line_start(text, start - lo),
            decreases start,
        {
            start -= 1;
        }
        if start > lo {
            self.line_start = start == hi;
            self.line_len = hi - start;
        } else {
            self.line_start = false;
            self.line_len = sat_add(self.line_len, hi - lo);
        }
    }

    fn write_raw(&mut self, text: &str)
        ensures
            final(self)@ == old(self)@.write(text@),
    {
        let chars = chars_of(text);
        self.write_chars(&chars, 0, chars.len());
        assert(chars@.subrange(0, chars@.len() as int) =~= text@);
    }

    fn after_operand(&self) -> (r: bool)
        ensures
            r == ends_operand(self@.prev),
    {
        self.prev_kind == Some(PrevKind::Word) || self.prev_kind == Some(PrevKind::RParen)
            || self.prev_kind == Some(PrevKind::RBracket) || self.prev_kind == Some(
            PrevKind::RBrace,
        )
    }

    fn space_before_word(&mut self)
        ensures
            final(self)@ == old(self)@.space_before_word(),
    {
        if self.after_operand() {
            self.request_space();
        }
    }

    fn emit_keyword(&mut self, text: &str, kind: PrevKind, trailing_space: bool)
        ensures
            final(self)@ == old(self)@.keyword(text@, kind, trailing_space),
            final(self).contexts@.len() == old(self).contexts@.len(),
    {
        self.space_before_word();
        self.write_raw(text);
        self.prev_kind = Some(kind);
        self.at_stmt_start = false;
        if trailing_space {
            self.request_space();
        }
    }

    fn emit_token_word(&mut self, input: &FormatInput, index: usize)
        requires
            input.wf(),
            index < input.tokens@.len(),
        ensures
            final(self)@ == old(self)@.word(input.at(index as int).text()),
            final(self).contexts@.len() == old(self).contexts@.len(),
    {
        self.space_before_word();
        assert(tokens_view(input.tokens@)[index as int] == input.tokens@[index as int]@);
        self.write_chars(&input.source, input.tokens[index].start, input.tokens[index].end);
        self.prev_kind = Some(PrevKind::Word);
        self.at_stmt_start = false;
    }

    fn emit_binary_operator(&mut self, text: &str, kind: PrevKind)
        ensures
            final(self)@ == old(self)@.binary(text@, kind),
            final(self).contexts@.len() == old(self).contexts@.len(),
    {
        self.request_space();
        self.write_raw(text);
        self.prev_kind = Some(kind);
        self.request_space();
        self.at_stmt_start = false;
    }

    fn emit_increment_operator(&mut self)
        ensures
            final(self)@ == old(self)@.increment(),
            final(self).contexts@.len() == old(self).contexts@.len(),
    {
        if self.after_operand() {
            self.clear_pending_space();
        }
        self.write_raw("++");
        self.prev_kind = Some(PrevKind::PlusPlus);
        self.at_stmt_start = false;
    }

    fn emit_prefix_operator(&mut self, text: &str, kind: PrevKind, trailing_space: bool)
        ensures
            final(self)@ == old(self)@.prefix(text@, kind, trailing_space),
            final(self).contexts@.len() == old(self).contexts@.len(),
    {
        self.write_raw(text);
        self.prev_kind = Some(kind);
        if trailing_space {
            self.request_space();
        }
        self.at_stmt_start = false;
    }

    /// Writes a sign without a space before it.
    fn emit_tight(&mut self, text: &str, kind: PrevKind)
        ensures
            final(self)@ == old(self)@.tight(text@, kind),
            final(self).contexts@.len() == old(self).contexts@.len(),
    {
        self.clear_pending_space();
        self.write_raw(text);
        self.prev_kind = Some(kind);
    }

    fn emit_generic_open(&mut self)
        ensures
            final(self)@ == old(self)@.generic_open(),
            final(self).contexts@.len() == old(self).contexts@.len(),
    {
        self.emit_tight("<", PrevKind::Less);
        self.generic_angle_depth = sat_add(self.generic_angle_depth, 1);
        self.at_stmt_start = false;
    }

    fn emit_generic_close(&mut self)
        ensures
            final(self)@ == old(self)@.generic_close(),
            final(self).contexts@.len() == old(self).contexts@.len(),
    {
        self.emit_tight(">", PrevKind::Greater);
        self.generic_angle_depth = minus_one(self.generic_angle_depth);
        self.at_stmt_start = false;
    }

    fn current_depths(&self) -> (r: DelimiterDepths)
        ensures
            r == self@.depths(),
    {
        let mut depths = DelimiterDepths { paren: 0, bracket: 0, brace: 0 };
        let mut i: usize = 0;
        while i < self.contexts.len()
            invariant
                i <= self.contexts@.len(),
                depths == depths_of(self.contexts@, i as int),
            decreases self.contexts@.len() - i,
        {
            match self.contexts[i].kind {
                ContextKind::Brace(_) => {
                    depths.brace = sat_add(depths.brace, 1);
                },
                ContextKind::Paren { .. } => {
                    depths.paren = sat_add(depths.paren, 1);
                },
                ContextKind::Bracket => {
                    depths.bracket = sat_add(depths.bracket, 1);
                },
            }
            i += 1;
        }
        depths
    }

    fn push_brace_expectation(&mut self, kind: BraceKind)
        ensures
            final(self)@ == old(self)@.expect_brace(kind),
            final(self).contexts@.len() == old(self).contexts@.len(),
    {
        let depths = self.current_depths();
        self.brace_expectations.push(BraceExpectation { kind, depths });
    }

    fn resolve_brace_kind(&mut self) -> (r: BraceKind)
        ensures
            r == old(self)@.brace_kind(),
            final(self)@ == old(self)@.brace_resolved(),
    {
        let depths = self.current_depths();
        let ghost list = self.brace_expectations@;
        let mut i: usize = self.brace_expectations.len();
        while i > 0
            invariant
                self@ == old(self)@,
                list == self.brace_expectations@,
                i <= list.len(),
                depths == old(self)@.depths(),
                expectation_at(list, depths, list.len() as int) == expectation_at(
                    list,
                    depths,
                    i as int,
                ),
            decreases i,
        {
            if self.brace_expectations[i - 1].depths == depths {
                let found = self.brace_expectations.remove(i - 1);
                return found.kind;
            }
            i -= 1;
        }
        BraceKind::Collection
    }

    fn pop_latest_block_expectation(&mut self)
        ensures
            final(self)@ == old(self)@.drop_block_expectation(),
            final(self).contexts@.len() == old(self).contexts@.len(),
    {
        let ghost list = self.brace_expectations@;
        let mut i: usize = self.brace_expectations.len();
        while i > 0
            invariant
                self@ == old(self)@,
                list == self.brace_expectations@,
                i <= list.len(),
                block_expectation(list, list.len() as int) == block_expectation(list, i as int),
            decreases i,
        {
            if self.brace_expectations[i - 1].kind == BraceKind::Block {
                self.brace_expectations.remove(i - 1);
                return;
            }
            i -= 1;
        }
    }

    fn current_line_len_with_pending_prefix(&self) -> (r: usize)
        ensures
            r == self@.line_len_so_far(),
    {
        let mut len: usize = if self.pending_newlines > 0 {
            0
        } else {
            self.line_len
        };
        if self.pending_newlines > 0 || self.line_start {
            len = sat_add(len, four_times(self.indent));
        }
        if self.pending_space && len > 0 {
            len = sat_add(len, 1);
        }
        len
    }

    fn should_force_multiline_group(
        &self,
        input: &FormatInput,
        index: usize,
        sort: GroupSort,
    ) -> (r:
        bool)
        requires
            input.wf(),
            index < input.tokens@.len(),
        ensures
            r == self@.too_wide(input.at(index as int), sort),
    {
        match input.find_group_close_and_top_level_commas(index, sort) {
            Some((close, commas)) => {
                let ghost ts = tokens_view(input.tokens@);
                assert(ts[index as int] == input.tokens@[index as int]@);
                assert(ts[close as int] == input.tokens@[close as int]@);
                assert(ts[index as int].end <= ts[close as int].start);
                if commas == 0 {
                    return false;
                }
                let width: usize = input.normalized_inline_width(
                    input.tokens[index].start,
                    input.tokens[close].end,
                );
                sat_add(sat_add(self.current_line_len_with_pending_prefix(), width), commas)
                    > SOFT_MAX_LINE_WIDTH
            },
            None => false,
        }
    }

    fn push_context(&mut self, kind: ContextKind, folded: bool)
        ensures
            final(self)@ == old(self)@.push_context(kind, folded),
    {
        self.contexts.push(Context { kind, indented: folded });
        if folded {
            self.indent = sat_add(self.indent, 1);
            self.request_newline(1);
        }
    }

    fn emit_open_paren(&mut self, input: &FormatInput, index: usize)
        requires
            input.wf(),
            index < input.tokens@.len(),
        ensures
            final(self)@ == old(self)@.open_paren(input.at(index as int)),
            final(self).contexts@.len() == old(self).contexts@.len() + 1,
    {
        let needs_space = self.prev_kind == Some(PrevKind::If) || self.prev_kind == Some(
            PrevKind::For,
        ) || self.prev_kind == Some(PrevKind::While) || self.prev_kind == Some(PrevKind::Match)
            || self.prev_kind == Some(PrevKind::Import) || self.prev_kind == Some(PrevKind::Equal);
        if needs_space {
            self.request_space();
        } else {
            self.clear_pending_space();
        }
        self.write_raw("(");
        let for_head = self.prev_kind == Some(PrevKind::For);
        let should_fold = self.should_force_multiline_group(input, index, GroupSort::Paren)
            && !input.next_is(index, TokenKind::RParen);
        self.push_context(ContextKind::Paren { for_head }, should_fold);
        self.prev_kind = Some(PrevKind::LParen);
        self.at_stmt_start = false;
    }

    fn emit_open_bracket(&mut self, input: &FormatInput, index: usize)
        requires
            input.wf(),
            index < input.tokens@.len(),
        ensures
            final(self)@ == old(self)@.open_bracket(input.at(index as int)),
            final(self).contexts@.len() == old(self).contexts@.len() + 1,
    {
        if self.after_operand() || self.prev_kind == Some(PrevKind::Dot) || self.prev_kind == Some(
            PrevKind::OptionalAccess,
        ) {
            self.clear_pending_space();
        }
        self.write_raw("[");
        let should_fold = self.should_force_multiline_group(input, index, GroupSort::Bracket)
            && !input.next_is(index, TokenKind::RBracket);
        self.push_context(ContextKind::Bracket, should_fold);
        self.prev_kind = Some(PrevKind::LBracket);
        self.at_stmt_start = false;
    }

    fn emit_open_brace(&mut self, input: &FormatInput, index: usize)
        requires
            input.wf(),
            index < input.tokens@.len(),
        ensures
            final(self)@ == old(self)@.open_brace(input.at(index as int)),
            final(self).contexts@.len() == old(self).contexts@.len() + 1,
    {
        let kind = self.resolve_brace_kind();
        let needs_space = !(self.prev_kind == Some(PrevKind::PathSeparator) || self.prev_kind
            == Some(PrevKind::LParen) || self.prev_kind == Some(PrevKind::LBracket))
            && !self.line_start;
        if needs_space {
            self.request_space();
        } else {
            self.clear_pending_space();
        }
        self.write_raw("{");
        let empty = input.next_is(index, TokenKind::RBrace);
        let block_like = kind != BraceKind::Collection;
        if block_like && !empty {
            self.contexts.push(Context { kind: ContextKind::Brace(kind), indented: true });
            self.indent = sat_add(self.indent, 1);
            self.pending_code_break = true;
        } else {
            let should_fold = !block_like && !empty && self.should_force_multiline_group(
                input,
                index,
                GroupSort::Brace,
            );
            self.push_context(ContextKind::Brace(kind), should_fold);
        }
        self.prev_kind = Some(PrevKind::LBrace);
        self.at_stmt_start = block_like;
        self.in_fn_signature = false;
    }

    /// Takes the innermost group off, and asks for the line feed before its end.
    fn prepare_close(&mut self) -> (r: Context)
        requires
            old(self).contexts@.len() > 0,
        ensures
            r == old(self)@.contexts.last(),
            final(self)@ == old(self)@.closing(),
    {
        let ghost before = self.contexts@;
        let last: usize = self.contexts.len() - 1;
        let context = self.contexts[last];
        self.contexts.pop();
        assert(self.contexts@ =~= before.drop_last());
        if context.indented {
            self.indent = minus_one(self.indent);
            if !self.line_start && !(self.prev_kind == Some(PrevKind::LBrace) || self.prev_kind
                == Some(PrevKind::LBracket) || self.prev_kind == Some(PrevKind::LParen)) {
                self.request_newline(1);
            }
        }
        self.clear_pending_space();
        context
    }

    fn emit_close_brace(&mut self, input: &FormatInput, index: usize)
        requires
            index < input.tokens@.len(),
            old(self).contexts@.len() > 0,
        ensures
            final(self)@ == old(self)@.close_brace(input.at(index as int)),
            final(self).contexts@.len() == old(self).contexts@.len() - 1,
    {
        let context = self.prepare_close();
        self.write_raw("}");
        self.prev_kind = Some(PrevKind::RBrace);
        self.pending_code_break = false;
        let holds_statements = context.kind == ContextKind::Brace(BraceKind::Block) || context.kind
            == ContextKind::Brace(BraceKind::StructBody);
        if holds_statements && should_break_after_block(input.peek_next(index)) {
            self.pending_code_break = true;
            self.at_stmt_start = true;
        } else {
            self.at_stmt_start = false;
        }
    }

    fn emit_close_delimiter(&mut self, text: &str, prev: PrevKind)
        requires
            old(self).contexts@.len() > 0,
        ensures
            final(self)@ == old(self)@.close_group(text@, prev),
            final(self).contexts@.len() == old(self).contexts@.len() - 1,
    {
        let _ = self.prepare_close();
        self.write_raw(text);
        self.prev_kind = Some(prev);
        self.pending_code_break = false;
        self.at_stmt_start = false;
    }

    fn emit_pipe(&mut self)
        ensures
            final(self)@ == old(self)@.pipe(),
            final(self).contexts@.len() == old(self).contexts@.len(),
    {
        self.write_raw("|");
        self.prev_kind = Some(PrevKind::Pipe);
        if self.in_closure_params {
            self.in_closure_params = false;
            self.request_space();
        } else {
            self.in_closure_params = true;
        }
        self.at_stmt_start = false;
    }

    fn context_kind(&self) -> (r: Option<Context>)
        ensures
            r == self@.last_context(),
    {
        if self.contexts.len() > 0 {
            Some(self.contexts[self.contexts.len() - 1])
        } else {
            None
        }
    }

    fn current_context_breaks_after_commas(&self) -> (r: bool)
        ensures
            r == self@.breaks_after_commas(),
    {
        match self.context_kind() {
            Some(context) => context.indented && match context.kind {
                ContextKind::Paren { .. } => true,
                ContextKind::Bracket => true,
                ContextKind::Brace(kind) => kind == BraceKind::Collection,
            },
            None => false,
        }
    }

    fn emit_comma(&mut self, input: &FormatInput, index: usize)
        requires
            index < input.tokens@.len(),
        ensures
            final(self)@ == old(self)@.comma(input.at(index as int)),
            final(self).contexts@.len() == old(self).contexts@.len(),
    {
        self.emit_tight(",", PrevKind::Comma);
        let generic = self.generic_angle_depth > 0;
        let listing = match self.context_kind() {
            Some(context) => context.kind == ContextKind::Brace(BraceKind::MatchBody)
                || context.kind == ContextKind::Brace(BraceKind::StructBody),
            None => false,
        };
        if !generic && listing {
            self.pending_code_break = true;
            self.at_stmt_start = true;
        } else if generic {
            self.request_space();
        } else if self.current_context_breaks_after_commas() {
            self.request_newline(1);
        } else if !input.next_is_closer(index) {
            self.request_space();
        }
    }

    fn emit_colon(&mut self, input: &FormatInput, index: usize)
        requires
            index < input.tokens@.len(),
        ensures
            final(self)@ == old(self)@.colon(input.at(index as int)),
            final(self).contexts@.len() == old(self).contexts@.len(),
    {
        if input.next_is(index, TokenKind::Colon) {
            self.emit_tight("::", PrevKind::PathSeparator);
        } else {
            self.emit_tight(":", PrevKind::Colon);
            let slice = match self.context_kind() {
                Some(context) => context.kind == ContextKind::Bracket,
                None => false,
            };
            if !slice && !input.next_is_closer(index) {
                self.request_space();
            }
        }
    }

    fn emit_question(&mut self, input: &FormatInput, index: usize)
        requires
            index < input.tokens@.len(),
        ensures
            final(self)@ == old(self)@.question(input.at(index as int)),
            final(self).contexts@.len() == old(self).contexts@.len(),
    {
        if input.next_is(index, TokenKind::Dot) {
            self.emit_tight("?.", PrevKind::OptionalAccess);
        } else {
            self.clear_pending_space();
            self.write_raw("?");
        }
    }

    fn emit_semicolon(&mut self, input: &FormatInput, index: usize)
        requires
            index < input.tokens@.len(),
        ensures
            final(self)@ == old(self)@.semicolon(input.at(index as int)),
            final(self).contexts@.len() == old(self).contexts@.len(),
    {
        self.emit_tight(";", PrevKind::Semicolon);
        let for_head = match self.context_kind() {
            Some(context) => context.kind == (ContextKind::Paren { for_head: true }),
            None => false,
        };
        if for_head {
            if !input.next_is(index, TokenKind::RParen) {
                self.request_space();
            }
        } else {
            self.pending_code_break = true;
            self.at_stmt_start = true;
            self.in_fn_signature = false;
            self.pop_latest_block_expectation();
        }
    }

    fn emit_equal(&mut self)
        ensures
            final(self)@ == old(self)@.equal(),
            final(self).contexts@.len() == old(self).contexts@.len(),
    {
        self.emit_binary_operator("=", PrevKind::Equal);
        self.in_fn_signature = false;
        self.pop_latest_block_expectation();
    }

    fn emit_fat_arrow(&mut self, input: &FormatInput, index: usize)
        requires
            index < input.tokens@.len(),
        ensures
            final(self)@ == old(self)@.fat_arrow(input.at(index as int)),
            final(self).contexts@.len() == old(self).contexts@.len(),
    {
        self.emit_binary_operator("=>", PrevKind::FatArrow);
        if input.fat_arrow_is_if_branch(index) {
            self.push_brace_expectation(BraceKind::Block);
        }
    }

    fn emit_star(&mut self)
        ensures
            final(self)@ == old(self)@.star(),
            final(self).contexts@.len() == old(self).contexts@.len(),
    {
        if self.prev_kind == Some(PrevKind::PathSeparator) || self.prev_kind == Some(
            PrevKind::LBrace,
        ) || self.prev_kind == Some(PrevKind::Comma) {
            self.emit_tight("*", PrevKind::Star);
        } else {
            self.emit_binary_operator("*", PrevKind::Star);
        }
    }

    fn emit_minus(&mut self, input: &FormatInput, index: usize)
        requires
            index < input.tokens@.len(),
        ensures
            final(self)@ == old(self)@.minus(input.at(index as int)),
            final(self).contexts@.len() == old(self).contexts@.len(),
    {
        if self.in_fn_signature && input.next_is(index, TokenKind::Greater) {
            self.request_space();
            self.write_raw("->");
            self.prev_kind = Some(PrevKind::ReturnArrow);
            self.request_space();
        } else if !self.after_operand() {
            self.emit_prefix_operator("-", PrevKind::Minus, false);
        } else {
            self.emit_binary_operator("-", PrevKind::Minus);
        }
    }

    fn emit_pipe_pipe(&mut self)
        ensures
            final(self)@ == old(self)@.pipe_pipe(),
            final(self).contexts@.len() == old(self).contexts@.len(),
    {
        if !self.after_operand() {
            self.emit_prefix_operator("||", PrevKind::PipePipe, true);
        } else {
            self.emit_binary_operator("||", PrevKind::OrOr);
        }
    }

    fn starts_generic_angle_group(&self, input: &FormatInput, index: usize) -> (r: bool)
        requires
            index < input.tokens@.len(),
        ensures
            r == self@.opens_generics(input.at(index as int)),
    {
        match input.find_generic_angle_group_close(index) {
            Some(close) => {
                let next = input.peek_next(close);
                if self.prev_kind == Some(PrevKind::PathSeparator) {
                    next == Some(TokenKind::LParen)
                } else {
                    may_follow_generics(next)
                }
            },
            None => false,
        }
    }

    fn emit_less(&mut self, input: &FormatInput, index: usize)
        requires
            index < input.tokens@.len(),
        ensures
            final(self)@ == old(self)@.less(input.at(index as int)),
            final(self).contexts@.len() == old(self).contexts@.len(),
    {
        if self.starts_generic_angle_group(input, index) {
            self.emit_generic_open();
        } else {
            self.emit_binary_operator("<", PrevKind::Less);
        }
    }

    fn emit_greater(&mut self)
        ensures
            final(self)@ == old(self)@.greater(),
            final(self).contexts@.len() == old(self).contexts@.len(),
    {
        if self.generic_angle_depth > 0 {
            self.emit_generic_close();
        } else {
            self.emit_binary_operator(">", PrevKind::Greater);
        }
    }

    fn emit_fn_keyword(&mut self)
        ensures
            final(self)@ == old(self)@.fn_keyword(),
            final(self).contexts@.len() == old(self).contexts@.len(),
    {
        self.emit_keyword("fn", PrevKind::Fn, true);
        self.in_fn_signature = true;
        self.push_brace_expectation(BraceKind::Block);
    }

    fn emit_if_keyword(&mut self, input: &FormatInput, index: usize)
        requires
            index < input.tokens@.len(),
        ensures
            final(self)@ == old(self)@.if_keyword(input.at(index as int)),
            final(self).contexts@.len() == old(self).contexts@.len(),
    {
        self.emit_keyword("if", PrevKind::If, true);
        if self.at_stmt_start && !check_if_expression_start(&input.tokens, index) {
            self.push_brace_expectation(BraceKind::Block);
        }
    }

    fn emit_else_keyword(&mut self, input: &FormatInput, index: usize)
        requires
            index < input.tokens@.len(),
        ensures
            final(self)@ == old(self)@.else_keyword(input.at(index as int)),
            final(self).contexts@.len() == old(self).contexts@.len(),
    {
        self.emit_keyword("else", PrevKind::Else, true);
        if !input.next_is(index, TokenKind::If) {
            self.push_brace_expectation(BraceKind::Block);
        }
    }

    /// Writes the token at a position, and tells how many tokens were written.
    #[verifier::spinoff_prover]
    #[verifier::rlimit(60)]
    fn emit_token(&mut self, input: &FormatInput, index: usize) -> (r: usize)
        requires
            input.wf(),
            index < input.tokens@.len(),
            closes(input.tokens@[index as int].kind) ==> old(self).contexts@.len() > 0,
        ensures
            final(self)@ == old(self)@.token(input.at(index as int)),
            r == old(self)@.token_width(input.at(index as int)),
            final(self).contexts@.len() == old(self).contexts@.len() + (if opens(
                input.tokens@[index as int].kind,
            ) {
                1int
            } else if closes(input.tokens@[index as int].kind) {
                -1int
            } else {
                0int
            }),
    {
        reveal(FmtV::token);
        let kind = input.tokens[index].kind;
        let ghost at = input.at(index as int);
        assert(at.ts[index as int].kind == kind);
        let width: usize = self.tokens_at_once(input, index);
        let named = self.prev_kind == Some(PrevKind::PathSeparator) || self.prev_kind == Some(
            PrevKind::Dot,
        ) || self.prev_kind == Some(PrevKind::OptionalAccess);
        if named && is_keyword_token(kind) {
            self.emit_token_word(input, index);
            return width;
        }
        match kind {
            TokenKind::Pub => {
                self.emit_keyword("pub", PrevKind::Pub, true);
            },
            TokenKind::Use => {
                self.emit_keyword("use", PrevKind::Use, true);
            },
            TokenKind::Import => {
                self.emit_keyword("import", PrevKind::Import, true);
            },
            TokenKind::From => {
                self.emit_keyword("from", PrevKind::From, true);
            },
            TokenKind::As => {
                self.emit_keyword("as", PrevKind::As, true);
            },
            TokenKind::Fn => {
                self.emit_fn_keyword();
            },
            TokenKind::Struct => {
                self.emit_keyword("struct", PrevKind::Struct, true);
                self.push_brace_expectation(BraceKind::StructBody);
            },
            TokenKind::Let => {
                self.emit_keyword("let", PrevKind::Let, true);
            },
            TokenKind::For => {
                self.emit_keyword("for", PrevKind::For, true);
                self.push_brace_expectation(BraceKind::Block);
            },
            TokenKind::If => {
                self.emit_if_keyword(input, index);
            },
            TokenKind::Else => {
                self.emit_else_keyword(input, index);
            },
            TokenKind::Match => {
                self.emit_keyword("match", PrevKind::Match, true);
                self.push_brace_expectation(BraceKind::MatchBody);
            },
            TokenKind::While => {
                self.emit_keyword("while", PrevKind::While, true);
                self.push_brace_expectation(BraceKind::Block);
            },
            TokenKind::Break => {
                self.emit_keyword("break", PrevKind::Break, false);
            },
            TokenKind::Continue => {
                self.emit_keyword("continue", PrevKind::Continue, false);
            },
            TokenKind::Ident
            | TokenKind::Int
            | TokenKind::IntMinMagnitude
            | TokenKind::Float
            | TokenKind::String
            | TokenKind::True
            | TokenKind::False
            | TokenKind::Null => {
                self.emit_token_word(input, index);
            },
            TokenKind::LParen => {
                self.emit_open_paren(input, index);
            },
            TokenKind::RParen => {
                self.emit_close_delimiter(")", PrevKind::RParen);
            },
            TokenKind::LBracket => {
                self.emit_open_bracket(input, index);
            },
            TokenKind::RBracket => {
                self.emit_close_delimiter("]", PrevKind::RBracket);
            },
            TokenKind::LBrace => {
                self.emit_open_brace(input, index);
            },
            TokenKind::RBrace => {
                self.emit_close_brace(input, index);
            },
            TokenKind::Comma => {
                self.emit_comma(input, index);
            },
            TokenKind::Colon => {
                self.emit_colon(input, index);
            },
            TokenKind::Question => {
                self.emit_question(input, index);
            },
            TokenKind::Dot => {
                self.emit_tight(".", PrevKind::Dot);
            },
            TokenKind::Ellipsis => {
                self.emit_tight("...", PrevKind::Ellipsis);
            },
            TokenKind::Semicolon => {
                self.emit_semicolon(input, index);
            },
            TokenKind::Equal => {
                self.emit_equal();
            },
            TokenKind::FatArrow => {
                self.emit_fat_arrow(input, index);
            },
            TokenKind::PlusPlus => {
                self.emit_increment_operator();
            },
            TokenKind::Plus => {
                self.emit_binary_operator("+", PrevKind::Plus);
            },
            TokenKind::PlusEqual => {
                self.emit_binary_operator("+=", PrevKind::PlusEqual);
            },
            TokenKind::Star => {
                self.emit_star();
            },
            TokenKind::Slash => {
                self.emit_binary_operator("/", PrevKind::Slash);
            },
            TokenKind::Percent => {
                self.emit_binary_operator("%", PrevKind::Percent);
            },
            TokenKind::Minus => {
                self.emit_minus(input, index);
            },
            TokenKind::Bang => {
                self.emit_prefix_operator("!", PrevKind::Bang, false);
            },
            TokenKind::BangEqual => {
                self.emit_binary_operator("!=", PrevKind::BangEq);
            },
            TokenKind::Ampersand => {
                self.emit_prefix_operator("&", PrevKind::Ampersand, false);
            },
            TokenKind::AmpersandAmpersand => {
                self.emit_binary_operator("&&", PrevKind::AndAnd);
            },
            TokenKind::PipePipe => {
                self.emit_pipe_pipe();
            },
            TokenKind::Pipe => {
                self.emit_pipe();
            },
            TokenKind::EqualEqual => {
                self.emit_binary_operator("==", PrevKind::EqEq);
            },
            TokenKind::Less => {
                self.emit_less(input, index);
            },
            TokenKind::LessEqual => {
                self.emit_binary_operator("<=", PrevKind::LessEq);
            },
            TokenKind::Greater => {
                self.emit_greater();
            },
            TokenKind::GreaterEqual => {
                self.emit_binary_operator(">=", PrevKind::GreaterEq);
            },
            TokenKind::Eof => {},
        }
        width
    }

    fn tokens_at_once(&self, input: &FormatInput, index: usize) -> (r: usize)
        requires
            index < input.tokens@.len(),
        ensures
            r == self@.token_width(input.at(index as int)),
    {
        let kind = input.tokens[index].kind;
        if (kind == TokenKind::Colon && input.next_is(index, TokenKind::Colon)) || (kind
            == TokenKind::Question && input.next_is(index, TokenKind::Dot)) || (kind
            == TokenKind::Minus && self.in_fn_signature && input.next_is(
            index,
            TokenKind::Greater,
        )) {
            2
        } else {
            1
        }
    }

    fn should_collapse_gap_line_break(&self, input: &FormatInput, index: usize) -> (r: bool)
        requires
            index < input.tokens@.len(),
        ensures
            r == self@.collapses_line_break(input.at(index as int)),
    {
        if self.pending_code_break {
            return false;
        }
        if self.generic_angle_depth > 0 {
            return true;
        }
        let next = input.peek(index);
        if is_continuation_operator(next) {
            return true;
        }
        if index == 0 {
            return false;
        }
        let previous = input.peek(index - 1);
        if is_continuation_operator(previous) {
            return true;
        }
        assert(tokens_view(input.tokens@)[index - 1] == input.tokens@[index - 1]@);
        input.tokens[index - 1].kind == TokenKind::Ident && same_text(
            input.tokens[index - 1].text.as_str(),
            "return",
        ) && !(next == Some(TokenKind::Semicolon) || next == Some(TokenKind::RBrace) || next
            == Some(TokenKind::Eof))
    }

    fn note_context_newline(&mut self)
        ensures
            final(self)@ == old(self)@.note_newline(),
            final(self).contexts@.len() == old(self).contexts@.len(),
    {
        if self.contexts.len() > 0 {
            let last: usize = self.contexts.len() - 1;
            let context = self.contexts[last];
            if !context.indented && !(context.kind == ContextKind::Brace(BraceKind::Block)
                || context.kind == ContextKind::Brace(BraceKind::MatchBody) || context.kind
                == ContextKind::Brace(BraceKind::StructBody)) {
                self.contexts.set(last, Context { kind: context.kind, indented: true });
                self.indent = sat_add(self.indent, 1);
            }
        }
    }

    /// Handles a run of line feeds, and tells whether a line break was kept so far.
    fn emit_newlines(
        &mut self,
        input: &FormatInput,
        index: usize,
        count: usize,
        saw_line_break: bool,
    ) -> (r: bool)
        requires
            index < input.tokens@.len(),
        ensures
            (final(self)@, r) == old(self)@.gap_newlines(
                input.at(index as int),
                count as nat,
                saw_line_break,
            ),
            final(self).contexts@.len() == old(self).contexts@.len(),
    {
        if self.should_collapse_gap_line_break(input, index) {
            self.request_space();
            saw_line_break
        } else {
            self.note_context_newline();
            self.request_newline(count);
            self.pending_code_break = false;
            true
        }
    }

    fn emit_line_comment(&mut self, input: &FormatInput, lo: usize, hi: usize, saw_line_break: bool)
        requires
            lo <= hi <= input.source@.len(),
        ensures
            final(self)@ == old(self)@.line_comment(
                input.source@.subrange(lo as int, hi as int),
                saw_line_break,
            ),
            final(self).contexts@.len() == old(self).contexts@.len(),
    {
        if !(self.line_start || saw_line_break) {
            self.request_space();
        }
        self.write_chars(&input.source, lo, hi);
    }

    fn emit_comment_newline(&mut self)
        ensures
            final(self)@ == old(self)@.comment_newline(),
            final(self).contexts@.len() == old(self).contexts@.len(),
    {
        self.note_context_newline();
        self.request_newline(1);
        self.pending_code_break = false;
    }

    fn emit_block_comment(
        &mut self,
        input: &FormatInput,
        lo: usize,
        hi: usize,
        saw_line_break: bool,
    ) -> (r: bool)
        requires
            lo <= hi <= input.source@.len(),
        ensures
            (final(self)@, r) == old(self)@.block_comment(
                input.source@.subrange(lo as int, hi as int),
                saw_line_break,
            ),
            final(self).contexts@.len() == old(self).contexts@.len(),
    {
        if holds_newline(&input.source, lo, hi) {
            self.note_context_newline();
            if !self.line_start {
                self.request_newline(1);
            }
            self.write_chars(&input.source, lo, hi);
            self.pending_code_break = false;
            true
        } else if self.line_start || saw_line_break {
            self.write_chars(&input.source, lo, hi);
            saw_line_break
        } else {
            self.request_space();
            self.write_chars(&input.source, lo, hi);
            self.request_space();
            saw_line_break
        }
    }

    /// Handles what stands between two tokens, and tells whether a line break was kept.
    #[verifier::spinoff_prover]
    fn emit_gap(&mut self, input: &FormatInput, index: usize, lo: usize, hi: usize) -> (r: bool)
        requires
            index < input.tokens@.len(),
            lo <= hi <= input.source@.len(),
        ensures
            (final(self)@, r) == gap(
                old(self)@,
                input.at(index as int),
                lo as int,
                hi as int,
                false,
            ),
            final(self).contexts@.len() == old(self).contexts@.len(),
    {
        let ghost at = input.at(index as int);
        let mut cursor: usize = lo;
        let mut saw_line_break = false;
        while cursor < hi
            invariant
                lo <= cursor <= hi <= input.source@.len(),
                index < input.tokens@.len(),
                at == input.at(index as int),
                self.contexts@.len() == old(self).contexts@.len(),
                gap(old(self)@, at, lo as int, hi as int, false) == gap(
                    self@,
                    at,
                    cursor as int,
                    hi as int,
                    saw_line_break,
                ),
            decreases hi - cursor,
        {
            let c = input.source[cursor];
            if c == '\n' {
                let end: usize = end_of_newlines(&input.source, cursor + 1, hi);
                saw_line_break = self.emit_newlines(input, index, end - cursor, saw_line_break);
                cursor = end;
            } else if c == '/' && hi - cursor > 1 && input.source[cursor + 1] == '/' {
                let end: usize = end_of_line(&input.source, cursor + 2, hi);
                self.emit_line_comment(input, cursor, end, saw_line_break);
                if end < hi {
                    self.emit_comment_newline();
                    saw_line_break = true;
                    cursor = end + 1;
                } else {
                    cursor = end;
                }
            } else if c == '/' && hi - cursor > 1 && input.source[cursor + 1] == '*' {
                let close: usize = end_of_comment(&input.source, cursor + 2, hi);
                let end: usize = if hi - close >= 2 {
                    close + 2
                } else {
                    hi
                };
                saw_line_break = self.emit_block_comment(input, cursor, end, saw_line_break);
                cursor = end;
            } else {
                cursor += 1;
            }
        }
        saw_line_break
    }

    /// Writes what stands before a token and the token, and tells how many tokens were
    /// written.
    fn emit_next(&mut self, input: &FormatInput, index: usize, cursor: usize) -> (r: usize)
        requires
            input.wf(),
            index < input.tokens@.len(),
            cursor == input.at(index as int).gap_start(),
            cursor <= input.tokens@[index as int].start,
            closes(input.tokens@[index as int].kind) ==> old(self).contexts@.len() > 0,
        ensures
            final(self)@ == before_token(old(self)@, input.at(index as int)).token(
                input.at(index as int),
            ),
            r == before_token(old(self)@, input.at(index as int)).token_width(
                input.at(index as int),
            ),
            final(self).contexts@.len() == old(self).contexts@.len() + (if opens(
                input.tokens@[index as int].kind,
            ) {
                1int
            } else if closes(input.tokens@[index as int].kind) {
                -1int
            } else {
                0int
            }),
    {
        assert(tokens_view(input.tokens@)[index as int] == input.tokens@[index as int]@);
        let saw_line_break = self.emit_gap(input, index, cursor, input.tokens[index].start);
        if self.pending_code_break && !saw_line_break {
            self.request_newline(1);
        }
        if saw_line_break {
            self.pending_code_break = false;
        }
        self.emit_token(input, index)
    }
}

proof fn lemma_trimmed_len(s: Seq<char>)
    ensures
        trimmed(s).len() <= s.len(),
    decreases s.len(),
{
    if s.len() > 0 {
        lemma_trimmed_len(s.drop_last());
    }
}

fn holds_newline(chars: &Vec<char>, lo: usize, hi: usize) -> (r: bool)
    requires
        lo <= hi <= chars@.len(),
    ensures
        r == chars@.subrange(lo as int, hi as int).contains('\n'),
{
    let ghost text = chars@.subrange(lo as int, hi as int);
    let mut p: usize = lo;
    while p < hi
        invariant
            lo <= p <= hi <= chars@.len(),
            text == chars@.subrange(lo as int, hi as int),
            forall|i: int| 0 <= i < p - lo ==> text[i] != '\n',
        decreases hi - p,
    {
        if chars[p] == '\n' {
            assert(text[p - lo] == '\n');
            return true;
        }
        p += 1;
    }
    false
}

fn end_of_newlines(chars: &Vec<char>, from: usize, hi: usize) -> (r: usize)
    requires
        from <= hi <= chars@.len(),
    ensures
        r == newline_run(chars@, from as int, hi as int),
        from <= r <= hi,
{
    let mut p: usize = from;
    while p < hi && chars[p] == '\n'
        invariant
            from <= p <= hi <= chars@.len(),
            newline_run(chars@, from as int, hi as int) == newline_run(chars@, p as int, hi as int),
        decreases hi - p,
    {
        p += 1;
    }
    p
}

fn end_of_line(chars: &Vec<char>, from: usize, hi: usize) -> (r: usize)
    requires
        from <= hi <= chars@.len(),
    ensures
        r == to_newline(chars@, from as int, hi as int),
        from <= r <= hi,
{
    let mut p: usize = from;
    while p < hi && chars[p] != '\n'
        invariant
            from <= p <= hi <= chars@.len(),
            to_newline(chars@, from as int, hi as int) == to_newline(chars@, p as int, hi as int),
        decreases hi - p,
    {
        p += 1;
    }
    p
}

fn end_of_comment(chars: &Vec<char>, from: usize, hi: usize) -> (r: usize)
    requires
        from <= hi <= chars@.len(),
    ensures
        r == to_comment_close(chars@, from as int, hi as int),
        from <= r <= hi,
{
    let mut p: usize = from;
    while hi - p > 1 && !(chars[p] == '*' && chars[p + 1] == '/')
        invariant
            from <= p <= hi <= chars@.len(),
            to_comment_close(chars@, from as int, hi as int) == to_comment_close(
                chars@,
                p as int,
                hi as int,
            ),
        decreases hi - p,
    {
        p += 1;
    }
    p
}

/// The text of tokens that stand in it, in the standard layout.
fn format_tokens(input: &FormatInput) -> (r: String)
    requires
        input.wf(),
        closers_matched(tokens_view(input.tokens@)),
        forall|i: int|
            0 <= i < input.tokens@.len() - 1 ==> (#[trigger] input.tokens@[i]).kind
                != TokenKind::Eof,
    ensures
        r@ == formatted(input.source@, tokens_view(input.tokens@)),
{
    let ghost ts = tokens_view(input.tokens@);
    let total: usize = input.tokens.len();
    let mut formatter = SourceFormatter::new();
    let mut index: usize = 0;
    let mut cursor: usize = 0;
    let ghost goal = formatted_from(format_start(), input.at(0));
    let mut done = false;
    while index < total && !done
        invariant
            input.wf(),
            ts == tokens_view(input.tokens@),
            total == ts.len(),
            index <= total,
            closers_matched(ts),
            forall|i: int|
                0 <= i < input.tokens@.len() - 1 ==> (#[trigger] input.tokens@[i]).kind
                    != TokenKind::Eof,
            cursor == input.at(index as int).gap_start(),
            !done ==> formatter.contexts@.len() == open_groups(ts, index as int),
            done ==> formatter@ == goal,
            !done ==> formatted_from(formatter@, input.at(index as int)) == goal,
        decreases total - index, (if done {
            0int
        } else {
            1int
        }),
    {
        assert(ts[index as int] == input.tokens@[index as int]@);
        if index > 0 {
            assert(ts[index - 1].end <= ts[index as int].start);
        }
        if input.tokens[index].kind == TokenKind::Eof {
            let _ = formatter.emit_gap(input, index, cursor, input.tokens[index].start);
            done = true;
        } else {
            assert(open_groups(ts, index + 1) >= 0);
            let width: usize = formatter.emit_next(input, index, cursor);
            assert(width == 2 ==> open_groups(ts, index + 2) == open_groups(ts, index + 1));
            index += width;
            assert(ts[index - 1] == input.tokens@[index - 1]@);
            cursor = input.tokens[index - 1].end;
        }
    }
    if !(formatter.out.len() > 0 && formatter.out[formatter.out.len() - 1] == '\n') {
        formatter.trim_trailing_spaces();
        formatter.out.push('\n');
    }
    let len: usize = formatter.out.len();
    assert(formatter.out@.subrange(0, len as int) =~= formatter.out@);
    text_between(&formatter.out, 0, len)
}

/// Whether every closing delimiter has an opening one before it.
fn delimiters_match(tokens: &Vec<Token>) -> (r: bool)
    ensures
        r == closers_matched(tokens_view(tokens@)),
{
    let ghost ts = tokens_view(tokens@);
    let total: usize = tokens.len();
    let mut open: usize = 0;
    let mut i: usize = 0;
    while i < total
        invariant
            ts == tokens_view(tokens@),
            total == ts.len(),
            i <= total,
            open <= i,
            open == open_groups(ts, i as int),
            forall|n: int| 0 <= n <= i ==> #[trigger] open_groups(ts, n) >= 0,
        decreases total - i,
    {
        let kind = tokens[i].kind;
        assert(ts[i as int].kind == kind);
        if kind == TokenKind::LParen || kind == TokenKind::LBracket || kind == TokenKind::LBrace {
            open += 1;
        } else if kind == TokenKind::RParen || kind == TokenKind::RBracket || kind
            == TokenKind::RBrace {
            if open == 0 {
                assert(open_groups(ts, i + 1) < 0);
                return false;
            }
            open -= 1;
        }
        i += 1;
    }
    true
}

fn lexed_input(source: &str, dialect: &Dialect) -> (r: Result<FormatInput, ParseError>)
    ensures
        match lexed_all(*dialect, source@, 0, 0) {
            Ok(ts) => {
                &&& r is Ok
                &&& r->Ok_0.source@ == source@
                &&& tokens_view(r->Ok_0.tokens@) == ts
                &&& r->Ok_0.wf()
                &&& forall|i: int|
                    0 <= i < r->Ok_0.tokens@.len() - 1 ==> (#[trigger] r->Ok_0.tokens@[i]).kind
                        != TokenKind::Eof
            },
            Err(e) => r is Err && r->Err_0@ == e,
        },
{
    let _ = byte_len(source);
    proof {
        law_tokens_are_ordered(*dialect, source@, 0, 0);
    }
    match lex_tokens(source, 0, dialect) {
        Ok(tokens) => {
            assert forall|i: int| 0 <= i < tokens@.len() - 1 implies (#[trigger] tokens@[i]).kind
                != TokenKind::Eof by {
                assert(tokens_view(tokens@)[i].kind == tokens@[i].kind);
            }
            Ok(FormatInput { source: chars_of(source), tokens })
        },
        Err(e) => Err(e),
    }
}

/// A text in the standard layout, or what is wrong with its tokens. Every closing
/// delimiter needs an opening one before it.
pub fn format_source(source: &str, dialect: &Dialect) -> (r: Result<String, ParseError>)
    requires
        lexed_all(*dialect, source@, 0, 0) matches Ok(ts) ==> closers_matched(ts),
    ensures
        match lexed_all(*dialect, source@, 0, 0) {
            Ok(ts) => r is Ok && r->Ok_0@ == formatted(source@, ts),
            Err(e) => r is Err && r->Err_0@ == e,
        },
{
    match lexed_input(source, dialect) {
        Ok(input) => Ok(format_tokens(&input)),
        Err(e) => Err(e),
    }
}

/// A text in the standard layout, what is wrong with its tokens, or nothing where a
/// closing delimiter has no opening one before it.
pub fn try_format_source(source: &str, dialect: &Dialect) -> (r: Option<Result<String, ParseError>>)
    ensures
        match lexed_all(*dialect, source@, 0, 0) {
            Ok(ts) => if closers_matched(ts) {
                r is Some && r->0 is Ok && (r->0)->Ok_0@ == formatted(source@, ts)
            } else {
                r is None
            },
            Err(e) => r is Some && r->0 is Err && (r->0)->Err_0@ == e,
        },
{
    match lexed_input(source, dialect) {
        Ok(input) => if delimiters_match(&input.tokens) {
            Some(Ok(format_tokens(&input)))
        } else {
            None
        },
        Err(e) => Some(Err(e)),
    }
}

} // verus!
