//! Rewriting calls of imported functions in source texts.
//!
//! Names are looked for outside strings and comments. Characters beyond ASCII are
//! written out byte by byte.

use vstd::prelude::*;
use crate::options::SourceFlavor;
use crate::tables::{StrMap, StrSet};
use crate::text::{
    ascii_is_one_byte, ascii_space, byte_chars, chars_of, ident_continue, ident_start,
    inline_space, is_ascii_whitespace, is_ident_continue, is_ident_start, is_inline_space,
    is_valid_ident, push_byte_chars, same_text, text_between, valid_ident,
};

verus! {

// ---------------------------------------------------------------------------
// Scanning.

/// Where a position stands: in code, in a string, or in a comment.
#[derive(Clone, Copy, PartialEq, Eq, Structural)]
pub enum Mode {
    Code,
    Text { delimiter: char, escaped: bool },
    LineComment,
    BlockComment,
}

/// Whether a character stands at a position.
pub open spec fn at(src: Seq<char>, p: int, c: char) -> bool {
    0 <= p < src.len() && src[p] == c
}

/// The first position from `p` on that does not continue an identifier.
pub open spec fn ident_end(src: Seq<char>, p: int) -> int
    decreases src.len() - p,
{
    if 0 <= p < src.len() && ident_continue(src[p]) {
        ident_end(src, p + 1)
    } else {
        p
    }
}

/// The first position from `p` on without white space inside a line.
pub open spec fn space_end(src: Seq<char>, p: int) -> int
    decreases src.len() - p,
{
    if 0 <= p < src.len() && inline_space(src[p]) {
        space_end(src, p + 1)
    } else {
        p
    }
}

/// What one step outside identifiers writes, where it leads, and what stands there.
pub open spec fn plain_step(src: Seq<char>, p: int, mode: Mode) -> (Seq<char>, int, Mode) {
    let c = src[p];
    match mode {
        Mode::Text { delimiter, escaped } => (
            byte_chars(c),
            p + 1,
            if escaped {
                Mode::Text { delimiter, escaped: false }
            } else if c == '\\' {
                Mode::Text { delimiter, escaped: true }
            } else if c == delimiter {
                Mode::Code
            } else {
                mode
            },
        ),
        Mode::LineComment => (
            byte_chars(c),
            p + 1,
            if c == '\n' {
                Mode::Code
            } else {
                mode
            },
        ),
        Mode::BlockComment => if c == '*' && at(src, p + 1, '/') {
            (byte_chars(c) + byte_chars('/'), p + 2, Mode::Code)
        } else {
            (byte_chars(c), p + 1, mode)
        },
        Mode::Code => if c == '/' && at(src, p + 1, '/') {
            (byte_chars('/') + byte_chars('/'), p + 2, Mode::LineComment)
        } else if c == '/' && at(src, p + 1, '*') {
            (byte_chars('/') + byte_chars('*'), p + 2, Mode::BlockComment)
        } else if c == '"' || c == '\'' || c == '`' {
            (byte_chars(c), p + 1, Mode::Text { delimiter: c, escaped: false })
        } else {
            (byte_chars(c), p + 1, Mode::Code)
        },
    }
}

/// The position behind a separator of a path: `::` or `.`.
pub open spec fn separator_end(flavor: SourceFlavor, src: Seq<char>, p: int) -> Option<int> {
    if flavor == SourceFlavor::RustScript {
        if at(src, p, ':') && at(src, space_end(src, p + 1), ':') {
            Some(space_end(src, p + 1) + 1)
        } else {
            None
        }
    } else if at(src, p, '.') {
        Some(p + 1)
    } else {
        None
    }
}

/// Whether members of a path follow, the last of them called.
pub open spec fn path_is_called(flavor: SourceFlavor, src: Seq<char>, p: int) -> bool
    decreases src.len() - p,
{
    let q = space_end(src, p);
    if 0 <= q < src.len() && ident_start(src[q]) {
        let e = space_end(src, ident_end(src, q + 1));
        if at(src, e, '(') {
            true
        } else {
            match separator_end(flavor, src, e) {
                Some(n) => p < n && n <= src.len() && path_is_called(flavor, src, n),
                None => false,
            }
        }
    } else {
        false
    }
}

/// What calls are rewritten to.
pub enum RuleSet {
    /// Namespaces of the host, each with the path it stands for.
    Host { flavor: SourceFlavor, roots: Map<Seq<char>, Seq<char>> },
    /// Imported functions.
    Calls {
        flavor: SourceFlavor,
        aliases: Map<Seq<char>, Seq<char>>,
        namespaces: Map<Seq<char>, Set<Seq<char>>>,
        wildcards: Set<Seq<char>>,
        prefixes: Seq<Seq<char>>,
    },
}

/// The first prefix from position `i` on that a name starts with and leaves a name.
pub open spec fn stripped(name: Seq<char>, prefixes: Seq<Seq<char>>, i: int) -> Option<Seq<char>>
    decreases prefixes.len() - i,
{
    if i < 0 || i >= prefixes.len() {
        None
    } else if prefixes[i].len() <= name.len() && name.take(prefixes[i].len() as int) == prefixes[i]
        && valid_ident(name.skip(prefixes[i].len() as int)) {
        Some(name.skip(prefixes[i].len() as int))
    } else {
        stripped(name, prefixes, i + 1)
    }
}

/// The member of a namespace that is called behind a name, with the position behind it.
pub open spec fn called_member(
    flavor: SourceFlavor,
    src: Seq<char>,
    p: int,
) -> Option<(Seq<char>, int)> {
    match separator_end(flavor, src, space_end(src, p)) {
        Some(s) => {
            let k = space_end(src, s);
            if 0 <= k < src.len() && ident_start(src[k]) {
                let e = ident_end(src, k + 1);
                if at(src, space_end(src, e), '(') {
                    Some((src.subrange(k, e), e))
                } else {
                    None
                }
            } else {
                None
            }
        },
        None => None,
    }
}

/// What an identifier from `start` to `end` is written as, and where to go on.
pub open spec fn rewritten_word(rules: RuleSet, src: Seq<char>, start: int, end: int) -> (
    Seq<char>,
    int,
) {
    let name = src.subrange(start, end);
    match rules {
        RuleSet::Host { flavor, roots } => if roots.dom().contains(name)
            && separator_end(flavor, src, end) is Some && path_is_called(
            flavor,
            src,
            separator_end(flavor, src, end)->0,
        ) {
            (roots[name], end)
        } else {
            (name, end)
        },
        RuleSet::Calls { flavor, aliases, namespaces, wildcards, prefixes } => {
            let member = called_member(flavor, src, end);
            let called = at(src, space_end(src, end), '(');
            if member is Some && (wildcards.contains(name) || (namespaces.dom().contains(name)
                && namespaces[name].contains((member->0).0))) {
                ((member->0).0, (member->0).1)
            } else if aliases.dom().contains(name) && called {
                (aliases[name], end)
            } else if stripped(name, prefixes, 0) is Some && called {
                (stripped(name, prefixes, 0)->0, end)
            } else {
                (name, end)
            }
        },
    }
}

/// A text from position `p` on with its calls rewritten.
pub open spec fn rewritten(rules: RuleSet, src: Seq<char>, p: int, mode: Mode) -> Seq<char>
    decreases src.len() - p,
{
    if p < 0 || p >= src.len() {
        Seq::empty()
    } else if mode == Mode::Code && ident_start(src[p]) {
        let (word, next) = rewritten_word(rules, src, p, ident_end(src, p + 1));
        if p < next && next <= src.len() {
            word + rewritten(rules, src, next, Mode::Code)
        } else {
            word
        }
    } else {
        let (out, next, after) = plain_step(src, p, mode);
        out + rewritten(rules, src, next, after)
    }
}

// ---------------------------------------------------------------------------
// Facts about scanning.

proof fn lemma_ident_end(src: Seq<char>, p: int)
    requires
        0 <= p <= src.len(),
    ensures
        p <= ident_end(src, p) <= src.len(),
    decreases src.len() - p,
{
    if p < src.len() && ident_continue(src[p]) {
        lemma_ident_end(src, p + 1);
    }
}

proof fn lemma_space_end(src: Seq<char>, p: int)
    requires
        0 <= p <= src.len(),
    ensures
        p <= space_end(src, p) <= src.len(),
    decreases src.len() - p,
{
    if p < src.len() && inline_space(src[p]) {
        lemma_space_end(src, p + 1);
    }
}

proof fn lemma_separator_end(flavor: SourceFlavor, src: Seq<char>, p: int)
    requires
        0 <= p <= src.len(),
    ensures
        separator_end(flavor, src, p) matches Some(e) ==> p < e <= src.len(),
{
    if p < src.len() {
        lemma_space_end(src, p + 1);
    }
}

proof fn lemma_called_member(flavor: SourceFlavor, src: Seq<char>, p: int)
    requires
        0 <= p <= src.len(),
    ensures
        called_member(flavor, src, p) matches Some((_, e)) ==> p < e <= src.len(),
{
    lemma_space_end(src, p);
    lemma_separator_end(flavor, src, space_end(src, p));
    match separator_end(flavor, src, space_end(src, p)) {
        Some(s) => {
            lemma_space_end(src, s);
            let k = space_end(src, s);
            if k < src.len() {
                lemma_ident_end(src, k + 1);
            }
        },
        None => {},
    }
}

/// Whether rules leave every identifier as it is.
pub open spec fn rewrites_nothing(rules: RuleSet) -> bool {
    match rules {
        RuleSet::Host { roots, .. } => roots.dom() == Set::<Seq<char>>::empty(),
        RuleSet::Calls { aliases, namespaces, wildcards, prefixes, .. } => aliases.dom() == Set::<
            Seq<char>,
        >::empty() && namespaces.dom() == Set::<Seq<char>>::empty() && wildcards == Set::<
            Seq<char>,
        >::empty() && prefixes.len() == 0,
    }
}

/// Without any rule an ASCII text is written as it is.
pub proof fn law_no_rules_no_change(rules: RuleSet, src: Seq<char>, p: int, mode: Mode)
    requires
        rewrites_nothing(rules),
        0 <= p <= src.len(),
        forall|i: int| 0 <= i < src.len() ==> (#[trigger] src[i]) as u32 <= 0x7F,
    ensures
        rewritten(rules, src, p, mode) == src.skip(p),
    decreases src.len() - p,
{
    if p < src.len() {
        if mode == Mode::Code && ident_start(src[p]) {
            lemma_ident_end(src, p + 1);
            let e = ident_end(src, p + 1);
            law_no_rules_no_change(rules, src, e, Mode::Code);
            assert(src.subrange(p, e) + src.skip(e) =~= src.skip(p));
        } else {
            let (out, next, after) = plain_step(src, p, mode);
            ascii_is_one_byte(src[p]);
            ascii_is_one_byte('/');
            ascii_is_one_byte('*');
            if next <= src.len() {
                law_no_rules_no_change(rules, src, next, after);
                assert(out + src.skip(next) =~= src.skip(p));
            }
        }
    } else {
        assert(src.skip(p) =~= Seq::<char>::empty());
    }
}

/// Text inside strings and comments is never taken for a call: until its end, only
/// its own characters are written.
pub proof fn law_text_is_left_alone(
    rules: RuleSet,
    other: RuleSet,
    src: Seq<char>,
    p: int,
    mode: Mode,
)
    requires
        0 <= p < src.len(),
        mode != Mode::Code,
    ensures
        ({
            let (out, next, after) = plain_step(src, p, mode);
            rewritten(rules, src, p, mode) == out + rewritten(rules, src, next, after)
                && rewritten(other, src, p, mode) == out + rewritten(other, src, next, after)
        }),
{
}

// ---------------------------------------------------------------------------
// The rewriting.

fn skip_ident(chars: &Vec<char>, p: usize) -> (r: usize)
    requires
        p <= chars@.len(),
    ensures
        r == ident_end(chars@, p as int),
        p <= r <= chars@.len(),
{
    let mut i: usize = p;
    while i < chars.len() && is_ident_continue(chars[i])
        invariant
            p <= i <= chars@.len(),
            ident_end(chars@, p as int) == ident_end(chars@, i as int),
        decreases chars@.len() - i,
    {
        i += 1;
    }
    i
}

fn skip_space(chars: &Vec<char>, p: usize) -> (r: usize)
    requires
        p <= chars@.len(),
    ensures
        r == space_end(chars@, p as int),
        p <= r <= chars@.len(),
{
    let mut i: usize = p;
    while i < chars.len() && is_inline_space(chars[i])
        invariant
            p <= i <= chars@.len(),
            space_end(chars@, p as int) == space_end(chars@, i as int),
        decreases chars@.len() - i,
    {
        i += 1;
    }
    i
}

fn is_at(chars: &Vec<char>, p: usize, c: char) -> (r: bool)
    ensures
        r == at(chars@, p as int, c),
{
    p < chars.len() && chars[p] == c
}

/// Whether a character stands right behind a position.
fn next_is(chars: &Vec<char>, p: usize, c: char) -> (r: bool)
    requires
        p < chars@.len(),
    ensures
        r == at(chars@, p + 1, c),
{
    let left: usize = chars.len() - p;
    left > 1 && chars[p + 1] == c
}

fn consume_namespace_separator(flavor: SourceFlavor, chars: &Vec<char>, p: usize) -> (r: Option<
    usize,
>)
    requires
        p <= chars@.len(),
    ensures
        r is Some <==> separator_end(flavor, chars@, p as int) is Some,
        r matches Some(e) ==> separator_end(flavor, chars@, p as int) == Some(e as int) && p < e
            <= chars@.len(),
{
    if p >= chars.len() {
        return None;
    }
    if flavor == SourceFlavor::RustScript {
        if chars[p] != ':' {
            return None;
        }
        let q = skip_space(chars, p + 1);
        if !is_at(chars, q, ':') {
            return None;
        }
        return Some(q + 1);
    }
    if chars[p] == '.' {
        Some(p + 1)
    } else {
        None
    }
}

fn namespace_call_target_is_function(flavor: SourceFlavor, chars: &Vec<char>, p: usize) -> (r: bool)
    requires
        p <= chars@.len(),
    ensures
        r == (separator_end(flavor, chars@, p as int) is Some && path_is_called(
            flavor,
            chars@,
            separator_end(flavor, chars@, p as int)->0,
        )),
{
    let mut cursor: usize = match consume_namespace_separator(flavor, chars, p) {
        Some(e) => e,
        None => {
            return false;
        },
    };
    let ghost first = cursor as int;
    loop
        invariant
            first <= cursor <= chars@.len(),
            separator_end(flavor, chars@, p as int) == Some(first),
            path_is_called(flavor, chars@, first) == path_is_called(flavor, chars@, cursor as int),
        decreases chars@.len() - cursor,
    {
        let q = skip_space(chars, cursor);
        if q >= chars.len() || !is_ident_start(chars[q]) {
            return false;
        }
        let e = skip_space(chars, skip_ident(chars, q + 1));
        if is_at(chars, e, '(') {
            return true;
        }
        match consume_namespace_separator(flavor, chars, e) {
            Some(n) => {
                cursor = n;
            },
            None => {
                return false;
            },
        }
    }
}

/// Takes one step outside identifiers.
fn take_plain_step(chars: &Vec<char>, p: usize, mode: Mode, out: &mut String) -> (r: (usize, Mode))
    requires
        p < chars@.len(),
    ensures
        final(out)@ == old(out)@ + plain_step(chars@, p as int, mode).0,
        r.0 == plain_step(chars@, p as int, mode).1,
        r.1 == plain_step(chars@, p as int, mode).2,
        p < r.0 <= chars@.len(),
{
    let total: usize = chars.len();
    let c = chars[p];
    let ghost before = out@;
    match mode {
        Mode::Text { delimiter, escaped } => {
            push_byte_chars(out, c);
            let after = if escaped {
                Mode::Text { delimiter, escaped: false }
            } else if c == '\\' {
                Mode::Text { delimiter, escaped: true }
            } else if c == delimiter {
                Mode::Code
            } else {
                mode
            };
            (p + 1, after)
        },
        Mode::LineComment => {
            push_byte_chars(out, c);
            if c == '\n' {
                (p + 1, Mode::Code)
            } else {
                (p + 1, mode)
            }
        },
        Mode::BlockComment => {
            push_byte_chars(out, c);
            if c == '*' && next_is(chars, p, '/') {
                push_byte_chars(out, '/');
                assert(out@ =~= before + (byte_chars(c) + byte_chars('/')));
                (p + 2, Mode::Code)
            } else {
                (p + 1, mode)
            }
        },
        Mode::Code => {
            if c == '/' && next_is(chars, p, '/') {
                push_byte_chars(out, '/');
                push_byte_chars(out, '/');
                assert(out@ =~= before + (byte_chars('/') + byte_chars('/')));
                (p + 2, Mode::LineComment)
            } else if c == '/' && next_is(chars, p, '*') {
                push_byte_chars(out, '/');
                push_byte_chars(out, '*');
                assert(out@ =~= before + (byte_chars('/') + byte_chars('*')));
                (p + 2, Mode::BlockComment)
            } else if c == '"' || c == '\'' || c == '`' {
                push_byte_chars(out, c);
                (p + 1, Mode::Text { delimiter: c, escaped: false })
            } else {
                push_byte_chars(out, c);
                (p + 1, Mode::Code)
            }
        },
    }
}

/// The contents of the strings in a table.
pub open spec fn texts_in(m: Map<Seq<char>, String>) -> Map<Seq<char>, Seq<char>> {
    m.map_values(|s: String| s@)
}

/// The contents of the sets in a table.
pub open spec fn sets_in(m: Map<Seq<char>, StrSet>) -> Map<Seq<char>, Set<Seq<char>>> {
    m.map_values(|s: StrSet| s@)
}

/// The contents of a list of strings.
pub open spec fn list_texts(s: Seq<String>) -> Seq<Seq<char>> {
    Seq::new(s.len(), |i: int| s[i]@)
}

/// Rewrites calls into namespaces of the host.
pub fn rewrite_host_namespace_call_paths(
    source: &str,
    flavor: SourceFlavor,
    namespace_prefix_calls: &StrMap<String>,
) -> (r: String)
    ensures
        r@ == if namespace_prefix_calls@ == Map::<Seq<char>, String>::empty() {
            source@
        } else {
            rewritten(
                RuleSet::Host { flavor, roots: texts_in(namespace_prefix_calls@) },
                source@,
                0,
                Mode::Code,
            )
        },
{
    if namespace_prefix_calls.is_empty() {
        return source.to_string();
    }
    let ghost rules = RuleSet::Host { flavor, roots: texts_in(namespace_prefix_calls@) };
    let chars = chars_of(source);
    let ghost src = chars@;
    let mut out = String::new();
    let mut p: usize = 0;
    let mut mode = Mode::Code;
    while p < chars.len()
        invariant
            chars@ == src,
            p <= src.len(),
            rules == (RuleSet::Host { flavor, roots: texts_in(namespace_prefix_calls@) }),
            rewritten(rules, src, 0, Mode::Code) =~= out@ + rewritten(rules, src, p as int, mode),
        decreases src.len() - p,
    {
        let ghost before = out@;
        if mode == Mode::Code && is_ident_start(chars[p]) {
            let end = skip_ident(&chars, p + 1);
            let name = text_between(&chars, p, end);
            match namespace_prefix_calls.get(name.as_str()) {
                Some(prefix) => {
                    if namespace_call_target_is_function(flavor, &chars, end) {
                        out.push_str(prefix.as_str());
                    } else {
                        out.push_str(name.as_str());
                    }
                },
                None => {
                    out.push_str(name.as_str());
                },
            }
            p = end;
        } else {
            let (next, after) = take_plain_step(&chars, p, mode, &mut out);
            p = next;
            mode = after;
        }
    }
    out
}

/// The member of a namespace that is called behind a name.
fn find_called_member(flavor: SourceFlavor, chars: &Vec<char>, p: usize) -> (r: Option<
    (String, usize),
>)
    requires
        p <= chars@.len(),
    ensures
        r is Some <==> called_member(flavor, chars@, p as int) is Some,
        r matches Some((member, e)) ==> called_member(flavor, chars@, p as int) == Some(
            (member@, e as int),
        ) && p < e <= chars@.len(),
{
    proof {
        lemma_called_member(flavor, chars@, p as int);
    }
    let j = skip_space(chars, p);
    match consume_namespace_separator(flavor, chars, j) {
        Some(s) => {
            let k = skip_space(chars, s);
            if k < chars.len() && is_ident_start(chars[k]) {
                let e = skip_ident(chars, k + 1);
                if is_at(chars, skip_space(chars, e), '(') {
                    return Some((text_between(chars, k, e), e));
                }
            }
            None
        },
        None => None,
    }
}

fn strip_prefix_alias(name: &str, prefix_aliases: &Vec<String>) -> (r: Option<String>)
    ensures
        r is Some <==> stripped(name@, list_texts(prefix_aliases@), 0) is Some,
        r matches Some(rest) ==> stripped(name@, list_texts(prefix_aliases@), 0) == Some(rest@),
{
    let chars = chars_of(name);
    let ghost prefixes = list_texts(prefix_aliases@);
    let mut i: usize = 0;
    while i < prefix_aliases.len()
        invariant
            i <= prefix_aliases@.len(),
            chars@ == name@,
            prefixes == list_texts(prefix_aliases@),
            stripped(name@, prefixes, 0) == stripped(name@, prefixes, i as int),
        decreases prefix_aliases@.len() - i,
    {
        let prefix = chars_of(prefix_aliases[i].as_str());
        assert(prefix@ == prefixes[i as int]);
        if prefix.len() <= chars.len() {
            let head = text_between(&chars, 0, prefix.len());
            let rest = text_between(&chars, prefix.len(), chars.len());
            assert(name@.subrange(0, prefix@.len() as int) =~= name@.take(prefix@.len() as int));
            assert(name@.subrange(prefix@.len() as int, name@.len() as int) =~= name@.skip(
                prefix@.len() as int,
            ));
            if same_text(head.as_str(), prefix_aliases[i].as_str()) && is_valid_ident(
                rest.as_str(),
            ) {
                return Some(rest);
            }
        }
        i += 1;
    }
    None
}

/// Rewrites calls of imported functions.
pub fn rewrite_function_call_paths(
    source: &str,
    flavor: SourceFlavor,
    alias_calls: &StrMap<String>,
    namespace_calls: &StrMap<StrSet>,
    namespace_wildcards: &StrSet,
    prefix_aliases: &Vec<String>,
) -> (r: String)
    ensures
        r@ == rewritten(
            RuleSet::Calls {
                flavor,
                aliases: texts_in(alias_calls@),
                namespaces: sets_in(namespace_calls@),
                wildcards: namespace_wildcards@,
                prefixes: list_texts(prefix_aliases@),
            },
            source@,
            0,
            Mode::Code,
        ),
{
    let ghost rules = RuleSet::Calls {
        flavor,
        aliases: texts_in(alias_calls@),
        namespaces: sets_in(namespace_calls@),
        wildcards: namespace_wildcards@,
        prefixes: list_texts(prefix_aliases@),
    };
    let chars = chars_of(source);
    let ghost src = chars@;
    let mut out = String::new();
    let mut p: usize = 0;
    let mut mode = Mode::Code;
    while p < chars.len()
        invariant
            chars@ == src,
            p <= src.len(),
            rules == (RuleSet::Calls {
                flavor,
                aliases: texts_in(alias_calls@),
                namespaces: sets_in(namespace_calls@),
                wildcards: namespace_wildcards@,
                prefixes: list_texts(prefix_aliases@),
            }),
            rewritten(rules, src, 0, Mode::Code) =~= out@ + rewritten(rules, src, p as int, mode),
        decreases src.len() - p,
    {
        let ghost before = out@;
        if mode == Mode::Code && is_ident_start(chars[p]) {
            let end = skip_ident(&chars, p + 1);
            let name = text_between(&chars, p, end);
            let wild = namespace_wildcards.contains(name.as_str());
            let mut next: usize = end;
            let mut written = false;
            match find_called_member(flavor, &chars, end) {
                Some((member, e)) => {
                    let known = match namespace_calls.get(name.as_str()) {
                        Some(methods) => methods.contains(member.as_str()),
                        None => false,
                    };
                    if wild || known {
                        out.push_str(member.as_str());
                        next = e;
                        written = true;
                    }
                },
                None => {},
            }
            if !written {
                let called = is_at(&chars, skip_space(&chars, end), '(');
                match alias_calls.get(name.as_str()) {
                    Some(target) => {
                        if called {
                            out.push_str(target.as_str());
                            written = true;
                        }
                    },
                    None => {},
                }
                if !written {
                    match strip_prefix_alias(name.as_str(), prefix_aliases) {
                        Some(rest) => {
                            if called {
                                out.push_str(rest.as_str());
                            } else {
                                out.push_str(name.as_str());
                            }
                        },
                        None => {
                            out.push_str(name.as_str());
                        },
                    }
                }
            }
            proof {
                let (word, after) = rewritten_word(rules, src, p as int, end as int);
                assert(out@ == before + word);
                assert(next == after);
            }
            p = next;
        } else {
            let (next, after) = take_plain_step(&chars, p, mode, &mut out);
            p = next;
            mode = after;
        }
    }
    out
}

// ---------------------------------------------------------------------------
// Scheme.

/// Where a position of a Scheme text stands.
#[derive(Clone, Copy, PartialEq, Eq, Structural)]
pub enum SchemeMode {
    Code,
    Text { escaped: bool },
    LineComment,
}

/// What the heads of Scheme calls are rewritten to.
pub struct SchemeRules {
    pub aliases: Map<Seq<char>, Seq<char>>,
    pub namespaces: Map<Seq<char>, Set<Seq<char>>>,
    pub wildcards: Set<Seq<char>>,
    pub prefixes: Seq<Seq<char>>,
}

/// The first position from `p` on without white space.
pub open spec fn blank_end(src: Seq<char>, p: int) -> int
    decreases src.len() - p,
{
    if 0 <= p < src.len() && ascii_space(src[p]) {
        blank_end(src, p + 1)
    } else {
        p
    }
}

/// Whether a character ends a symbol.
pub open spec fn ends_symbol(c: char) -> bool {
    ascii_space(c) || c == '(' || c == ')' || c == ';'
}

/// The position behind a symbol.
pub open spec fn symbol_end(src: Seq<char>, p: int) -> int
    decreases src.len() - p,
{
    if 0 <= p < src.len() && !ends_symbol(src[p]) {
        symbol_end(src, p + 1)
    } else {
        p
    }
}

/// The position of the first dot of a symbol from `i` on.
pub open spec fn dot_from(symbol: Seq<char>, i: int) -> int
    decreases symbol.len() - i,
{
    if i < 0 || i >= symbol.len() || symbol[i] == '.' {
        i
    } else {
        dot_from(symbol, i + 1)
    }
}

/// The rest of a symbol behind the first prefix from position `i` on that it starts
/// with and that leaves something.
pub open spec fn unprefixed(symbol: Seq<char>, prefixes: Seq<Seq<char>>, i: int) -> Option<
    Seq<char>,
>
    decreases prefixes.len() - i,
{
    if i < 0 || i >= prefixes.len() {
        None
    } else if prefixes[i].len() < symbol.len() && symbol.take(prefixes[i].len() as int)
        == prefixes[i] {
        Some(symbol.skip(prefixes[i].len() as int))
    } else {
        unprefixed(symbol, prefixes, i + 1)
    }
}

/// What the head of a call is written as.
pub open spec fn rewritten_head(rules: SchemeRules, symbol: Seq<char>) -> Seq<char> {
    let dot = dot_from(symbol, 0);
    let namespace = symbol.take(dot);
    let member = symbol.skip(dot + 1);
    if rules.aliases.dom().contains(symbol) {
        rules.aliases[symbol]
    } else if dot < symbol.len() && rules.namespaces.dom().contains(namespace)
        && rules.namespaces[namespace].contains(member) {
        member
    } else if dot < symbol.len() && rules.wildcards.contains(namespace) && member.len() > 0 {
        member
    } else {
        match unprefixed(symbol, rules.prefixes, 0) {
            Some(rest) => rest,
            None => symbol,
        }
    }
}

/// A Scheme text from position `p` on with the heads of its calls rewritten.
pub open spec fn rewritten_scheme(
    rules: SchemeRules,
    src: Seq<char>,
    p: int,
    mode: SchemeMode,
) -> Seq<char>
    decreases src.len() - p,
{
    if p < 0 || p >= src.len() {
        Seq::empty()
    } else {
        let c = src[p];
        match mode {
            SchemeMode::LineComment => byte_chars(c) + rewritten_scheme(
                rules,
                src,
                p + 1,
                if c == '\n' {
                    SchemeMode::Code
                } else {
                    mode
                },
            ),
            SchemeMode::Text { escaped } => byte_chars(c) + rewritten_scheme(
                rules,
                src,
                p + 1,
                if escaped {
                    SchemeMode::Text { escaped: false }
                } else if c == '\\' {
                    SchemeMode::Text { escaped: true }
                } else if c == '"' {
                    SchemeMode::Code
                } else {
                    mode
                },
            ),
            SchemeMode::Code => if c == ';' {
                byte_chars(c) + rewritten_scheme(rules, src, p + 1, SchemeMode::LineComment)
            } else if c == '"' {
                byte_chars(c) + rewritten_scheme(
                    rules,
                    src,
                    p + 1,
                    SchemeMode::Text { escaped: false },
                )
            } else if c == '(' {
                let s = blank_end(src, p + 1);
                let e = symbol_end(src, s);
                if p < e && s <= e && e <= src.len() {
                    byte_chars(c) + src.subrange(p + 1, s) + (if e == s {
                        Seq::empty()
                    } else {
                        rewritten_head(rules, src.subrange(s, e))
                    }) + rewritten_scheme(rules, src, e, SchemeMode::Code)
                } else {
                    byte_chars(c)
                }
            } else {
                byte_chars(c) + rewritten_scheme(rules, src, p + 1, SchemeMode::Code)
            },
        }
    }
}

fn skip_blank(chars: &Vec<char>, p: usize) -> (r: usize)
    requires
        p <= chars@.len(),
    ensures
        r == blank_end(chars@, p as int),
        p <= r <= chars@.len(),
{
    let mut i: usize = p;
    while i < chars.len() && is_ascii_whitespace(chars[i])
        invariant
            p <= i <= chars@.len(),
            blank_end(chars@, p as int) == blank_end(chars@, i as int),
        decreases chars@.len() - i,
    {
        i += 1;
    }
    i
}

fn skip_symbol(chars: &Vec<char>, p: usize) -> (r: usize)
    requires
        p <= chars@.len(),
    ensures
        r == symbol_end(chars@, p as int),
        p <= r <= chars@.len(),
{
    let mut i: usize = p;
    while i < chars.len() && !(is_ascii_whitespace(chars[i]) || chars[i] == '(' || chars[i] == ')'
        || chars[i] == ';')
        invariant
            p <= i <= chars@.len(),
            symbol_end(chars@, p as int) == symbol_end(chars@, i as int),
        decreases chars@.len() - i,
    {
        i += 1;
    }
    i
}

fn strip_symbol_prefix(symbol: &Vec<char>, prefix_aliases: &Vec<String>) -> (r: Option<String>)
    ensures
        r is Some <==> unprefixed(symbol@, list_texts(prefix_aliases@), 0) is Some,
        r matches Some(rest) ==> unprefixed(symbol@, list_texts(prefix_aliases@), 0) == Some(rest@),
{
    let ghost prefixes = list_texts(prefix_aliases@);
    let mut i: usize = 0;
    while i < prefix_aliases.len()
        invariant
            i <= prefix_aliases@.len(),
            prefixes == list_texts(prefix_aliases@),
            unprefixed(symbol@, prefixes, 0) == unprefixed(symbol@, prefixes, i as int),
        decreases prefix_aliases@.len() - i,
    {
        let prefix = chars_of(prefix_aliases[i].as_str());
        assert(prefix@ == prefixes[i as int]);
        if prefix.len() < symbol.len() {
            let head = text_between(symbol, 0, prefix.len());
            assert(symbol@.subrange(0, prefix@.len() as int) =~= symbol@.take(
                prefix@.len() as int,
            ));
            if same_text(head.as_str(), prefix_aliases[i].as_str()) {
                let rest = text_between(symbol, prefix.len(), symbol.len());
                assert(symbol@.subrange(prefix@.len() as int, symbol@.len() as int)
                    =~= symbol@.skip(prefix@.len() as int));
                return Some(rest);
            }
        }
        i += 1;
    }
    None
}

/// Rewrites the head of a call.
fn rewrite_head(
    symbol: &Vec<char>,
    alias_calls: &StrMap<String>,
    namespace_calls: &StrMap<StrSet>,
    namespace_wildcards: &StrSet,
    prefix_aliases: &Vec<String>,
) -> (r: String)
    ensures
        r@ == rewritten_head(
            SchemeRules {
                aliases: texts_in(alias_calls@),
                namespaces: sets_in(namespace_calls@),
                wildcards: namespace_wildcards@,
                prefixes: list_texts(prefix_aliases@),
            },
            symbol@,
        ),
{
    let whole = text_between(symbol, 0, symbol.len());
    assert(symbol@.subrange(0, symbol@.len() as int) =~= symbol@);
    match alias_calls.get(whole.as_str()) {
        Some(target) => {
            return target.clone();
        },
        None => {},
    }
    let mut dot: usize = 0;
    while dot < symbol.len() && symbol[dot] != '.'
        invariant
            dot <= symbol@.len(),
            dot_from(symbol@, 0) == dot_from(symbol@, dot as int),
        decreases symbol@.len() - dot,
    {
        dot += 1;
    }
    if dot < symbol.len() {
        let namespace = text_between(symbol, 0, dot);
        let member = text_between(symbol, dot + 1, symbol.len());
        assert(symbol@.subrange(0, dot as int) =~= symbol@.take(dot as int));
        assert(symbol@.subrange(dot + 1, symbol@.len() as int) =~= symbol@.skip(dot + 1));
        match namespace_calls.get(namespace.as_str()) {
            Some(entries) => {
                if entries.contains(member.as_str()) {
                    return member;
                }
            },
            None => {},
        }
        if namespace_wildcards.contains(namespace.as_str()) && symbol.len() - dot > 1 {
            return member;
        }
    }
    match strip_symbol_prefix(symbol, prefix_aliases) {
        Some(rest) => rest,
        None => whole,
    }
}

/// The characters between two positions.
fn chars_between(chars: &Vec<char>, lo: usize, hi: usize) -> (r: Vec<char>)
    requires
        lo <= hi <= chars@.len(),
    ensures
        r@ == chars@.subrange(lo as int, hi as int),
{
    let mut out: Vec<char> = Vec::new();
    let mut i: usize = lo;
    while i < hi
        invariant
            lo <= i <= hi <= chars@.len(),
            out@ == chars@.subrange(lo as int, i as int),
        decreases hi - i,
    {
        out.push(chars[i]);
        i += 1;
        assert(chars@.subrange(lo as int, i as int) =~= chars@.subrange(lo as int, i - 1).push(
            chars@[i - 1],
        ));
    }
    out
}

/// Rewrites the heads of Scheme calls.
pub fn rewrite_scheme_call_heads(
    source: &str,
    alias_calls: &StrMap<String>,
    namespace_calls: &StrMap<StrSet>,
    namespace_wildcards: &StrSet,
    prefix_aliases: &Vec<String>,
) -> (r: String)
    ensures
        r@ == rewritten_scheme(
            SchemeRules {
                aliases: texts_in(alias_calls@),
                namespaces: sets_in(namespace_calls@),
                wildcards: namespace_wildcards@,
                prefixes: list_texts(prefix_aliases@),
            },
            source@,
            0,
            SchemeMode::Code,
        ),
{
    let ghost rules = SchemeRules {
        aliases: texts_in(alias_calls@),
        namespaces: sets_in(namespace_calls@),
        wildcards: namespace_wildcards@,
        prefixes: list_texts(prefix_aliases@),
    };
    let chars = chars_of(source);
    let ghost src = chars@;
    let mut out = String::new();
    let mut p: usize = 0;
    let mut mode = SchemeMode::Code;
    while p < chars.len()
        invariant
            chars@ == src,
            p <= src.len(),
            rules == (SchemeRules {
                aliases: texts_in(alias_calls@),
                namespaces: sets_in(namespace_calls@),
                wildcards: namespace_wildcards@,
                prefixes: list_texts(prefix_aliases@),
            }),
            rewritten_scheme(rules, src, 0, SchemeMode::Code) =~= out@ + rewritten_scheme(
                rules,
                src,
                p as int,
                mode,
            ),
        decreases src.len() - p,
    {
        let c = chars[p];
        push_byte_chars(&mut out, c);
        match mode {
            SchemeMode::LineComment => {
                if c == '\n' {
                    mode = SchemeMode::Code;
                }
                p += 1;
            },
            SchemeMode::Text { escaped } => {
                if escaped {
                    mode = SchemeMode::Text { escaped: false };
                } else if c == '\\' {
                    mode = SchemeMode::Text { escaped: true };
                } else if c == '"' {
                    mode = SchemeMode::Code;
                }
                p += 1;
            },
            SchemeMode::Code => {
                if c == ';' {
                    mode = SchemeMode::LineComment;
                    p += 1;
                } else if c == '"' {
                    mode = SchemeMode::Text { escaped: false };
                    p += 1;
                } else if c == '(' {
                    let s = skip_blank(&chars, p + 1);
                    let e = skip_symbol(&chars, s);
                    out.push_str(text_between(&chars, p + 1, s).as_str());
                    if e > s {
                        let symbol = chars_between(&chars, s, e);
                        out.push_str(
                            rewrite_head(
                                &symbol,
                                alias_calls,
                                namespace_calls,
                                namespace_wildcards,
                                prefix_aliases,
                            ).as_str(),
                        );
                    }
                    p = e;
                } else {
                    p += 1;
                }
            },
        }
    }
    out
}

} // verus!
