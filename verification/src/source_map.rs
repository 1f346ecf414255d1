//! Source texts and positions in them.

use vstd::prelude::*;
use crate::text::{
    byte_len, chars_of, len_utf8, lemma_utf8_len_push, lemma_utf8_len_take, utf8_len_of,
};

verus! {

/// The number of a source text.
pub type SourceId = u32;

/// A range of bytes of a source text.
#[derive(Clone, Copy, Debug, PartialEq, Eq, Structural)]
pub struct Span {
    pub source_id: SourceId,
    pub lo: usize,
    pub hi: usize,
}

impl Span {
    pub fn new(source_id: SourceId, lo: usize, hi: usize) -> (r: Span)
        ensures
            r == (Span { source_id, lo, hi }),
    {
        Span { source_id, lo, hi }
    }
}

/// A source text under its name.
#[derive(Debug)]
pub struct SourceFile {
    pub name: String,
    pub text: String,
}

/// The source texts of a compilation, numbered in the order they were added.
#[derive(Debug)]
pub struct SourceMap {
    pub files: Vec<SourceFile>,
}

/// Whether line `line`, counted from 1, runs from character `lo` up to, not
/// including, character `hi`.
pub open spec fn line_at(text: Seq<char>, line: int, lo: int, hi: int) -> bool {
    &&& 0 <= lo <= hi <= text.len()
    &&& newlines_before(text, lo) == line - 1
    &&& lo > 0 ==> text[lo - 1] == '\n'
    &&& forall|k: int| lo <= k < hi ==> text[k] != '\n'
    &&& hi < text.len() ==> text[hi] == '\n'
}

/// The number of line feeds before a position.
pub open spec fn newlines_before(text: Seq<char>, pos: int) -> int
    decreases pos,
{
    if pos <= 0 {
        0
    } else {
        newlines_before(text, pos - 1) + (if text[pos - 1] == '\n' {
            1int
        } else {
            0int
        })
    }
}

/// The number of bytes before a character.
pub open spec fn byte_offset(text: Seq<char>, pos: int) -> nat {
    utf8_len_of(text.take(pos))
}

/// Later positions have no fewer line feeds before them.
pub proof fn lemma_newlines_monotone(text: Seq<char>, a: int, b: int)
    requires
        0 <= a <= b,
    ensures
        newlines_before(text, a) <= newlines_before(text, b),
    decreases b,
{
    if a < b {
        lemma_newlines_monotone(text, a, b - 1);
    }
}

impl SourceMap {
    pub fn new() -> (r: SourceMap)
        ensures
            r.files@.len() == 0,
    {
        SourceMap { files: Vec::new() }
    }

    /// Adds a source text and returns its number.
    pub fn add_source(&mut self, name: String, text: String) -> (r: SourceId)
        requires
            old(self).files@.len() <= u32::MAX,
        ensures
            r == old(self).files@.len(),
            final(self).files@ == old(self).files@.push(SourceFile { name, text }),
    {
        let id: u32 = self.files.len() as u32;
        self.files.push(SourceFile { name, text });
        id
    }

    /// The bytes of a line, without the line feed that ends it: `None` where there
    /// is no such source or line.
    pub fn line_span(&self, source_id: SourceId, line: usize) -> (r: Option<Span>)
        ensures
            match r {
                Some(span) => source_id < self.files@.len() && span.source_id == source_id
                    && exists|lo: int, hi: int|
                    line_at(self.files@[source_id as int].text@, line as int, lo, hi) && span.lo
                        == byte_offset(self.files@[source_id as int].text@, lo) && span.hi
                        == byte_offset(self.files@[source_id as int].text@, hi),
                None => source_id >= self.files@.len() || !exists|lo: int, hi: int|
                    line_at(self.files@[source_id as int].text@, line as int, lo, hi),
            },
    {
        if source_id as usize >= self.files.len() {
            return None;
        }
        let file = &self.files[source_id as usize];
        let ghost text = file.text@;
        let total: usize = byte_len(file.text.as_str());
        let chars = chars_of(file.text.as_str());
        if line == 0 {
            assert forall|lo: int, hi: int| !line_at(text, 0, lo, hi) by {
                if line_at(text, 0, lo, hi) {
                    lemma_newlines_monotone(text, 0, lo);
                }
            }
            return None;
        }
        let mut current: usize = 1;
        let mut i: usize = 0;
        let mut offset: usize = 0;
        let mut lo: usize = 0;
        let ghost mut lo_pos: int = 0;
        assert(text.take(0) =~= Seq::<char>::empty());
        while i < chars.len()
            invariant
                chars@ == text,
                total == utf8_len_of(text),
                source_id < self.files@.len(),
                text == self.files@[source_id as int].text@,
                i <= text.len(),
                1 <= current <= line,
                current <= i + 1,
                current - 1 == newlines_before(text, lo_pos),
                newlines_before(text, i as int) == current - 1,
                offset == byte_offset(text, i as int),
                0 <= lo_pos <= i,
                lo == byte_offset(text, lo_pos),
                lo_pos > 0 ==> text[lo_pos - 1] == '\n',
                forall|k: int| lo_pos <= k < i ==> text[k] != '\n',
            decreases text.len() - i,
        {
            let c = chars[i];
            if c == '\n' {
                if current == line {
                    assert(line_at(text, line as int, lo_pos, i as int));
                    return Some(Span { source_id, lo, hi: offset });
                }
                current += 1;
                proof {
                    lo_pos = i + 1;
                }
            }
            proof {
                lemma_utf8_len_push(text.take(i as int), c);
                assert(text.take(i + 1) =~= text.take(i as int).push(c));
                lemma_utf8_len_take(text, i + 1);
            }
            offset += len_utf8(c);
            if c == '\n' {
                lo = offset;
            }
            i += 1;
        }
        if current == line {
            assert(line_at(text, line as int, lo_pos, text.len() as int));
            Some(Span { source_id, lo, hi: offset })
        } else {
            assert forall|lo: int, hi: int| !line_at(text, line as int, lo, hi) by {
                if line_at(text, line as int, lo, hi) {
                    lemma_newlines_monotone(text, lo, text.len() as int);
                }
            }
            None
        }
    }
}

} // verus!
