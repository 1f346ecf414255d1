//! Languages, and what a caller may put in place of files.

use vstd::prelude::*;
use crate::errors::SourcePathError;
use crate::paths::{extension, extension_of};
use crate::tables::StrMap;
use crate::text::{chars_of, same_text};

verus! {

/// A language that a source is written in.
#[derive(Copy, Clone, Debug, PartialEq, Eq, Structural)]
pub enum SourceFlavor {
    RustScript,
    JavaScript,
    Lua,
    Scheme,
}

/// An ASCII letter in lower case.
pub open spec fn ascii_lower(c: char) -> char {
    if 'A' <= c && c <= 'Z' {
        (c as u32 + 32) as char
    } else {
        c
    }
}

/// A text with its ASCII letters in lower case.
pub open spec fn lowered(s: Seq<char>) -> Seq<char> {
    Seq::new(s.len(), |i: int| ascii_lower(s[i]))
}

/// The language of a file extension, in either case.
pub open spec fn flavor_of_extension(ext: Seq<char>) -> Option<SourceFlavor> {
    let e = lowered(ext);
    if e == "rss"@ {
        Some(SourceFlavor::RustScript)
    } else if e == "js"@ {
        Some(SourceFlavor::JavaScript)
    } else if e == "lua"@ {
        Some(SourceFlavor::Lua)
    } else if e == "scm"@ {
        Some(SourceFlavor::Scheme)
    } else {
        None
    }
}

fn to_ascii_lowercase(s: &str) -> (r: String)
    ensures
        r@ == lowered(s@),
{
    let chars = chars_of(s);
    let mut out = String::new();
    let mut i: usize = 0;
    while i < chars.len()
        invariant
            i <= chars@.len(),
            chars@ == s@,
            out@ =~= lowered(s@).take(i as int),
        decreases chars@.len() - i,
    {
        let c = chars[i];
        let lower: char = if 'A' <= c && c <= 'Z' {
            ((c as u32 + 32) as u8) as char
        } else {
            c
        };
        out.push(lower);
        i += 1;
    }
    assert(lowered(s@).take(i as int) =~= lowered(s@));
    out
}

impl SourceFlavor {
    pub fn from_extension(ext: &str) -> (r: Option<SourceFlavor>)
        ensures
            r == flavor_of_extension(ext@),
    {
        let lower = to_ascii_lowercase(ext);
        if same_text(lower.as_str(), "rss") {
            Some(SourceFlavor::RustScript)
        } else if same_text(lower.as_str(), "js") {
            Some(SourceFlavor::JavaScript)
        } else if same_text(lower.as_str(), "lua") {
            Some(SourceFlavor::Lua)
        } else if same_text(lower.as_str(), "scm") {
            Some(SourceFlavor::Scheme)
        } else {
            None
        }
    }

    /// The language of a file by its extension.
    pub fn from_path(path: &str) -> (r: Result<SourceFlavor, SourcePathError>)
        ensures
            match extension_of(path@) {
                Some(ext) => match flavor_of_extension(ext) {
                    Some(flavor) => r is Ok && r->Ok_0 == flavor,
                    None => r is Err && r->Err_0 is UnsupportedExtension
                        && r->Err_0->UnsupportedExtension_0@ == ext,
                },
                None => r is Err && r->Err_0 is MissingExtension,
            },
    {
        match extension(path) {
            Some(ext) => match SourceFlavor::from_extension(ext.as_str()) {
                Some(flavor) => Ok(flavor),
                None => Err(SourcePathError::UnsupportedExtension(ext)),
            },
            None => Err(SourcePathError::MissingExtension),
        }
    }
}

/// The case of an extension does not matter.
pub proof fn law_extension_case(ext: Seq<char>)
    ensures
        flavor_of_extension(lowered(ext)) == flavor_of_extension(ext),
{
    assert(lowered(lowered(ext)) =~= lowered(ext));
}

/// An import specifier with `/` for every backslash.
pub open spec fn normalized(spec_text: Seq<char>) -> Seq<char> {
    Seq::new(
        spec_text.len(),
        |i: int|
            if spec_text[i] == '\\' {
                '/'
            } else {
                spec_text[i]
            },
    )
}

/// Writes an import specifier with `/` for every backslash.
pub fn normalize_import_spec(import_spec: &str) -> (r: String)
    ensures
        r@ == normalized(import_spec@),
{
    let chars = chars_of(import_spec);
    let mut out = String::new();
    let mut i: usize = 0;
    while i < chars.len()
        invariant
            i <= chars@.len(),
            chars@ == import_spec@,
            out@ =~= normalized(import_spec@).take(i as int),
        decreases chars@.len() - i,
    {
        if chars[i] == '\\' {
            out.push('/');
        } else {
            out.push(chars[i]);
        }
        i += 1;
    }
    assert(normalized(import_spec@).take(i as int) =~= normalized(import_spec@));
    out
}

/// What a caller puts in place of imported files: other paths, or sources. Paths
/// are held as text.
#[derive(Debug)]
pub struct CompileSourceFileOptions {
    module_path_overrides: StrMap<String>,
    module_source_overrides: StrMap<String>,
}

/// The model of the options, by normalized import specifier.
pub struct OptionsV {
    pub paths: Map<Seq<char>, Seq<char>>,
    pub sources: Map<Seq<char>, Seq<char>>,
}

/// The contents of the strings in a map.
pub open spec fn texts_of(m: Map<Seq<char>, String>) -> Map<Seq<char>, Seq<char>> {
    m.map_values(|s: String| s@)
}

impl OptionsV {
    pub open spec fn with_path(self, spec_text: Seq<char>, path: Seq<char>) -> OptionsV {
        OptionsV { paths: self.paths.insert(normalized(spec_text), path), ..self }
    }

    pub open spec fn with_source(self, spec_text: Seq<char>, source: Seq<char>) -> OptionsV {
        OptionsV { sources: self.sources.insert(normalized(spec_text), source), ..self }
    }

    /// The path that stands in for an import.
    pub open spec fn path_for(self, spec_text: Seq<char>) -> Option<Seq<char>> {
        if self.paths.dom().contains(normalized(spec_text)) {
            Some(self.paths[normalized(spec_text)])
        } else {
            None
        }
    }

    /// The source that stands in for an import.
    pub open spec fn source_for(self, spec_text: Seq<char>) -> Option<Seq<char>> {
        if self.sources.dom().contains(normalized(spec_text)) {
            Some(self.sources[normalized(spec_text)])
        } else {
            None
        }
    }
}

/// What was put in place of an import is found again under any way to write its
/// separators, and nothing else changes.
pub proof fn law_override_is_found(o: OptionsV, a: Seq<char>, b: Seq<char>, text: Seq<char>)
    ensures
        normalized(a) == normalized(b) ==> o.with_source(a, text).source_for(b) == Some(text)
            && o.with_path(a, text).path_for(b) == Some(text),
        normalized(a) != normalized(b) ==> o.with_source(a, text).source_for(b) == o.source_for(b)
            && o.with_path(a, text).path_for(b) == o.path_for(b),
        o.with_source(a, text).path_for(b) == o.path_for(b),
        o.with_path(a, text).source_for(b) == o.source_for(b),
        normalized(normalized(a)) == normalized(a),
{
    assert(normalized(normalized(a)) =~= normalized(a));
}

impl Default for CompileSourceFileOptions {
    fn default() -> (r: Self)
        ensures
            r@ == (OptionsV { paths: Map::empty(), sources: Map::empty() }),
    {
        CompileSourceFileOptions::new()
    }
}

impl CompileSourceFileOptions {
    pub closed spec fn view(&self) -> OptionsV {
        OptionsV {
            paths: texts_of(self.module_path_overrides@),
            sources: texts_of(self.module_source_overrides@),
        }
    }

    pub fn new() -> (r: Self)
        ensures
            r@ == (OptionsV { paths: Map::empty(), sources: Map::empty() }),
    {
        let r = CompileSourceFileOptions {
            module_path_overrides: StrMap::new(),
            module_source_overrides: StrMap::new(),
        };
        assert(r@.paths =~= Map::<Seq<char>, Seq<char>>::empty());
        assert(r@.sources =~= Map::<Seq<char>, Seq<char>>::empty());
        r
    }

    pub fn with_module_override_path(self, import_spec: &str, path: String) -> (r: Self)
        ensures
            r@ == self@.with_path(import_spec@, path@),
    {
        let mut this = self;
        this.set_module_override_path(import_spec, path);
        this
    }

    pub fn set_module_override_path(&mut self, import_spec: &str, path: String)
        ensures
            final(self)@ == old(self)@.with_path(import_spec@, path@),
    {
        let key = normalize_import_spec(import_spec);
        self.module_path_overrides.insert(key, path);
        assert(self@.paths =~= old(self)@.paths.insert(normalized(import_spec@), path@));
    }

    pub fn with_module_override_source(self, import_spec: &str, module_source: String) -> (r: Self)
        ensures
            r@ == self@.with_source(import_spec@, module_source@),
    {
        let mut this = self;
        this.set_module_override_source(import_spec, module_source);
        this
    }

    pub fn set_module_override_source(&mut self, import_spec: &str, module_source: String)
        ensures
            final(self)@ == old(self)@.with_source(import_spec@, module_source@),
    {
        let key = normalize_import_spec(import_spec);
        self.module_source_overrides.insert(key, module_source);
        assert(self@.sources =~= old(self)@.sources.insert(
            normalized(import_spec@),
            module_source@,
        ));
    }

    pub fn module_override_path(&self, import_spec: &str) -> (r: Option<&str>)
        ensures
            r is Some <==> self@.path_for(import_spec@) is Some,
            r matches Some(path) ==> self@.path_for(import_spec@) == Some(path@),
    {
        let key = normalize_import_spec(import_spec);
        match self.module_path_overrides.get(key.as_str()) {
            Some(path) => Some(path.as_str()),
            None => None,
        }
    }

    pub fn module_override_source(&self, import_spec: &str) -> (r: Option<&str>)
        ensures
            r is Some <==> self@.source_for(import_spec@) is Some,
            r matches Some(source) ==> self@.source_for(import_spec@) == Some(source@),
    {
        let key = normalize_import_spec(import_spec);
        match self.module_source_overrides.get(key.as_str()) {
            Some(source) => Some(source.as_str()),
            None => None,
        }
    }

    pub fn has_module_overrides(&self) -> (r: bool)
        ensures
            r == !(self@.paths == Map::<Seq<char>, Seq<char>>::empty() && self@.sources
                == Map::<Seq<char>, Seq<char>>::empty()),
    {
        proof {
            lemma_texts_empty(self.module_path_overrides@);
            lemma_texts_empty(self.module_source_overrides@);
        }
        !self.module_path_overrides.is_empty() || !self.module_source_overrides.is_empty()
    }
}

proof fn lemma_texts_empty(m: Map<Seq<char>, String>)
    ensures
        texts_of(m) == Map::<Seq<char>, Seq<char>>::empty() <==> m == Map::<
            Seq<char>,
            String,
        >::empty(),
{
    if texts_of(m) == Map::<Seq<char>, Seq<char>>::empty() {
        assert forall|k: Seq<char>| !(#[trigger] m.dom().contains(k)) by {
            assert(texts_of(m).dom().contains(k) == m.dom().contains(k));
        }
        assert(m =~= Map::<Seq<char>, String>::empty());
    } else if m == Map::<Seq<char>, String>::empty() {
        assert(texts_of(m) =~= Map::<Seq<char>, Seq<char>>::empty());
    }
}

} // verus!
