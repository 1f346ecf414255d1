//! The shapes of structures that a source text declares.

use vstd::prelude::*;
use crate::source_map::Span;
use crate::text::same_text;

verus! {

/// A declared type.
#[derive(Debug)]
pub enum TypeSchema {
    Unknown,
    Null,
    Int,
    Float,
    Bool,
    String,
    Array(Box<TypeSchema>),
    Mapping(Box<TypeSchema>),
    Object(Vec<(String, TypeSchema)>),
    Named(String),
}

/// The model of a declared type.
pub enum SchemaV {
    Unknown,
    Null,
    Int,
    Float,
    Bool,
    Str,
    Array(Box<SchemaV>),
    Mapping(Box<SchemaV>),
    Object(Seq<(Seq<char>, SchemaV)>),
    Named(Seq<char>),
}

impl TypeSchema {
    pub open spec fn view(&self) -> SchemaV
        decreases self,
    {
        match self {
            TypeSchema::Unknown => SchemaV::Unknown,
            TypeSchema::Null => SchemaV::Null,
            TypeSchema::Int => SchemaV::Int,
            TypeSchema::Float => SchemaV::Float,
            TypeSchema::Bool => SchemaV::Bool,
            TypeSchema::String => SchemaV::Str,
            TypeSchema::Array(element) => SchemaV::Array(Box::new(element.view())),
            TypeSchema::Mapping(value) => SchemaV::Mapping(Box::new(value.view())),
            TypeSchema::Object(fields) => SchemaV::Object(fields_view(fields@)),
            TypeSchema::Named(name) => SchemaV::Named(name@),
        }
    }
}

/// The models of the fields of a structure.
pub open spec fn fields_view(s: Seq<(String, TypeSchema)>) -> Seq<(Seq<char>, SchemaV)>
    decreases s,
{
    Seq::new(
        s.len(),
        |i: int|
            if 0 <= i < s.len() {
                (s[i].0@, s[i].1.view())
            } else {
                arbitrary()
            },
    )
}

/// The position of a field among the first `n`, or -1.
pub open spec fn field_position(fields: Seq<(Seq<char>, SchemaV)>, name: Seq<char>, n: int) -> int
    decreases n,
{
    if n <= 0 {
        -1
    } else if fields[n - 1].0 == name {
        n - 1
    } else {
        field_position(fields, name, n - 1)
    }
}

/// The fields with one more. A field of the same name is replaced.
pub open spec fn with_field(
    fields: Seq<(Seq<char>, SchemaV)>,
    name: Seq<char>,
    schema: SchemaV,
) -> Seq<(Seq<char>, SchemaV)> {
    let k = field_position(fields, name, fields.len() as int);
    if k >= 0 {
        fields.update(k, (name, schema))
    } else {
        fields.push((name, schema))
    }
}

/// Whether a list of fields has a name.
pub open spec fn has_field(fields: Seq<(Seq<char>, SchemaV)>, name: Seq<char>) -> bool {
    field_position(fields, name, fields.len() as int) >= 0
}

/// The position of a field.
pub fn find_field(fields: &Vec<(String, TypeSchema)>, name: &str) -> (r: Option<usize>)
    ensures
        match r {
            Some(k) => k == field_position(fields_view(fields@), name@, fields@.len() as int) && k
                < fields@.len(),
            None => !has_field(fields_view(fields@), name@),
        },
{
    let ghost fv = fields_view(fields@);
    assert(fv.len() == fields@.len());
    let mut i: usize = fields.len();
    while i > 0
        invariant
            i <= fields@.len(),
            fv == fields_view(fields@),
            fv.len() == fields@.len(),
            field_position(fv, name@, fields@.len() as int) == field_position(fv, name@, i as int),
        decreases i,
    {
        i -= 1;
        assert(fv[i as int].0 == fields@[i as int].0@);
        if same_text(fields[i].0.as_str(), name) {
            return Some(i);
        }
    }
    None
}

/// Adds a field, or replaces the one of the same name.
pub fn put_field(fields: &mut Vec<(String, TypeSchema)>, name: String, schema: TypeSchema)
    ensures
        fields_view(final(fields)@) == with_field(fields_view(old(fields)@), name@, schema@),
{
    let ghost before = fields_view(fields@);
    match find_field(fields, name.as_str()) {
        Some(k) => {
            let ghost entry = (name@, schema@);
            fields.set(k, (name, schema));
            assert(fields_view(fields@) =~= before.update(k as int, entry));
        },
        None => {
            let ghost entry = (name@, schema@);
            fields.push((name, schema));
            assert(fields_view(fields@) =~= before.push(entry));
        },
    }
}

/// A later field of a name takes the place of an earlier one, and leaves the others alone.
pub proof fn law_field_replaces(fields: Seq<(Seq<char>, SchemaV)>, name: Seq<char>, schema: SchemaV)
    ensures
        has_field(with_field(fields, name, schema), name),
        has_field(fields, name) ==> with_field(fields, name, schema).len() == fields.len(),
        !has_field(fields, name) ==> with_field(fields, name, schema) == fields.push((name, schema)),
{
    let k = field_position(fields, name, fields.len() as int);
    lemma_field_position(fields, name, fields.len() as int);
    let after = with_field(fields, name, schema);
    if k >= 0 {
        lemma_position_from(after, name, k, after.len() as int);
    } else {
        lemma_position_from(after, name, fields.len() as int, after.len() as int);
    }
}

proof fn lemma_field_position(fields: Seq<(Seq<char>, SchemaV)>, name: Seq<char>, n: int)
    requires
        0 <= n <= fields.len(),
    ensures
        -1 <= field_position(fields, name, n) < n,
    decreases n,
{
    if n > 0 {
        lemma_field_position(fields, name, n - 1);
    }
}

proof fn lemma_position_from(fields: Seq<(Seq<char>, SchemaV)>, name: Seq<char>, k: int, n: int)
    requires
        0 <= k < n <= fields.len(),
        fields[k].0 == name,
    ensures
        field_position(fields, name, n) >= k,
    decreases n,
{
    if k < n - 1 {
        lemma_position_from(fields, name, k, n - 1);
    }
}

/// A place where a structure is named.
#[derive(Debug)]
pub struct SchemaSite {
    pub name: String,
    pub line: usize,
    pub span: Span,
}

/// The model of a place where a structure is named.
pub struct SiteV {
    pub name: Seq<char>,
    pub line: usize,
    pub span: Span,
}

/// The models of places where structures are named.
pub open spec fn sites_view(s: Seq<SchemaSite>) -> Seq<SiteV> {
    Seq::new(s.len(), |i: int| SiteV { name: s[i].name@, line: s[i].line, span: s[i].span })
}

/// The models of the slots that are declared with a structure.
pub open spec fn declared_view(s: Seq<(u16, String)>) -> Seq<(u16, Seq<char>)> {
    Seq::new(s.len(), |i: int| (s[i].0, s[i].1@))
}

/// What a source text says of structures.
#[derive(Debug)]
pub struct Schemas {
    pub structs: Vec<(String, TypeSchema)>,
    pub sites: Vec<SchemaSite>,
    pub unknown_type_spans: Vec<Span>,
    pub declared: Vec<(u16, String)>,
}

/// The model of what a source text says of structures.
pub struct SchemasV {
    pub structs: Seq<(Seq<char>, SchemaV)>,
    pub sites: Seq<SiteV>,
    pub unknown: Seq<Span>,
    pub declared: Seq<(u16, Seq<char>)>,
}

impl SchemasV {
    pub open spec fn with_site(self, name: Seq<char>, line: usize, span: Span) -> SchemasV {
        SchemasV { sites: self.sites.push(SiteV { name, line, span }), ..self }
    }

    pub open spec fn with_unknown(self, span: Span) -> SchemasV {
        SchemasV { unknown: self.unknown.push(span), ..self }
    }

    pub open spec fn with_struct(self, name: Seq<char>, schema: SchemaV) -> SchemasV {
        SchemasV { structs: self.structs.push((name, schema)), ..self }
    }

    /// The state once a slot is declared, with a structure or without.
    pub open spec fn with_declared(self, slot: u16, name: Option<Seq<char>>) -> SchemasV {
        match name {
            Some(n) => SchemasV { declared: self.declared.push((slot, n)), ..self },
            None => self,
        }
    }

    /// The first place from position `i` on that names a structure that nothing declares.
    pub open spec fn missing(self, i: int) -> Option<SiteV>
        decreases self.sites.len() - i,
    {
        if i < 0 || i >= self.sites.len() {
            None
        } else if has_field(self.structs, self.sites[i].name) {
            self.missing(i + 1)
        } else {
            Some(self.sites[i])
        }
    }

    pub open spec fn start() -> SchemasV {
        SchemasV {
            structs: Seq::empty(),
            sites: Seq::empty(),
            unknown: Seq::empty(),
            declared: Seq::empty(),
        }
    }
}

impl Schemas {
    pub open spec fn view(&self) -> SchemasV {
        SchemasV {
            structs: fields_view(self.structs@),
            sites: sites_view(self.sites@),
            unknown: self.unknown_type_spans@,
            declared: declared_view(self.declared@),
        }
    }

    pub fn new() -> (r: Schemas)
        ensures
            r@ == SchemasV::start(),
    {
        let r = Schemas {
            structs: Vec::new(),
            sites: Vec::new(),
            unknown_type_spans: Vec::new(),
            declared: Vec::new(),
        };
        assert(r@.structs =~= SchemasV::start().structs);
        assert(r@.sites =~= SchemasV::start().sites);
        assert(r@.unknown =~= SchemasV::start().unknown);
        assert(r@.declared =~= SchemasV::start().declared);
        r
    }

    pub fn push_site(&mut self, name: String, line: usize, span: Span)
        ensures
            final(self)@ == old(self)@.with_site(name@, line, span),
    {
        let ghost want = self@.with_site(name@, line, span);
        self.sites.push(SchemaSite { name, line, span });
        assert(self@.sites =~= want.sites);
    }

    pub fn push_unknown(&mut self, span: Span)
        ensures
            final(self)@ == old(self)@.with_unknown(span),
    {
        self.unknown_type_spans.push(span);
    }

    pub fn push_struct(&mut self, name: String, schema: TypeSchema)
        ensures
            final(self)@ == old(self)@.with_struct(name@, schema@),
    {
        let ghost want = self@.with_struct(name@, schema@);
        self.structs.push((name, schema));
        assert(self@.structs =~= want.structs);
    }

    pub fn push_declared(&mut self, slot: u16, name: Option<String>)
        ensures
            final(self)@ == old(self)@.with_declared(
                slot,
                match name {
                    Some(n) => Some(n@),
                    None => None,
                },
            ),
    {
        match name {
            Some(n) => {
                let ghost want = self@.with_declared(slot, Some(n@));
                self.declared.push((slot, n));
                assert(self@.declared =~= want.declared);
            },
            None => {},
        }
    }

    /// The position of the first place that names a structure that nothing declares.
    pub fn first_missing(&self) -> (r: Option<usize>)
        ensures
            match self@.missing(0) {
                Some(site) => r is Some && r->0 < self.sites@.len() && self@.sites[r->0 as int]
                    == site,
                None => r is None,
            },
    {
        let mut i: usize = 0;
        assert(self@.sites.len() == self.sites@.len());
        while i < self.sites.len()
            invariant
                i <= self.sites@.len(),
                self@.sites.len() == self.sites@.len(),
                self@.missing(0) == self@.missing(i as int),
            decreases self.sites@.len() - i,
        {
            assert(self@.sites[i as int].name == self.sites@[i as int].name@);
            if find_field(&self.structs, self.sites[i].name.as_str()).is_none() {
                assert(self@.structs.len() == self.structs@.len());
                return Some(i);
            }
            assert(self@.structs.len() == self.structs@.len());
            i += 1;
        }
        None
    }
}

} // verus!
