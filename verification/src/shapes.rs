//! What is known of the shapes of values: merging declared types, and looking into them.
//!
//! The checks of this library go by types alone. These functions are for a caller that keeps
//! the declared shapes of locals besides: they give the shapes of calls, of branches and of
//! matches from those of their parts, and say which accesses a declared shape refuses.

use vstd::prelude::*;
use crate::builtins::BuiltinFunction;
use crate::ir::{Expr, ExprV};
use crate::schema::{
    field_position, fields_view, find_field, has_field, put_field, with_field, SchemaV, TypeSchema,
};
use crate::text::same_text;
use crate::types::{bound_label, bound_type_label, BoundType};

verus! {

/// The schema of a field.
pub open spec fn field_schema(fields: Seq<(Seq<char>, SchemaV)>, name: Seq<char>) -> SchemaV {
    fields[field_position(fields, name, fields.len() as int)].1
}

/// Whether two declared types are the same. The order of fields does not count.
pub open spec fn same_shape(a: SchemaV, b: SchemaV) -> bool
    decreases a,
{
    match a {
        SchemaV::Array(x) => b is Array && same_shape(*x, *b->Array_0),
        SchemaV::Mapping(x) => b is Mapping && same_shape(*x, *b->Mapping_0),
        SchemaV::Object(f) => b is Object && f.len() == b->Object_0.len() && fields_within(
            f,
            b->Object_0,
            f.len(),
        ),
        _ => a == b,
    }
}

/// Whether the first `n` fields are the same in another list.
pub open spec fn fields_within(
    f: Seq<(Seq<char>, SchemaV)>,
    g: Seq<(Seq<char>, SchemaV)>,
    n: nat,
) -> bool
    decreases f, n,
{
    if n == 0 {
        true
    } else if n > f.len() {
        false
    } else {
        fields_within(f, g, (n - 1) as nat) && has_field(g, f[n - 1].0) && same_shape(
            f[n - 1].1,
            field_schema(g, f[n - 1].0),
        )
    }
}

pub fn is_same_schema(a: &TypeSchema, b: &TypeSchema) -> (r: bool)
    ensures
        r == same_shape(a@, b@),
    decreases a,
{
    match (a, b) {
        (TypeSchema::Unknown, TypeSchema::Unknown) => true,
        (TypeSchema::Null, TypeSchema::Null) => true,
        (TypeSchema::Int, TypeSchema::Int) => true,
        (TypeSchema::Float, TypeSchema::Float) => true,
        (TypeSchema::Bool, TypeSchema::Bool) => true,
        (TypeSchema::String, TypeSchema::String) => true,
        (TypeSchema::Named(x), TypeSchema::Named(y)) => same_text(x.as_str(), y.as_str()),
        (TypeSchema::Array(x), TypeSchema::Array(y)) => is_same_schema(x, y),
        (TypeSchema::Mapping(x), TypeSchema::Mapping(y)) => is_same_schema(x, y),
        (TypeSchema::Object(f), TypeSchema::Object(g)) => {
            assert(fields_view(f@).len() == f@.len());
            assert(fields_view(g@).len() == g@.len());
            f.len() == g.len() && are_fields_within(f, g)
        },
        _ => false,
    }
}

fn are_fields_within(f: &Vec<(String, TypeSchema)>, g: &Vec<(String, TypeSchema)>) -> (r: bool)
    ensures
        r == fields_within(fields_view(f@), fields_view(g@), f@.len()),
    decreases f,
{
    let ghost fv = fields_view(f@);
    let ghost gv = fields_view(g@);
    let mut i: usize = 0;
    while i < f.len()
        invariant
            i <= f@.len(),
            fv == fields_view(f@),
            gv == fields_view(g@),
            fv.len() == f@.len(),
            gv.len() == g@.len(),
            fields_within(fv, gv, i as nat),
        decreases f@.len() - i,
    {
        assert(fv[i as int] == (f@[i as int].0@, f@[i as int].1@));
        let found = find_field(g, f[i].0.as_str());
        let same = match found {
            Some(k) => {
                assert(gv[k as int] == (g@[k as int].0@, g@[k as int].1@));
                is_same_schema(&f[i].1, &g[k].1)
            },
            None => false,
        };
        if !same {
            proof {
                lemma_within_prefix(fv, gv, (i + 1) as nat, f@.len());
            }
            return false;
        }
        i += 1;
    }
    true
}

/// Where all fields are the same, so are the first ones.
proof fn lemma_within_prefix(
    f: Seq<(Seq<char>, SchemaV)>,
    g: Seq<(Seq<char>, SchemaV)>,
    n: nat,
    m: nat,
)
    requires
        n <= m <= f.len(),
    ensures
        fields_within(f, g, m) ==> fields_within(f, g, n),
    decreases m,
{
    if n < m {
        lemma_within_prefix(f, g, n, (m - 1) as nat);
    }
}

/// A copy of a declared type.
pub fn clone_schema(schema: &TypeSchema) -> (r: TypeSchema)
    ensures
        r@ == schema@,
    decreases schema,
{
    match schema {
        TypeSchema::Unknown => TypeSchema::Unknown,
        TypeSchema::Null => TypeSchema::Null,
        TypeSchema::Int => TypeSchema::Int,
        TypeSchema::Float => TypeSchema::Float,
        TypeSchema::Bool => TypeSchema::Bool,
        TypeSchema::String => TypeSchema::String,
        TypeSchema::Array(element) => TypeSchema::Array(Box::new(clone_schema(element))),
        TypeSchema::Mapping(value) => TypeSchema::Mapping(Box::new(clone_schema(value))),
        TypeSchema::Object(fields) => TypeSchema::Object(clone_fields(fields)),
        TypeSchema::Named(name) => TypeSchema::Named(name.clone()),
    }
}

fn clone_fields(fields: &Vec<(String, TypeSchema)>) -> (r: Vec<(String, TypeSchema)>)
    ensures
        fields_view(r@) == fields_view(fields@),
    decreases fields,
{
    let mut out: Vec<(String, TypeSchema)> = Vec::new();
    let mut i: usize = 0;
    while i < fields.len()
        invariant
            i <= fields@.len(),
            out@.len() == i,
            forall|k: int|
                0 <= k < i ==> (#[trigger] out@[k]).0@ == fields@[k].0@ && out@[k].1@
                    == fields@[k].1@,
        decreases fields@.len() - i,
    {
        let name = fields[i].0.clone();
        let copy = clone_schema(&fields[i].1);
        out.push((name, copy));
        i += 1;
    }
    assert(fields_view(out@) =~= fields_view(fields@));
    out
}

/// What a declared type is called at run time.
pub open spec fn shape_label(s: SchemaV) -> Seq<char> {
    match s {
        SchemaV::Unknown => "unknown"@,
        SchemaV::Null => "null"@,
        SchemaV::Int => "int"@,
        SchemaV::Float => "float"@,
        SchemaV::Bool => "bool"@,
        SchemaV::Str => "string"@,
        SchemaV::Array(_) => "array"@,
        SchemaV::Mapping(_) => "map"@,
        SchemaV::Object(_) => "map"@,
        SchemaV::Named(_) => "map"@,
    }
}

pub fn schema_label(schema: &TypeSchema) -> (r: &'static str)
    ensures
        r@ == shape_label(schema@),
{
    match schema {
        TypeSchema::Unknown => "unknown",
        TypeSchema::Null => "null",
        TypeSchema::Int => "int",
        TypeSchema::Float => "float",
        TypeSchema::Bool => "bool",
        TypeSchema::String => "string",
        TypeSchema::Array(_) => "array",
        TypeSchema::Mapping(_) => "map",
        TypeSchema::Object(_) => "map",
        TypeSchema::Named(_) => "map",
    }
}

/// The bound type of values of a declared type.
pub open spec fn shape_type(s: SchemaV) -> BoundType {
    match s {
        SchemaV::Unknown => BoundType::Unknown,
        SchemaV::Null => BoundType::Null,
        SchemaV::Int => BoundType::Int,
        SchemaV::Float => BoundType::Float,
        SchemaV::Bool => BoundType::Bool,
        SchemaV::Str => BoundType::String,
        SchemaV::Array(_) => BoundType::Array,
        SchemaV::Mapping(_) => BoundType::Mapping,
        SchemaV::Object(_) => BoundType::Mapping,
        SchemaV::Named(_) => BoundType::Mapping,
    }
}

pub fn bound_type_from_schema(schema: &TypeSchema) -> (r: BoundType)
    ensures
        r == shape_type(schema@),
{
    match schema {
        TypeSchema::Unknown => BoundType::Unknown,
        TypeSchema::Null => BoundType::Null,
        TypeSchema::Int => BoundType::Int,
        TypeSchema::Float => BoundType::Float,
        TypeSchema::Bool => BoundType::Bool,
        TypeSchema::String => BoundType::String,
        TypeSchema::Array(_) => BoundType::Array,
        TypeSchema::Mapping(_) => BoundType::Mapping,
        TypeSchema::Object(_) => BoundType::Mapping,
        TypeSchema::Named(_) => BoundType::Mapping,
    }
}

/// The declared type that stands for a bound type, where that is known.
pub open spec fn shape_of_type(ty: BoundType) -> Option<SchemaV> {
    match ty {
        BoundType::Unknown => None,
        BoundType::Null => Some(SchemaV::Null),
        BoundType::Int => Some(SchemaV::Int),
        BoundType::Float => Some(SchemaV::Float),
        BoundType::Bool => Some(SchemaV::Bool),
        BoundType::String => Some(SchemaV::Str),
        BoundType::Array => Some(SchemaV::Array(Box::new(SchemaV::Unknown))),
        BoundType::ArrayOf(_) => Some(SchemaV::Array(Box::new(SchemaV::Unknown))),
        BoundType::Mapping => Some(SchemaV::Mapping(Box::new(SchemaV::Unknown))),
        BoundType::MapOf(_) => Some(SchemaV::Mapping(Box::new(SchemaV::Unknown))),
    }
}

pub open spec fn opt_schema(s: Option<TypeSchema>) -> Option<SchemaV> {
    match s {
        Some(x) => Some(x@),
        None => None,
    }
}

pub fn schema_from_bound_type(ty: BoundType) -> (r: Option<TypeSchema>)
    ensures
        opt_schema(r) == shape_of_type(ty),
{
    let unknown = TypeSchema::Unknown;
    assert(unknown@ == SchemaV::Unknown);
    match ty {
        BoundType::Unknown => None,
        BoundType::Null => Some(TypeSchema::Null),
        BoundType::Int => Some(TypeSchema::Int),
        BoundType::Float => Some(TypeSchema::Float),
        BoundType::Bool => Some(TypeSchema::Bool),
        BoundType::String => Some(TypeSchema::String),
        BoundType::Array => Some(TypeSchema::Array(Box::new(unknown))),
        BoundType::ArrayOf(_) => Some(TypeSchema::Array(Box::new(unknown))),
        BoundType::Mapping => Some(TypeSchema::Mapping(Box::new(unknown))),
        BoundType::MapOf(_) => Some(TypeSchema::Mapping(Box::new(unknown))),
    }
}

/// What two calls tell of the shape of one parameter.
pub open spec fn merged_param_shape(current: Option<SchemaV>, next: Option<SchemaV>) -> Option<
    SchemaV,
> {
    match (current, next) {
        (None, rhs) => rhs,
        (lhs, None) => lhs,
        (Some(lhs), Some(rhs)) => if same_shape(lhs, rhs) {
            Some(lhs)
        } else {
            None
        },
    }
}

pub fn merge_observed_function_param_schema(
    current: Option<TypeSchema>,
    next: Option<TypeSchema>,
) -> (r: Option<TypeSchema>)
    ensures
        opt_schema(r) == merged_param_shape(opt_schema(current), opt_schema(next)),
{
    match current {
        None => next,
        Some(lhs) => match next {
            None => Some(lhs),
            Some(rhs) => if is_same_schema(&lhs, &rhs) {
                Some(lhs)
            } else {
                None
            },
        },
    }
}

/// The shape of the elements of a container once it takes one more.
pub open spec fn merged_element(existing: SchemaV, next: Option<SchemaV>) -> SchemaV {
    match next {
        None => existing,
        Some(value) => if existing is Unknown {
            value
        } else if same_shape(existing, value) {
            existing
        } else {
            SchemaV::Unknown
        },
    }
}

fn merge_element(existing: TypeSchema, next: Option<TypeSchema>) -> (r: TypeSchema)
    ensures
        r@ == merged_element(existing@, opt_schema(next)),
{
    match next {
        None => existing,
        Some(value) => {
            let unknown = match existing {
                TypeSchema::Unknown => true,
                _ => false,
            };
            if unknown {
                value
            } else if is_same_schema(&existing, &value) {
                existing
            } else {
                TypeSchema::Unknown
            }
        },
    }
}

/// The shape of an array once a value is pushed to it.
pub open spec fn pushed_array(current: Option<SchemaV>, next: Option<SchemaV>) -> SchemaV {
    let existing = match current {
        Some(SchemaV::Array(element)) => *element,
        _ => SchemaV::Unknown,
    };
    SchemaV::Array(Box::new(merged_element(existing, next)))
}

pub fn merge_array_schema(current: Option<TypeSchema>, next: Option<TypeSchema>) -> (r: TypeSchema)
    ensures
        r@ == pushed_array(opt_schema(current), opt_schema(next)),
{
    let existing = match current {
        Some(TypeSchema::Array(element)) => *element,
        _ => TypeSchema::Unknown,
    };
    assert(existing@ == (match opt_schema(current) {
        Some(SchemaV::Array(element)) => *element,
        _ => SchemaV::Unknown,
    }));
    let merged = merge_element(existing, next);
    TypeSchema::Array(Box::new(merged))
}

pub open spec fn or_unknown(s: Option<SchemaV>) -> SchemaV {
    match s {
        Some(x) => x,
        None => SchemaV::Unknown,
    }
}

pub open spec fn unknown_map() -> SchemaV {
    SchemaV::Mapping(Box::new(SchemaV::Unknown))
}

/// The shape of a container once a key is set to a value.
pub open spec fn shape_with_key(
    container: Option<SchemaV>,
    key: ExprV,
    value: Option<SchemaV>,
) -> SchemaV {
    match container {
        Some(SchemaV::Object(fields)) => match key {
            ExprV::Str(name) => SchemaV::Object(with_field(fields, name, or_unknown(value))),
            _ => unknown_map(),
        },
        Some(SchemaV::Mapping(existing)) => SchemaV::Mapping(
            Box::new(merged_element(*existing, value)),
        ),
        Some(SchemaV::Array(existing)) => SchemaV::Array(
            Box::new(merged_element(*existing, value)),
        ),
        Some(other) => other,
        None => match key {
            ExprV::Str(name) => SchemaV::Object(seq![(name, or_unknown(value))]),
            ExprV::Int(_) => SchemaV::Mapping(Box::new(or_unknown(value))),
            _ => unknown_map(),
        },
    }
}

fn unwrap_schema(value: Option<TypeSchema>) -> (r: TypeSchema)
    ensures
        r@ == or_unknown(opt_schema(value)),
{
    match value {
        Some(s) => s,
        None => TypeSchema::Unknown,
    }
}

fn build_unknown_map() -> (r: TypeSchema)
    ensures
        r@ == unknown_map(),
{
    let unknown = TypeSchema::Unknown;
    assert(unknown@ == SchemaV::Unknown);
    TypeSchema::Mapping(Box::new(unknown))
}

pub fn infer_set_schema(container: Option<TypeSchema>, key: &Expr, value: Option<TypeSchema>) -> (r:
    TypeSchema)
    ensures
        r@ == shape_with_key(opt_schema(container), key@, opt_schema(value)),
{
    match container {
        Some(TypeSchema::Object(fields)) => match key {
            Expr::String(name) => {
                let mut list = fields;
                put_field(&mut list, name.clone(), unwrap_schema(value));
                TypeSchema::Object(list)
            },
            _ => build_unknown_map(),
        },
        Some(TypeSchema::Mapping(existing)) => {
            let merged = merge_element(*existing, value);
            TypeSchema::Mapping(Box::new(merged))
        },
        Some(TypeSchema::Array(existing)) => {
            let merged = merge_element(*existing, value);
            TypeSchema::Array(Box::new(merged))
        },
        Some(other) => other,
        None => match key {
            Expr::String(name) => {
                let entry = unwrap_schema(value);
                let ghost want = seq![(name@, entry@)];
                let mut list: Vec<(String, TypeSchema)> = Vec::new();
                list.push((name.clone(), entry));
                assert(fields_view(list@) =~= want);
                TypeSchema::Object(list)
            },
            Expr::Int(_) => {
                let entry = unwrap_schema(value);
                TypeSchema::Mapping(Box::new(entry))
            },
            _ => build_unknown_map(),
        },
    }
}

/// What a named structure stands for, by names not met so far. At most as many names are
/// followed as structures are declared, for a longer chain meets one again.
pub open spec fn resolved(
    structs: Seq<(Seq<char>, SchemaV)>,
    schema: SchemaV,
    seen: Seq<Seq<char>>,
    left: nat,
) -> SchemaV
    decreases left,
{
    match schema {
        SchemaV::Named(name) => if left > 0 && !seen.contains(name) && has_field(structs, name) {
            resolved(structs, field_schema(structs, name), seen.push(name), (left - 1) as nat)
        } else {
            schema
        },
        _ => schema,
    }
}

/// What a declared type stands for once names are followed.
pub open spec fn resolved_shape(structs: Seq<(Seq<char>, SchemaV)>, schema: SchemaV) -> SchemaV {
    resolved(structs, schema, Seq::empty(), structs.len())
}

fn holds_text(list: &Vec<String>, name: &str) -> (r: bool)
    ensures
        r == crate::ir::strings_view(list@).contains(name@),
{
    let ghost all = crate::ir::strings_view(list@);
    let mut i: usize = 0;
    while i < list.len()
        invariant
            i <= list@.len(),
            all == crate::ir::strings_view(list@),
            forall|k: int| 0 <= k < i ==> all[k] != name@,
        decreases list@.len() - i,
    {
        assert(all[i as int] == list@[i as int]@);
        if same_text(list[i].as_str(), name) {
            assert(all.contains(name@));
            return true;
        }
        i += 1;
    }
    false
}

pub fn resolve_schema(structs: &Vec<(String, TypeSchema)>, schema: &TypeSchema) -> (r: TypeSchema)
    ensures
        r@ == resolved_shape(fields_view(structs@), schema@),
{
    let ghost all = fields_view(structs@);
    assert(all.len() == structs@.len());
    let mut current = clone_schema(schema);
    let mut seen: Vec<String> = Vec::new();
    assert(crate::ir::strings_view(seen@) =~= Seq::<Seq<char>>::empty());
    let mut left: usize = structs.len();
    loop
        invariant
            all == fields_view(structs@),
            all.len() == structs@.len(),
            resolved_shape(all, schema@) == resolved(
                all,
                current@,
                crate::ir::strings_view(seen@),
                left as nat,
            ),
        decreases left,
    {
        let name = match &current {
            TypeSchema::Named(name) => name.clone(),
            _ => {
                return current;
            },
        };
        if left == 0 || holds_text(&seen, name.as_str()) {
            return current;
        }
        match find_field(structs, name.as_str()) {
            Some(k) => {
                assert(all[k as int] == (structs@[k as int].0@, structs@[k as int].1@));
                let ghost want = crate::ir::strings_view(seen@).push(name@);
                current = clone_schema(&structs[k].1);
                seen.push(name);
                assert(crate::ir::strings_view(seen@) =~= want);
                left -= 1;
            },
            None => {
                return current;
            },
        }
    }
}

/// Whether all fields from position `i` on have one shape.
pub open spec fn fields_alike(fields: Seq<(Seq<char>, SchemaV)>, first: SchemaV, i: int) -> bool
    decreases fields.len() - i,
{
    if i < 0 || i >= fields.len() {
        true
    } else {
        same_shape(fields[i].1, first) && fields_alike(fields, first, i + 1)
    }
}

/// The shape of a field whose name is not known.
pub open spec fn collapsed(fields: Seq<(Seq<char>, SchemaV)>) -> SchemaV {
    if fields.len() > 0 && fields_alike(fields, fields[0].1, 1) {
        fields[0].1
    } else {
        SchemaV::Unknown
    }
}

pub fn collapse_object_field_schema(fields: &Vec<(String, TypeSchema)>) -> (r: TypeSchema)
    ensures
        r@ == collapsed(fields_view(fields@)),
{
    let ghost all = fields_view(fields@);
    assert(all.len() == fields@.len());
    if fields.len() == 0 {
        return TypeSchema::Unknown;
    }
    assert(all[0] == (fields@[0].0@, fields@[0].1@));
    let mut i: usize = 1;
    while i < fields.len()
        invariant
            1 <= i <= fields@.len(),
            all == fields_view(fields@),
            all.len() == fields@.len(),
            all[0].1 == fields@[0].1@,
            fields_alike(all, all[0].1, 1) == fields_alike(all, all[0].1, i as int),
        decreases fields@.len() - i,
    {
        assert(all[i as int] == (fields@[i as int].0@, fields@[i as int].1@));
        if !is_same_schema(&fields[i].1, &fields[0].1) {
            return TypeSchema::Unknown;
        }
        i += 1;
    }
    clone_schema(&fields[0].1)
}

/// The shape that a key leads to, given the type of the key, or what is wrong with it.
pub open spec fn accessed(
    structs: Seq<(Seq<char>, SchemaV)>,
    schema: SchemaV,
    key: ExprV,
    key_ty: BoundType,
) -> Result<SchemaV, Seq<char>> {
    match resolved_shape(structs, schema) {
        SchemaV::Named(name) => Err("unknown struct schema '"@ + name + "'"@),
        SchemaV::Object(fields) => match key {
            ExprV::Str(name) => if has_field(fields, name) {
                Ok(field_schema(fields, name))
            } else {
                Err("field '"@ + name + "' is not declared in the object schema"@)
            },
            _ => if key_ty == BoundType::String || key_ty == BoundType::Unknown {
                Ok(collapsed(fields))
            } else {
                Err(
                    "schema-typed object access requires a string field name, got "@
                        + bound_label(key_ty),
                )
            },
        },
        SchemaV::Array(element) => if key_ty == BoundType::Unknown || key_ty == BoundType::Int {
            Ok(*element)
        } else {
            Err("schema-typed array access requires an int index, got "@ + bound_label(key_ty))
        },
        SchemaV::Mapping(value) => Ok(*value),
        other => Err("cannot access fields on schema type '"@ + shape_label(other) + "'"@),
    }
}

fn text3(a: &str, b: &str, c: &str) -> (r: String)
    ensures
        r@ == a@ + b@ + c@,
{
    let mut out = a.to_string();
    out.push_str(b);
    out.push_str(c);
    out
}

fn text2(a: &str, b: &str) -> (r: String)
    ensures
        r@ == a@ + b@,
{
    let mut out = a.to_string();
    out.push_str(b);
    out
}

pub fn infer_access_schema(
    structs: &Vec<(String, TypeSchema)>,
    schema: &TypeSchema,
    key: &Expr,
    key_ty: BoundType,
) -> (r: Result<TypeSchema, String>)
    ensures
        match accessed(fields_view(structs@), schema@, key@, key_ty) {
            Ok(s) => r is Ok && r->Ok_0@ == s,
            Err(e) => r is Err && r->Err_0@ == e,
        },
{
    let target = resolve_schema(structs, schema);
    match &target {
        TypeSchema::Named(name) => Err(text3("unknown struct schema '", name.as_str(), "'")),
        TypeSchema::Object(fields) => {
            assert(fields_view(fields@).len() == fields@.len());
            match key {
                Expr::String(name) => match find_field(fields, name.as_str()) {
                    Some(k) => {
                        assert(fields_view(fields@)[k as int] == (
                            fields@[k as int].0@,
                            fields@[k as int].1@,
                        ));
                        Ok(clone_schema(&fields[k].1))
                    },
                    None => Err(
                        text3("field '", name.as_str(), "' is not declared in the object schema"),
                    ),
                },
                _ => if key_ty == BoundType::String || key_ty == BoundType::Unknown {
                    Ok(collapse_object_field_schema(fields))
                } else {
                    Err(
                        text2(
                            "schema-typed object access requires a string field name, got ",
                            bound_type_label(key_ty),
                        ),
                    )
                },
            }
        },
        TypeSchema::Array(element) => if key_ty == BoundType::Unknown || key_ty == BoundType::Int {
            Ok(clone_schema(element))
        } else {
            Err(
                text2(
                    "schema-typed array access requires an int index, got ",
                    bound_type_label(key_ty),
                ),
            )
        },
        TypeSchema::Mapping(value) => Ok(clone_schema(value)),
        other => Err(text3("cannot access fields on schema type '", schema_label(other), "'")),
    }
}

/// What is known of an argument: its expression, its shape where one is known, and its type.
#[derive(Debug)]
pub struct ArgShape<'a> {
    pub expr: &'a Expr,
    pub schema: Option<TypeSchema>,
    pub ty: BoundType,
}

/// The model of what is known of an argument.
pub struct ArgShapeV {
    pub expr: ExprV,
    pub shape: Option<SchemaV>,
    pub ty: BoundType,
}

impl<'a> ArgShape<'a> {
    pub open spec fn view(&self) -> ArgShapeV {
        ArgShapeV { expr: self.expr@, shape: opt_schema(self.schema), ty: self.ty }
    }

    /// The shape, or else the one that stands for the type.
    fn value_schema(&self) -> (r: Option<TypeSchema>)
        ensures
            opt_schema(r) == self@.value_shape(),
    {
        match &self.schema {
            Some(s) => Some(clone_schema(s)),
            None => schema_from_bound_type(self.ty),
        }
    }

    fn container_schema(&self) -> (r: Option<TypeSchema>)
        ensures
            opt_schema(r) == self@.shape,
    {
        match &self.schema {
            Some(s) => Some(clone_schema(s)),
            None => None,
        }
    }
}

impl ArgShapeV {
    /// The shape, or else the one that stands for the type.
    pub open spec fn value_shape(self) -> Option<SchemaV> {
        match self.shape {
            Some(s) => Some(s),
            None => shape_of_type(self.ty),
        }
    }
}

pub open spec fn args_view(s: Seq<ArgShape<'_>>) -> Seq<ArgShapeV> {
    Seq::new(s.len(), |i: int| s[i]@)
}

/// The shape of what a call of a built-in function gives, where it is known.
pub open spec fn call_shape(
    structs: Seq<(Seq<char>, SchemaV)>,
    b: BuiltinFunction,
    args: Seq<ArgShapeV>,
) -> Option<SchemaV> {
    if b == BuiltinFunction::ArrayNew && args.len() == 0 {
        Some(SchemaV::Array(Box::new(SchemaV::Unknown)))
    } else if b == BuiltinFunction::MapNew && args.len() == 0 {
        Some(SchemaV::Object(Seq::empty()))
    } else if b == BuiltinFunction::ArrayPush && args.len() == 2 {
        Some(pushed_array(args[0].shape, args[1].value_shape()))
    } else if b == BuiltinFunction::SetAt && args.len() == 3 {
        Some(shape_with_key(args[0].shape, args[1].expr, args[2].value_shape()))
    } else if b == BuiltinFunction::Get && args.len() == 2 {
        match args[0].shape {
            Some(s) => match accessed(structs, s, args[1].expr, args[1].ty) {
                Ok(found) => Some(found),
                Err(_) => None,
            },
            None => None,
        }
    } else if b == BuiltinFunction::Slice && args.len() == 3 {
        match args[0].shape {
            Some(SchemaV::Array(element)) => Some(SchemaV::Array(element)),
            Some(SchemaV::Str) => Some(SchemaV::Str),
            _ => None,
        }
    } else {
        None
    }
}

pub fn infer_builtin_call_schema(
    structs: &Vec<(String, TypeSchema)>,
    builtin: BuiltinFunction,
    args: &Vec<ArgShape<'_>>,
) -> (r: Option<TypeSchema>)
    ensures
        opt_schema(r) == call_shape(fields_view(structs@), builtin, args_view(args@)),
{
    let ghost list = args_view(args@);
    if builtin == BuiltinFunction::ArrayNew && args.len() == 0 {
        let unknown = TypeSchema::Unknown;
        assert(unknown@ == SchemaV::Unknown);
        Some(TypeSchema::Array(Box::new(unknown)))
    } else if builtin == BuiltinFunction::MapNew && args.len() == 0 {
        let fields: Vec<(String, TypeSchema)> = Vec::new();
        assert(fields_view(fields@) =~= Seq::empty());
        Some(TypeSchema::Object(fields))
    } else if builtin == BuiltinFunction::ArrayPush && args.len() == 2 {
        assert(list[0] == args@[0]@ && list[1] == args@[1]@);
        Some(merge_array_schema(args[0].container_schema(), args[1].value_schema()))
    } else if builtin == BuiltinFunction::SetAt && args.len() == 3 {
        assert(list[0] == args@[0]@ && list[1] == args@[1]@ && list[2] == args@[2]@);
        Some(
            infer_set_schema(args[0].container_schema(), args[1].expr, args[2].value_schema()),
        )
    } else if builtin == BuiltinFunction::Get && args.len() == 2 {
        assert(list[0] == args@[0]@ && list[1] == args@[1]@);
        match &args[0].schema {
            Some(s) => match infer_access_schema(structs, s, args[1].expr, args[1].ty) {
                Ok(found) => Some(found),
                Err(_) => None,
            },
            None => None,
        }
    } else if builtin == BuiltinFunction::Slice && args.len() == 3 {
        assert(list[0] == args@[0]@);
        match &args[0].schema {
            Some(TypeSchema::Array(element)) => Some(
                TypeSchema::Array(Box::new(clone_schema(element))),
            ),
            Some(TypeSchema::String) => Some(TypeSchema::String),
            _ => None,
        }
    } else {
        None
    }
}

/// The shape of the result of two branches: that of the one, where the other gives null or
/// the same.
pub open spec fn branch_shape(lhs: Option<SchemaV>, rhs: Option<SchemaV>) -> Option<SchemaV> {
    match (lhs, rhs) {
        (Some(SchemaV::Null), other) => other,
        (other, Some(SchemaV::Null)) => other,
        (Some(a), Some(b)) => if same_shape(a, b) {
            Some(a)
        } else {
            None
        },
        _ => None,
    }
}

pub fn merge_branch_schemas(lhs: Option<TypeSchema>, rhs: Option<TypeSchema>) -> (r: Option<
    TypeSchema,
>)
    ensures
        opt_schema(r) == branch_shape(opt_schema(lhs), opt_schema(rhs)),
{
    match lhs {
        Some(TypeSchema::Null) => rhs,
        Some(a) => match rhs {
            Some(TypeSchema::Null) => Some(a),
            Some(b) => if is_same_schema(&a, &b) {
                Some(a)
            } else {
                None
            },
            None => None,
        },
        None => None,
    }
}

/// What the arms of a match have in common from arm `i` on, given what those before have:
/// nothing at all where two differ.
pub open spec fn arms_shape(
    arms: Seq<Option<SchemaV>>,
    so_far: Option<SchemaV>,
    i: int,
) -> Option<Option<SchemaV>>
    decreases arms.len() - i,
{
    if i < 0 || i >= arms.len() {
        Some(so_far)
    } else {
        match so_far {
            None => arms_shape(arms, arms[i], i + 1),
            Some(a) => match arms[i] {
                Some(b) => if same_shape(a, b) {
                    arms_shape(arms, so_far, i + 1)
                } else {
                    None
                },
                None => None,
            },
        }
    }
}

/// The shape of the result of a match.
pub open spec fn match_shape(arms: Seq<Option<SchemaV>>, default: Option<SchemaV>) -> Option<
    SchemaV,
> {
    match arms_shape(arms, None, 0) {
        Some(None) => default,
        Some(Some(a)) => branch_shape(Some(a), default),
        None => None,
    }
}

pub open spec fn opt_schemas(s: Seq<Option<TypeSchema>>) -> Seq<Option<SchemaV>> {
    Seq::new(s.len(), |i: int| opt_schema(s[i]))
}

pub fn merge_match_schemas(arms: &Vec<Option<TypeSchema>>, default: Option<TypeSchema>) -> (r:
    Option<TypeSchema>)
    ensures
        opt_schema(r) == match_shape(opt_schemas(arms@), opt_schema(default)),
{
    let ghost list = opt_schemas(arms@);
    let mut so_far: Option<TypeSchema> = None;
    let mut i: usize = 0;
    while i < arms.len()
        invariant
            i <= arms@.len(),
            list == opt_schemas(arms@),
            arms_shape(list, None, 0) == arms_shape(list, opt_schema(so_far), i as int),
        decreases arms@.len() - i,
    {
        assert(list[i as int] == opt_schema(arms@[i as int]));
        let same = match (&so_far, &arms[i]) {
            (Some(a), Some(b)) => is_same_schema(a, b),
            _ => false,
        };
        if so_far.is_none() {
            so_far = match &arms[i] {
                Some(s) => Some(clone_schema(s)),
                None => None,
            };
        } else if !same {
            return None;
        }
        i += 1;
    }
    match so_far {
        None => default,
        Some(a) => merge_branch_schemas(Some(a), default),
    }
}

/// A declared type is the same as itself where no structure in it has a field twice.
pub open spec fn well_named(s: SchemaV) -> bool
    decreases s,
{
    match s {
        SchemaV::Array(x) => well_named(*x),
        SchemaV::Mapping(x) => well_named(*x),
        SchemaV::Object(f) => fields_well_named(f, f.len()),
        _ => true,
    }
}

pub open spec fn fields_well_named(f: Seq<(Seq<char>, SchemaV)>, n: nat) -> bool
    decreases f, n,
{
    if n == 0 {
        true
    } else if n > f.len() {
        false
    } else {
        fields_well_named(f, (n - 1) as nat) && field_position(f, f[n - 1].0, f.len() as int) == n
            - 1 && well_named(f[n - 1].1)
    }
}

/// Every declared type whose structures have no field twice is the same as itself, so
/// that observing one shape again tells nothing new of a parameter.
pub proof fn law_observing_again(s: SchemaV)
    requires
        well_named(s),
    ensures
        same_shape(s, s),
        merged_param_shape(Some(s), Some(s)) == Some(s),
    decreases s, 1nat,
{
    match s {
        SchemaV::Array(x) => law_observing_again(*x),
        SchemaV::Mapping(x) => law_observing_again(*x),
        SchemaV::Object(f) => lemma_within_itself(f, f.len()),
        _ => {},
    }
}

proof fn lemma_within_itself(f: Seq<(Seq<char>, SchemaV)>, n: nat)
    requires
        n <= f.len(),
        fields_well_named(f, n),
    ensures
        fields_within(f, f, n),
    decreases f, n,
{
    if n > 0 {
        lemma_within_itself(f, (n - 1) as nat);
        law_observing_again(f[n - 1].1);
    }
}

/// A value that was set under a name is found under it.
pub proof fn law_set_then_get(
    structs: Seq<(Seq<char>, SchemaV)>,
    fields: Seq<(Seq<char>, SchemaV)>,
    name: Seq<char>,
    value: SchemaV,
    key_ty: BoundType,
)
    ensures
        accessed(
            structs,
            shape_with_key(Some(SchemaV::Object(fields)), ExprV::Str(name), Some(value)),
            ExprV::Str(name),
            key_ty,
        ) == Ok::<SchemaV, Seq<char>>(value),
{
    let after = with_field(fields, name, value);
    let k = field_position(fields, name, fields.len() as int);
    lemma_position_range(fields, name, fields.len() as int);
    if k >= 0 {
        lemma_position_kept(fields, name, value, k, fields.len() as int);
    }
}

proof fn lemma_position_range(fields: Seq<(Seq<char>, SchemaV)>, name: Seq<char>, n: int)
    requires
        0 <= n <= fields.len(),
    ensures
        -1 <= field_position(fields, name, n) < n,
    decreases n,
{
    if n > 0 {
        lemma_position_range(fields, name, n - 1);
    }
}

proof fn lemma_position_kept(
    fields: Seq<(Seq<char>, SchemaV)>,
    name: Seq<char>,
    value: SchemaV,
    k: int,
    n: int,
)
    requires
        0 <= k < n <= fields.len(),
        field_position(fields, name, n) == k,
    ensures
        field_position(fields.update(k, (name, value)), name, n) == k,
    decreases n,
{
    if n - 1 > k {
        lemma_position_kept(fields, name, value, k, n - 1);
    }
}

} // verus!
