//! What declared shapes are for: what is known of the shape of a value holds of it.

use vstd::prelude::*;
use crate::ir::ExprV;
use crate::schema::{field_position, has_field, SchemaV};
use crate::shapes::{
    accessed, arms_shape, branch_shape, field_schema, fields_within, match_shape, merged_element,
    merged_param_shape, pushed_array, resolved, resolved_shape, same_shape, shape_label,
    shape_of_type, shape_type,
};
use crate::types::BoundType;
use crate::values::{is_of, kind_name, Val};

verus! {

/// Whether a value has a shape.
pub open spec fn has_shape(v: Val, s: SchemaV) -> bool
    decreases s,
{
    match s {
        SchemaV::Unknown => true,
        SchemaV::Null => v is Null,
        SchemaV::Int => v is Int,
        SchemaV::Float => v is Float,
        SchemaV::Bool => v is Bool,
        SchemaV::Str => v is Str,
        SchemaV::Array(x) => v matches Val::Array(items) && forall|i: int|
            0 <= i < items.len() ==> has_shape(#[trigger] items[i], *x),
        SchemaV::Mapping(x) => v matches Val::Table(rows) && forall|i: int|
            0 <= i < rows.len() ==> has_shape((#[trigger] rows[i]).1, *x),
        SchemaV::Object(f) => v matches Val::Table(rows) && forall|i: int, k: int|
            0 <= i < rows.len() && 0 <= k < f.len() && (#[trigger] rows[i]).0 == Val::Str(
                (#[trigger] f[k]).0,
            ) ==> has_shape(rows[i].1, f[k].1),
        SchemaV::Named(_) => v is Table,
    }
}

/// A value that has a shape has the type of the shape and is called as the shape is; and a value
/// of a type has the shape that stands for the type.
pub proof fn law_shapes_tell_of_types(v: Val, s: SchemaV, ty: BoundType)
    ensures
        has_shape(v, s) ==> is_of(v, shape_type(s)),
        has_shape(v, s) && !(s is Unknown) ==> shape_label(s) == kind_name(v),
        is_of(v, ty) ==> (shape_of_type(ty) matches Some(t) ==> has_shape(v, t)),
        shape_of_type(ty) is None <==> ty == BoundType::Unknown,
        shape_type(s) == BoundType::Unknown <==> s is Unknown,
{
    if is_of(v, ty) {
        match shape_of_type(ty) {
            Some(SchemaV::Array(x)) => {
                assert(*x is Unknown);
                let items = v->Array_0;
                assert(v == Val::Array(items));
                assert forall|i: int| 0 <= i < items.len() implies has_shape(
                    #[trigger] items[i],
                    *x,
                ) by {}
                assert(has_shape(v, SchemaV::Array(x)));
            },
            Some(SchemaV::Mapping(x)) => {
                assert(*x is Unknown);
                let rows = v->Table_0;
                assert(v == Val::Table(rows));
                assert forall|i: int| 0 <= i < rows.len() implies has_shape(
                    (#[trigger] rows[i]).1,
                    *x,
                ) by {}
                assert(has_shape(v, SchemaV::Mapping(x)));
            },
            _ => {},
        }
    }
}

proof fn lemma_position_in(fields: Seq<(Seq<char>, SchemaV)>, name: Seq<char>, n: int)
    requires
        0 <= n <= fields.len(),
    ensures
        -1 <= field_position(fields, name, n) < n,
        field_position(fields, name, n) >= 0 ==> fields[field_position(fields, name, n)].0 == name,
    decreases n,
{
    if n > 0 && fields[n - 1].0 != name {
        lemma_position_in(fields, name, n - 1);
    }
}

proof fn lemma_within(
    f: Seq<(Seq<char>, SchemaV)>,
    g: Seq<(Seq<char>, SchemaV)>,
    n: nat,
    k: int,
)
    requires
        0 <= k < n <= f.len(),
        fields_within(f, g, n),
    ensures
        has_field(g, f[k].0),
        same_shape(f[k].1, field_schema(g, f[k].0)),
    decreases n,
{
    if k < n - 1 {
        lemma_within(f, g, (n - 1) as nat, k);
    }
}

/// A value that has a shape has every shape that is the same.
pub proof fn law_same_shapes_have_the_same_values(v: Val, a: SchemaV, b: SchemaV)
    requires
        same_shape(a, b),
        has_shape(v, b),
    ensures
        has_shape(v, a),
    decreases a,
{
    match a {
        SchemaV::Array(x) => {
            let y = b->Array_0;
            match v {
                Val::Array(items) => {
                    assert forall|i: int| 0 <= i < items.len() implies has_shape(
                        #[trigger] items[i],
                        *x,
                    ) by {
                        law_same_shapes_have_the_same_values(items[i], *x, *y);
                    }
                },
                _ => {},
            }
        },
        SchemaV::Mapping(x) => {
            let y = b->Mapping_0;
            match v {
                Val::Table(rows) => {
                    assert forall|i: int| 0 <= i < rows.len() implies has_shape(
                        (#[trigger] rows[i]).1,
                        *x,
                    ) by {
                        law_same_shapes_have_the_same_values(rows[i].1, *x, *y);
                    }
                },
                _ => {},
            }
        },
        SchemaV::Object(f) => {
            let g = b->Object_0;
            match v {
                Val::Table(rows) => {
                    assert forall|i: int, k: int|
                        0 <= i < rows.len() && 0 <= k < f.len() && (#[trigger] rows[i]).0
                            == Val::Str((#[trigger] f[k]).0) implies has_shape(
                        rows[i].1,
                        f[k].1,
                    ) by {
                        lemma_within(f, g, f.len(), k);
                        lemma_position_in(g, f[k].0, g.len() as int);
                        let m = field_position(g, f[k].0, g.len() as int);
                        assert(g[m].0 == f[k].0);
                        assert(has_shape(rows[i].1, g[m].1));
                        law_same_shapes_have_the_same_values(rows[i].1, f[k].1, g[m].1);
                    }
                },
                _ => {},
            }
        },
        _ => {},
    }
}

/// What two calls tell of a parameter, or two branches of a result, holds of the values of both:
/// where they tell the same, it stays; where they differ, nothing is known. A branch that gives
/// nothing tells nothing.
pub proof fn law_shapes_of_both_hold(v: Val, a: SchemaV, b: SchemaV)
    ensures
        has_shape(v, a) || has_shape(v, b) ==> (merged_param_shape(Some(a), Some(b)) matches Some(c)
            ==> has_shape(v, c)),
        !(a is Null) && !(b is Null) && (has_shape(v, a) || has_shape(v, b)) ==> (branch_shape(
            Some(a),
            Some(b),
        ) matches Some(c) ==> has_shape(v, c)),
        !same_shape(a, b) ==> merged_param_shape(Some(a), Some(b)) is None,
        !same_shape(a, b) && !(a is Null) && !(b is Null) ==> branch_shape(Some(a), Some(b)) is None,
        merged_param_shape(None, Some(a)) == Some(a),
        merged_param_shape(Some(a), None) == Some(a),
        branch_shape(Some(SchemaV::Null), Some(a)) == Some(a),
        branch_shape(Some(a), Some(SchemaV::Null)) == Some(a),
        !(a is Null) ==> branch_shape(Some(a), None) is None && branch_shape(None, Some(a)) is None,
{
    if same_shape(a, b) && has_shape(v, b) {
        law_same_shapes_have_the_same_values(v, a, b);
    }
}

/// The elements of a container have the shape that is known of them once one more is put in: of
/// the first one the shape it has, of others the one they share, else none.
pub proof fn law_shapes_of_elements(v: Val, x: SchemaV, y: SchemaV)
    ensures
        merged_element(SchemaV::Unknown, Some(y)) == y,
        merged_element(x, None) == x,
        !(x is Unknown) && (has_shape(v, x) || has_shape(v, y)) ==> has_shape(
            v,
            merged_element(x, Some(y)),
        ),
        !(x is Unknown) && !same_shape(x, y) ==> merged_element(x, Some(y)) is Unknown,
        !(x is Unknown) && same_shape(x, y) ==> merged_element(x, Some(y)) == x,
        pushed_array(Some(SchemaV::Array(Box::new(x))), Some(y)) == SchemaV::Array(
            Box::new(merged_element(x, Some(y))),
        ),
        pushed_array(None, Some(y)) == SchemaV::Array(Box::new(y)),
{
    if same_shape(x, y) && has_shape(v, y) {
        law_same_shapes_have_the_same_values(v, x, y);
    }
}

/// What a key leads to has the shape that is found for it: an element of an array, a value of a
/// map, and the field of an object that the key names.
pub proof fn law_accessed_shapes_hold(
    structs: Seq<(Seq<char>, SchemaV)>,
    s: SchemaV,
    key: ExprV,
    key_ty: BoundType,
    t: SchemaV,
    v: Val,
    i: int,
)
    requires
        !(s is Named),
        has_shape(v, s),
        accessed(structs, s, key, key_ty) == Ok::<SchemaV, Seq<char>>(t),
    ensures
        (s is Array) ==> (v matches Val::Array(items) && (0 <= i < items.len() ==> has_shape(
            items[i],
            t,
        ))),
        (s is Mapping) ==> (v matches Val::Table(rows) && (0 <= i < rows.len() ==> has_shape(
            rows[i].1,
            t,
        ))),
        (s is Object) ==> (key matches ExprV::Str(name) ==> (v matches Val::Table(rows) && (0 <= i
            < rows.len() && rows[i].0 == Val::Str(name) ==> has_shape(rows[i].1, t)))),
{
    assert(resolved_shape(structs, s) == s);
    match (s, key, v) {
        (SchemaV::Object(f), ExprV::Str(name), Val::Table(rows)) => {
            lemma_position_in(f, name, f.len() as int);
            let k = field_position(f, name, f.len() as int);
            if 0 <= i < rows.len() && rows[i].0 == Val::Str(name) {
                assert(rows[i].0 == Val::Str(f[k].0));
            }
        },
        _ => {},
    }
}

/// A key that leads nowhere is refused: a field that is not declared, and an index that is no
/// integer.
pub proof fn law_wrong_keys_are_refused(
    structs: Seq<(Seq<char>, SchemaV)>,
    fields: Seq<(Seq<char>, SchemaV)>,
    name: Seq<char>,
    x: SchemaV,
    key: ExprV,
    key_ty: BoundType,
)
    ensures
        !has_field(fields, name) ==> accessed(
            structs,
            SchemaV::Object(fields),
            ExprV::Str(name),
            key_ty,
        ) is Err,
        has_field(fields, name) ==> accessed(
            structs,
            SchemaV::Object(fields),
            ExprV::Str(name),
            key_ty,
        ) is Ok,
        accessed(structs, SchemaV::Array(Box::new(x)), key, key_ty) is Ok <==> key_ty
            == BoundType::Int || key_ty == BoundType::Unknown,
{
    assert(resolved_shape(structs, SchemaV::Object(fields)) == SchemaV::Object(fields));
    let a = SchemaV::Array(Box::new(x));
    assert(resolved_shape(structs, a) == a);
}

/// A name stands for the shape that was declared under it, and what has no name for itself.
pub proof fn law_names_stand_for_their_shape(
    structs: Seq<(Seq<char>, SchemaV)>,
    name: Seq<char>,
    s: SchemaV,
)
    ensures
        !(s is Named) ==> resolved_shape(structs, s) == s,
        has_field(structs, name) && !(field_schema(structs, name) is Named) ==> resolved_shape(
            structs,
            SchemaV::Named(name),
        ) == field_schema(structs, name),
        !has_field(structs, name) ==> resolved_shape(structs, SchemaV::Named(name))
            == SchemaV::Named(name),
{
    if has_field(structs, name) {
        lemma_position_in(structs, name, structs.len() as int);
        let inner = field_schema(structs, name);
        assert(!Seq::<Seq<char>>::empty().contains(name));
        if !(inner is Named) {
            assert(resolved(
                structs,
                inner,
                Seq::empty().push(name),
                (structs.len() - 1) as nat,
            ) == inner);
        }
    }
}

proof fn lemma_arms_alike(arms: Seq<Option<SchemaV>>, s: SchemaV, so_far: Option<SchemaV>, i: int)
    requires
        0 <= i <= arms.len(),
        same_shape(s, s),
        forall|k: int| 0 <= k < arms.len() ==> #[trigger] arms[k] == Some(s),
        so_far == Some(s) || (so_far is None && i < arms.len()),
    ensures
        arms_shape(arms, so_far, i) == Some(Some(s)),
    decreases arms.len() - i,
{
    if i < arms.len() {
        assert(arms[i] == Some(s));
        lemma_arms_alike(arms, s, Some(s), i + 1);
    }
}

/// A match whose arms all have one shape has it.
pub proof fn law_shapes_of_matches(
    arms: Seq<Option<SchemaV>>,
    s: SchemaV,
    default: Option<SchemaV>,
)
    requires
        same_shape(s, s),
        forall|k: int| 0 <= k < arms.len() ==> #[trigger] arms[k] == Some(s),
    ensures
        default == Some(s) ==> match_shape(arms, default) == Some(s),
        arms.len() == 0 ==> match_shape(arms, default) == default,
{
    if arms.len() > 0 {
        lemma_arms_alike(arms, s, None, 0);
    }
}

} // verus!
