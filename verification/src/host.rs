//! What a program knows of the functions around it.

use std::collections::HashMap;
use vstd::prelude::*;
use crate::builtins::{params_view, CallableParam, CallableParamType, ParamV};
use crate::infer::{impls_view, lookup, names_view, signatures_map_view, TypeEnvV};
use crate::ir::{FunctionDecl, FunctionImpl, ValueType};
use crate::text::same_text;
use crate::types::{bound_type_of, BoundType, HostCallableSignature, HostSignatureV};

verus! {

/// Puts an entry into a map under an integer key.
pub fn put<V>(map: &mut HashMap<u16, V>, key: u16, value: V)
    ensures
        final(map)@ == old(map)@.insert(key, value),
{
    broadcast use vstd::std_specs::hash::group_hash_axioms;

    map.insert(key, value);
}

/// The type of a parameter in the table of a host.
#[derive(Clone, Copy, Debug, PartialEq, Eq, Structural)]
pub enum AbiParamType {
    Any,
    Null,
    Int,
    Float,
    Bool,
    String,
    Array,
    Mapping,
    Number,
}

/// The type of a result in the table of a host.
#[derive(Clone, Copy, Debug, PartialEq, Eq, Structural)]
pub enum AbiValueType {
    Unknown,
    Null,
    Int,
    Float,
    Bool,
    String,
    Array,
    Mapping,
}

/// A function in the table of a host.
#[derive(Debug)]
pub struct AbiFunction {
    pub name: String,
    pub param_names: Vec<String>,
    pub param_types: Vec<AbiParamType>,
    pub return_type: AbiValueType,
}

/// The functions that a host offers: those it describes by full signatures come
/// before those in its table.
#[derive(Debug)]
pub struct HostFunctions {
    pub callables: Vec<HostCallableSignature>,
    pub table: Vec<AbiFunction>,
}

/// The parameter type that an entry of the table stands for.
pub open spec fn param_type_of(value: AbiParamType) -> CallableParamType {
    match value {
        AbiParamType::Any => CallableParamType::Any,
        AbiParamType::Null => CallableParamType::Null,
        AbiParamType::Int => CallableParamType::Int,
        AbiParamType::Float => CallableParamType::Float,
        AbiParamType::Bool => CallableParamType::Bool,
        AbiParamType::String => CallableParamType::String,
        AbiParamType::Array => CallableParamType::Array,
        AbiParamType::Mapping => CallableParamType::Mapping,
        AbiParamType::Number => CallableParamType::Number,
    }
}

pub fn callable_param_type_from_abi(value: AbiParamType) -> (r: CallableParamType)
    ensures
        r == param_type_of(value),
{
    match value {
        AbiParamType::Any => CallableParamType::Any,
        AbiParamType::Null => CallableParamType::Null,
        AbiParamType::Int => CallableParamType::Int,
        AbiParamType::Float => CallableParamType::Float,
        AbiParamType::Bool => CallableParamType::Bool,
        AbiParamType::String => CallableParamType::String,
        AbiParamType::Array => CallableParamType::Array,
        AbiParamType::Mapping => CallableParamType::Mapping,
        AbiParamType::Number => CallableParamType::Number,
    }
}

/// The parameters of a function in the table: as many as have a name and a type.
pub open spec fn abi_params(f: AbiFunction) -> Seq<ParamV> {
    let n = if f.param_names@.len() <= f.param_types@.len() {
        f.param_names@.len()
    } else {
        f.param_types@.len()
    };
    Seq::new(
        n,
        |i: int|
            ParamV {
                name: f.param_names@[i]@,
                ty: param_type_of(f.param_types@[i]),
                optional: false,
            },
    )
}

/// The first full signature with a name, from position `i` on.
pub open spec fn callable_named(
    list: Seq<HostCallableSignature>,
    name: Seq<char>,
    i: int,
) -> Option<HostSignatureV>
    decreases list.len() - i,
{
    if i < 0 || i >= list.len() {
        None
    } else if list[i].name@ == name {
        Some(list[i]@)
    } else {
        callable_named(list, name, i + 1)
    }
}

/// The first function of the table with a name, from position `i` on.
pub open spec fn table_entry_named(list: Seq<AbiFunction>, name: Seq<char>, i: int) -> Option<
    HostSignatureV,
>
    decreases list.len() - i,
{
    if i < 0 || i >= list.len() {
        None
    } else if list[i].name@ == name {
        Some(HostSignatureV { name, params: abi_params(list[i]) })
    } else {
        table_entry_named(list, name, i + 1)
    }
}

/// What a host says of a function.
pub open spec fn host_signature_of(host: HostFunctions, name: Seq<char>) -> Option<
    HostSignatureV,
> {
    match callable_named(host.callables@, name, 0) {
        Some(s) => Some(s),
        None => table_entry_named(host.table@, name, 0),
    }
}

pub fn known_host_signature(host: &HostFunctions, name: &str) -> (r: Option<HostCallableSignature>)
    ensures
        r is Some <==> host_signature_of(*host, name@) is Some,
        r matches Some(s) ==> host_signature_of(*host, name@) == Some(s@),
{
    let mut i: usize = 0;
    while i < host.callables.len()
        invariant
            i <= host.callables@.len(),
            callable_named(host.callables@, name@, 0) == callable_named(
                host.callables@,
                name@,
                i as int,
            ),
        decreases host.callables@.len() - i,
    {
        if same_text(host.callables[i].name.as_str(), name) {
            return Some(host.callables[i].clone());
        }
        i += 1;
    }
    let mut k: usize = 0;
    while k < host.table.len()
        invariant
            k <= host.table@.len(),
            callable_named(host.callables@, name@, 0) is None,
            table_entry_named(host.table@, name@, 0) == table_entry_named(
                host.table@,
                name@,
                k as int,
            ),
        decreases host.table@.len() - k,
    {
        if same_text(host.table[k].name.as_str(), name) {
            let function = &host.table[k];
            let mut params: Vec<CallableParam> = Vec::new();
            let mut p: usize = 0;
            while p < function.param_names.len() && p < function.param_types.len()
                invariant
                    p <= function.param_names@.len(),
                    p <= function.param_types@.len(),
                    params@.len() == p,
                    forall|j: int|
                        0 <= j < p ==> (#[trigger] params@[j])@ == abi_params(*function)[j],
                decreases function.param_names@.len() - p,
            {
                params.push(
                    CallableParam {
                        name: function.param_names[p].clone(),
                        ty: callable_param_type_from_abi(function.param_types[p]),
                        optional: false,
                    },
                );
                p += 1;
            }
            assert(params_view(params@) =~= abi_params(*function));
            return Some(HostCallableSignature { name: name.to_string(), params });
        }
        k += 1;
    }
    None
}

/// The value type that a result in the table stands for.
pub open spec fn value_type_of(value: AbiValueType) -> ValueType {
    match value {
        AbiValueType::Unknown => ValueType::Unknown,
        AbiValueType::Null => ValueType::Null,
        AbiValueType::Int => ValueType::Int,
        AbiValueType::Float => ValueType::Float,
        AbiValueType::Bool => ValueType::Bool,
        AbiValueType::String => ValueType::String,
        AbiValueType::Array => ValueType::Array,
        AbiValueType::Mapping => ValueType::Mapping,
    }
}

pub fn abi_value_type_to_value_type(value: AbiValueType) -> (r: ValueType)
    ensures
        r == value_type_of(value),
{
    match value {
        AbiValueType::Unknown => ValueType::Unknown,
        AbiValueType::Null => ValueType::Null,
        AbiValueType::Int => ValueType::Int,
        AbiValueType::Float => ValueType::Float,
        AbiValueType::Bool => ValueType::Bool,
        AbiValueType::String => ValueType::String,
        AbiValueType::Array => ValueType::Array,
        AbiValueType::Mapping => ValueType::Mapping,
    }
}

/// The position of the first function of the table with a name, from position `i` on.
pub open spec fn table_position(list: Seq<AbiFunction>, name: Seq<char>, i: int) -> Option<int>
    decreases list.len() - i,
{
    if i < 0 || i >= list.len() {
        None
    } else if list[i].name@ == name {
        Some(i)
    } else {
        table_position(list, name, i + 1)
    }
}

/// What the table of a host says that a function returns.
pub open spec fn host_return_type(host: HostFunctions, name: Seq<char>) -> ValueType {
    match table_position(host.table@, name, 0) {
        Some(k) => value_type_of(host.table@[k].return_type),
        None => ValueType::Unknown,
    }
}

/// The number of parameters before the first optional one, from position `i` on.
pub open spec fn leading_required(params: Seq<ParamV>, i: int) -> nat
    decreases params.len() - i,
{
    if i < 0 || i >= params.len() || params[i].optional {
        0
    } else {
        1 + leading_required(params, i + 1)
    }
}

/// Whether a host takes a number of arguments for a function. Its table counts before
/// its full signatures.
pub open spec fn host_accepts_arity(host: HostFunctions, name: Seq<char>, arity: u8) -> bool {
    match table_position(host.table@, name, 0) {
        Some(k) => host.table@[k].param_types@.len() == arity,
        None => match callable_named(host.callables@, name, 0) {
            Some(signature) => leading_required(signature.params, 0) <= arity
                <= signature.params.len(),
            None => false,
        },
    }
}

fn find_in_table(table: &Vec<AbiFunction>, name: &str) -> (r: Option<usize>)
    ensures
        match table_position(table@, name@, 0) {
            Some(k) => r is Some && r->0 == k && 0 <= k < table@.len(),
            None => r is None,
        },
{
    let mut i: usize = 0;
    while i < table.len()
        invariant
            i <= table@.len(),
            table_position(table@, name@, 0) == table_position(table@, name@, i as int),
        decreases table@.len() - i,
    {
        if same_text(table[i].name.as_str(), name) {
            return Some(i);
        }
        i += 1;
    }
    None
}

pub fn known_host_return_type(host: &HostFunctions, name: &str) -> (r: ValueType)
    ensures
        r == host_return_type(*host, name@),
{
    match find_in_table(&host.table, name) {
        Some(k) => abi_value_type_to_value_type(host.table[k].return_type),
        None => ValueType::Unknown,
    }
}

pub fn known_host_accepts_arity(host: &HostFunctions, name: &str, arity: u8) -> (r: bool)
    ensures
        r == host_accepts_arity(*host, name@, arity),
{
    match find_in_table(&host.table, name) {
        Some(k) => {
            return host.table[k].param_types.len() == arity as usize;
        },
        None => {},
    }
    let mut i: usize = 0;
    while i < host.callables.len()
        invariant
            i <= host.callables@.len(),
            callable_named(host.callables@, name@, 0) == callable_named(
                host.callables@,
                name@,
                i as int,
            ),
            table_position(host.table@, name@, 0) is None,
        decreases host.callables@.len() - i,
    {
        if same_text(host.callables[i].name.as_str(), name) {
            let required: usize = count_required(&host.callables[i].params);
            return required <= arity as usize && arity as usize <= host.callables[i].params.len();
        }
        i += 1;
    }
    false
}

fn count_required(params: &Vec<CallableParam>) -> (r: usize)
    ensures
        r == leading_required(params_view(params@), 0),
        params_view(params@).len() == params@.len(),
{
    let ghost pv = params_view(params@);
    let mut i: usize = 0;
    while i < params.len() && !params[i].optional
        invariant
            i <= params@.len(),
            pv == params_view(params@),
            leading_required(pv, 0) == i + leading_required(pv, i as int),
        decreases params@.len() - i,
    {
        assert(pv[i as int].optional == params@[i as int].optional);
        i += 1;
    }
    if i < params.len() {
        assert(pv[i as int].optional == params@[i as int].optional);
    }
    i
}

/// The names of the first `n` functions by index.
pub open spec fn function_names(decls: Seq<FunctionDecl>, n: int) -> Map<u16, Seq<char>>
    decreases n,
{
    if n <= 0 {
        Map::empty()
    } else {
        function_names(decls, n - 1).insert(decls[n - 1].index, decls[n - 1].name@)
    }
}

/// The declared return types of those of the first `n` functions that have no body.
pub open spec fn host_return_types(
    decls: Seq<FunctionDecl>,
    impls: Map<u16, FunctionImpl>,
    n: int,
) -> Map<u16, BoundType>
    decreases n,
{
    if n <= 0 {
        Map::empty()
    } else if impls.dom().contains(decls[n - 1].index) {
        host_return_types(decls, impls, n - 1)
    } else {
        host_return_types(decls, impls, n - 1).insert(
            decls[n - 1].index,
            bound_type_of(decls[n - 1].return_type),
        )
    }
}

/// The known signatures of those of the first `n` functions that have no body.
pub open spec fn host_signatures(
    decls: Seq<FunctionDecl>,
    impls: Map<u16, FunctionImpl>,
    host: HostFunctions,
    n: int,
) -> Map<u16, HostSignatureV>
    decreases n,
{
    if n <= 0 {
        Map::empty()
    } else if impls.dom().contains(decls[n - 1].index) {
        host_signatures(decls, impls, host, n - 1)
    } else {
        match host_signature_of(host, decls[n - 1].name@) {
            Some(s) => host_signatures(decls, impls, host, n - 1).insert(decls[n - 1].index, s),
            None => host_signatures(decls, impls, host, n - 1),
        }
    }
}

/// What inference knows of a program.
pub open spec fn program_env(
    decls: Seq<FunctionDecl>,
    impls: Map<u16, FunctionImpl>,
    host: HostFunctions,
) -> TypeEnvV {
    TypeEnvV {
        impls: impls_view(impls),
        names: function_names(decls, decls.len() as int),
        host_types: host_return_types(decls, impls, decls.len() as int),
        host_signatures: host_signatures(decls, impls, host, decls.len() as int),
    }
}

pub fn build_function_names(functions: &Vec<FunctionDecl>) -> (r: HashMap<u16, String>)
    ensures
        names_view(r@) == function_names(functions@, functions@.len() as int),
{
    let mut out: HashMap<u16, String> = HashMap::new();
    assert(names_view(out@) =~= Map::<u16, Seq<char>>::empty());
    let mut i: usize = 0;
    while i < functions.len()
        invariant
            i <= functions@.len(),
            names_view(out@) == function_names(functions@, i as int),
        decreases functions@.len() - i,
    {
        let ghost before = out@;
        let name = functions[i].name.clone();
        put(&mut out, functions[i].index, name);
        assert(names_view(out@) =~= names_view(before).insert(
            functions@[i as int].index,
            functions@[i as int].name@,
        ));
        i += 1;
    }
    out
}

pub fn build_host_import_return_types(
    functions: &Vec<FunctionDecl>,
    function_impls: &HashMap<u16, FunctionImpl>,
) -> (r: HashMap<u16, BoundType>)
    ensures
        r@ == host_return_types(functions@, function_impls@, functions@.len() as int),
{
    let mut out: HashMap<u16, BoundType> = HashMap::new();
    let mut i: usize = 0;
    while i < functions.len()
        invariant
            i <= functions@.len(),
            out@ == host_return_types(functions@, function_impls@, i as int),
        decreases functions@.len() - i,
    {
        if lookup(function_impls, functions[i].index).is_none() {
            put(&mut out, functions[i].index, BoundType::from(functions[i].return_type));
        }
        i += 1;
    }
    out
}

pub fn build_host_import_signatures(
    functions: &Vec<FunctionDecl>,
    function_impls: &HashMap<u16, FunctionImpl>,
    host: &HostFunctions,
) -> (r: HashMap<u16, HostCallableSignature>)
    ensures
        signatures_map_view(r@) == host_signatures(
            functions@,
            function_impls@,
            *host,
            functions@.len() as int,
        ),
{
    let mut out: HashMap<u16, HostCallableSignature> = HashMap::new();
    assert(signatures_map_view(out@) =~= Map::<u16, HostSignatureV>::empty());
    let mut i: usize = 0;
    while i < functions.len()
        invariant
            i <= functions@.len(),
            signatures_map_view(out@) == host_signatures(
                functions@,
                function_impls@,
                *host,
                i as int,
            ),
        decreases functions@.len() - i,
    {
        if lookup(function_impls, functions[i].index).is_none() {
            match known_host_signature(host, functions[i].name.as_str()) {
                Some(signature) => {
                    let ghost before = out@;
                    put(&mut out, functions[i].index, signature);
                    assert(signatures_map_view(out@) =~= signatures_map_view(before).insert(
                        functions@[i as int].index,
                        signature@,
                    ));
                },
                None => {},
            }
        }
        i += 1;
    }
    out
}

} // verus!
