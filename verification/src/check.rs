//! Type checks: branches must agree, calls must fit, and additions of parameters
//! must have a known type.

use vstd::prelude::*;
use crate::builtins::{
    builtin_at, builtin_name, builtin_params, params_view, signatures_view, BuiltinFunction,
    CallableParam, CallableParamType, CallableSignature, ParamV,
};
use crate::errors::{opt_text, CompileError, CompileErrorV, TypeErrorV};
use crate::fractions::{equal_fractions, fractions_equal};
use crate::infer::{
    bind_expr_result_to_slot, bind_result, binary_type, call_type, common_type, infer_all,
    infer_binary_type, infer_unary_type, is_numeric, is_numeric_bound_type, match_type,
    next_arm_type, observe, opt_stmt, stabilize_loop_state, unary_type, TypeContext, TypeEnvV,
    TypeNotes,
};
use crate::ir::{
    arms_view, exprs_view, stmts_view, BinOp, Expr, ExprV, LocalSlot, MatchPattern, PatternV, Stmt,
    StmtV,
};
use crate::text::{chars_of, decimal, push_decimal, same_text};
use crate::types::{
    are_compatible_bound_types, bound_label, bound_type_label, compatible, loop_join, BoundType,
    CallableBinding, CallableV, HostSignatureV, LocalTypeState, TypesV,
};

verus! {

/// Where a check stands: the line and source to report, and whether additions must
/// have a known type.
pub struct CheckPlace {
    pub line: Option<u32>,
    pub source: Option<Seq<char>>,
    pub strict: bool,
}

impl CheckPlace {
    pub open spec fn at(self, line: u32) -> CheckPlace {
        CheckPlace { line: Some(line), ..self }
    }

    pub open spec fn lenient(self) -> CheckPlace {
        CheckPlace { strict: false, ..self }
    }

    pub open spec fn error(self, detail: Seq<char>) -> TypeErrorV {
        TypeErrorV { line: self.line, source_name: self.source, detail }
    }
}

// ---------------------------------------------------------------------------
// Argument types.

/// Whether a parameter accepts an argument. An unknown type is always accepted.
pub open spec fn accepts(expected: CallableParamType, actual: BoundType) -> bool {
    actual == BoundType::Unknown || match expected {
        CallableParamType::Any => true,
        CallableParamType::Null => actual == BoundType::Null,
        CallableParamType::Int => actual == BoundType::Int,
        CallableParamType::Float => actual == BoundType::Float,
        CallableParamType::Bool => actual == BoundType::Bool,
        CallableParamType::String => actual == BoundType::String,
        CallableParamType::Array => actual is Array || actual is ArrayOf,
        CallableParamType::Mapping => actual is Mapping || actual is MapOf,
        CallableParamType::Number => is_numeric(actual),
    }
}

/// The number of parameters in front of the first optional one, from position `i` on.
pub open spec fn required_from(params: Seq<ParamV>, i: int) -> nat
    decreases params.len() - i,
{
    if i < 0 || i >= params.len() || params[i].optional {
        0
    } else {
        1 + required_from(params, i + 1)
    }
}

/// Whether arguments of given types fit a parameter list.
pub open spec fn params_match(params: Seq<ParamV>, actual: Seq<BoundType>) -> bool {
    &&& required_from(params, 0) <= actual.len() <= params.len()
    &&& forall|i: int| 0 <= i < actual.len() ==> accepts(params[i].ty, #[trigger] actual[i])
}

/// Whether arguments of given types fit one of several parameter lists.
pub open spec fn any_match(signatures: Seq<Seq<ParamV>>, actual: Seq<BoundType>) -> bool {
    exists|i: int| 0 <= i < signatures.len() && params_match(#[trigger] signatures[i], actual)
}

/// Texts with a separator between them, up to position `n`.
pub open spec fn joined(list: Seq<Seq<char>>, sep: Seq<char>, n: int) -> Seq<char>
    decreases n,
{
    if n <= 0 {
        Seq::empty()
    } else if n == 1 {
        list[0]
    } else {
        joined(list, sep, n - 1) + sep + list[n - 1]
    }
}

/// The text of a parameter.
pub open spec fn param_text(p: ParamV) -> Seq<char> {
    if p.optional {
        p.name + "?: "@ + p.ty.label_text()
    } else {
        p.name + ": "@ + p.ty.label_text()
    }
}

/// The text of a parameter list.
pub open spec fn params_text(params: Seq<ParamV>) -> Seq<char> {
    joined(Seq::new(params.len(), |i: int| param_text(params[i])), ", "@, params.len() as int)
}

/// The text of a list of argument types.
pub open spec fn actual_text(actual: Seq<BoundType>) -> Seq<char> {
    joined(Seq::new(actual.len(), |i: int| bound_label(actual[i])), ", "@, actual.len() as int)
}

/// The text of the ways to call a callable.
pub open spec fn overloads_text(name: Seq<char>, signatures: Seq<Seq<ParamV>>) -> Seq<char> {
    joined(
        Seq::new(signatures.len(), |i: int| name + "("@ + params_text(signatures[i]) + ")"@),
        " or "@,
        signatures.len() as int,
    )
}

/// The position of the first underscore from position `i` on.
pub open spec fn underscore_from(s: Seq<char>, i: int) -> int
    decreases s.len() - i,
{
    if i < 0 || i >= s.len() || s[i] == '_' {
        i
    } else {
        underscore_from(s, i + 1)
    }
}

/// A name with its first underscore written as a path separator.
pub open spec fn path_name(s: Seq<char>) -> Seq<char> {
    let k = underscore_from(s, 0);
    if k < s.len() {
        s.take(k) + "::"@ + s.skip(k + 1)
    } else {
        s
    }
}

/// The name of a built-in function in messages.
pub open spec fn builtin_display_name(b: BuiltinFunction) -> Seq<char> {
    match b {
        BuiltinFunction::Len => "len"@,
        BuiltinFunction::Slice => "slice"@,
        BuiltinFunction::Concat => "concat"@,
        BuiltinFunction::ArrayNew => "array_new"@,
        BuiltinFunction::ArrayPush => "array_push"@,
        BuiltinFunction::MapNew => "map_new"@,
        BuiltinFunction::Get => "get"@,
        BuiltinFunction::SetAt => "set"@,
        BuiltinFunction::Keys => "keys"@,
        BuiltinFunction::Count => "count"@,
        BuiltinFunction::TypeOf => "type"@,
        BuiltinFunction::Assert => "assert"@,
        _ => path_name(builtin_name(b)),
    }
}

fn param_accepts_bound_type(expected: CallableParamType, actual: BoundType) -> (r: bool)
    ensures
        r == accepts(expected, actual),
{
    if actual == BoundType::Unknown {
        return true;
    }
    match expected {
        CallableParamType::Any => true,
        CallableParamType::Null => actual == BoundType::Null,
        CallableParamType::Int => actual == BoundType::Int,
        CallableParamType::Float => actual == BoundType::Float,
        CallableParamType::Bool => actual == BoundType::Bool,
        CallableParamType::String => actual == BoundType::String,
        CallableParamType::Array => matches!(actual, BoundType::Array | BoundType::ArrayOf(_)),
        CallableParamType::Mapping => matches!(actual, BoundType::Mapping | BoundType::MapOf(_)),
        CallableParamType::Number => is_numeric_bound_type(actual),
    }
}

fn params_match_actual(params: &Vec<CallableParam>, actual: &Vec<BoundType>) -> (r: bool)
    ensures
        r == params_match(params_view(params@), actual@),
{
    let ghost list = params_view(params@);
    let mut required: usize = 0;
    while required < params.len() && !params[required].optional
        invariant
            required <= params@.len(),
            list == params_view(params@),
            required_from(list, 0) == required + required_from(list, required as int),
        decreases params@.len() - required,
    {
        required += 1;
    }
    if actual.len() < required || actual.len() > params.len() {
        return false;
    }
    let mut i: usize = 0;
    while i < actual.len()
        invariant
            i <= actual@.len() <= params@.len(),
            list == params_view(params@),
            forall|k: int| 0 <= k < i ==> accepts(list[k].ty, #[trigger] actual@[k]),
        decreases actual@.len() - i,
    {
        if !param_accepts_bound_type(params[i].ty, actual[i]) {
            assert(!accepts(list[i as int].ty, actual@[i as int]));
            return false;
        }
        i += 1;
    }
    true
}

/// Joins texts with a separator.
pub fn join_texts(list: &Vec<String>, sep: &str) -> (r: String)
    ensures
        r@ == joined(
            Seq::new(list@.len(), |i: int| list@[i]@),
            sep@,
            list@.len() as int,
        ),
{
    let ghost texts = Seq::new(list@.len(), |i: int| list@[i]@);
    let mut out = String::new();
    let mut i: usize = 0;
    while i < list.len()
        invariant
            i <= list@.len(),
            texts == Seq::new(list@.len(), |k: int| list@[k]@),
            out@ == joined(texts, sep@, i as int),
        decreases list@.len() - i,
    {
        let ghost before = out@;
        if i > 0 {
            out.push_str(sep);
        }
        out.push_str(list[i].as_str());
        i += 1;
        assert(out@ =~= joined(texts, sep@, i as int));
    }
    out
}

fn format_param(param: &CallableParam) -> (r: String)
    ensures
        r@ == param_text(param@),
{
    let mut out = param.name.clone();
    if param.optional {
        out.push_str("?: ");
    } else {
        out.push_str(": ");
    }
    out.push_str(param.ty.label());
    out
}

fn format_param_types(params: &Vec<CallableParam>) -> (r: String)
    ensures
        r@ == params_text(params_view(params@)),
{
    let mut texts: Vec<String> = Vec::new();
    let mut i: usize = 0;
    while i < params.len()
        invariant
            i <= params@.len(),
            texts@.len() == i,
            forall|k: int| 0 <= k < i ==> (#[trigger] texts@[k])@ == param_text(params@[k]@),
        decreases params@.len() - i,
    {
        texts.push(format_param(&params[i]));
        i += 1;
    }
    assert(Seq::new(texts@.len(), |i: int| texts@[i]@) =~= Seq::new(
        params_view(params@).len(),
        |i: int| param_text(params_view(params@)[i]),
    ));
    join_texts(&texts, ", ")
}

fn format_actual_arg_types(actual: &Vec<BoundType>) -> (r: String)
    ensures
        r@ == actual_text(actual@),
{
    let mut texts: Vec<String> = Vec::new();
    let mut i: usize = 0;
    while i < actual.len()
        invariant
            i <= actual@.len(),
            texts@.len() == i,
            forall|k: int| 0 <= k < i ==> (#[trigger] texts@[k])@ == bound_label(actual@[k]),
        decreases actual@.len() - i,
    {
        texts.push(bound_type_label(actual[i]).to_string());
        i += 1;
    }
    assert(Seq::new(texts@.len(), |i: int| texts@[i]@) =~= Seq::new(
        actual@.len(),
        |i: int| bound_label(actual@[i]),
    ));
    join_texts(&texts, ", ")
}

fn format_signature_overloads(name: &str, signatures: &Vec<CallableSignature>) -> (r: String)
    ensures
        r@ == overloads_text(name@, signatures_view(signatures@)),
{
    let mut texts: Vec<String> = Vec::new();
    let mut i: usize = 0;
    while i < signatures.len()
        invariant
            i <= signatures@.len(),
            texts@.len() == i,
            forall|k: int|
                0 <= k < i ==> (#[trigger] texts@[k])@ == name@ + "("@ + params_text(
                    params_view(signatures@[k].params@),
                ) + ")"@,
        decreases signatures@.len() - i,
    {
        let mut text = name.to_string();
        text.push_str("(");
        text.push_str(format_param_types(&signatures[i].params).as_str());
        text.push_str(")");
        texts.push(text);
        i += 1;
    }
    assert(Seq::new(texts@.len(), |i: int| texts@[i]@) =~= Seq::new(
        signatures_view(signatures@).len(),
        |i: int| name@ + "("@ + params_text(signatures_view(signatures@)[i]) + ")"@,
    ));
    join_texts(&texts, " or ")
}

pub fn display_name_for_builtin(builtin: BuiltinFunction) -> (r: String)
    ensures
        r@ == builtin_display_name(builtin),
{
    match builtin {
        BuiltinFunction::Len => "len".to_string(),
        BuiltinFunction::Slice => "slice".to_string(),
        BuiltinFunction::Concat => "concat".to_string(),
        BuiltinFunction::ArrayNew => "array_new".to_string(),
        BuiltinFunction::ArrayPush => "array_push".to_string(),
        BuiltinFunction::MapNew => "map_new".to_string(),
        BuiltinFunction::Get => "get".to_string(),
        BuiltinFunction::SetAt => "set".to_string(),
        BuiltinFunction::Keys => "keys".to_string(),
        BuiltinFunction::Count => "count".to_string(),
        BuiltinFunction::TypeOf => "type".to_string(),
        BuiltinFunction::Assert => "assert".to_string(),
        _ => first_underscore_to_path(builtin.name()),
    }
}

fn first_underscore_to_path(name: &str) -> (r: String)
    ensures
        r@ == path_name(name@),
{
    let chars = chars_of(name);
    let mut out = String::new();
    let mut i: usize = 0;
    while i < chars.len() && chars[i] != '_'
        invariant
            i <= chars@.len(),
            chars@ == name@,
            out@ == name@.take(i as int),
            underscore_from(name@, 0) == underscore_from(name@, i as int),
        decreases chars@.len() - i,
    {
        out.push(chars[i]);
        i += 1;
        assert(name@.take(i as int) =~= name@.take(i - 1).push(name@[i - 1]));
    }
    if i < chars.len() {
        out.push_str("::");
        let ghost front = out@;
        let mut k: usize = i + 1;
        assert(name@.subrange(i + 1, i + 1) =~= Seq::<char>::empty());
        assert(front + name@.subrange(i + 1, i + 1) =~= front);
        while k < chars.len()
            invariant
                i < k <= chars@.len(),
                chars@ == name@,
                out@ == front + name@.subrange(i + 1, k as int),
            decreases chars@.len() - k,
        {
            out.push(chars[k]);
            k += 1;
            assert(name@.subrange(i + 1, k as int) =~= name@.subrange(i + 1, k - 1).push(
                name@[k - 1],
            ));
            assert(out@ =~= front + name@.subrange(i + 1, k as int));
        }
        assert(name@.subrange(i + 1, k as int) =~= name@.skip(i + 1));
    } else {
        assert(name@.take(i as int) =~= name@);
    }
    out
}

// ---------------------------------------------------------------------------
// Guards and constants in conditions.

/// The type that a type name stands for.
pub open spec fn named_type(name: Seq<char>) -> Option<BoundType> {
    if name == "null"@ {
        Some(BoundType::Null)
    } else if name == "int"@ {
        Some(BoundType::Int)
    } else if name == "float"@ {
        Some(BoundType::Float)
    } else if name == "bool"@ {
        Some(BoundType::Bool)
    } else if name == "string"@ {
        Some(BoundType::String)
    } else if name == "array"@ {
        Some(BoundType::Array)
    } else if name == "map"@ {
        Some(BoundType::Mapping)
    } else {
        None
    }
}

/// The slot and type that `type(slot) == name` tests for.
pub open spec fn guard_side(lhs: ExprV, rhs: ExprV) -> Option<(LocalSlot, BoundType)> {
    match (lhs, rhs) {
        (ExprV::Call(index, args), ExprV::Str(name)) => if builtin_at(index) == Some(
            BuiltinFunction::TypeOf,
        ) && args.len() == 1 && args[0] is Var && named_type(name) is Some {
            Some((args[0]->Var_0, named_type(name)->0))
        } else {
            None
        },
        _ => None,
    }
}

/// The slot and type that a condition tests for.
pub open spec fn type_guard(condition: ExprV) -> Option<(LocalSlot, BoundType)> {
    match condition {
        ExprV::Binary(op, l, r) => if op is Eq {
            match guard_side(*l, *r) {
                Some(g) => Some(g),
                None => guard_side(*r, *l),
            }
        } else {
            None
        },
        _ => None,
    }
}

/// What is known where a condition holds.
pub open spec fn refined(state: TypesV, condition: ExprV) -> TypesV {
    match type_guard(condition) {
        Some((slot, ty)) => state.set(slot, ty),
        None => state,
    }
}

/// Whether two literals are equal, where that is plain to see.
pub open spec fn literals_equal(lhs: ExprV, rhs: ExprV) -> Option<bool> {
    match (lhs, rhs) {
        (ExprV::Null, ExprV::Null) => Some(true),
        (ExprV::Bool(a), ExprV::Bool(b)) => Some(a == b),
        (ExprV::Int(a), ExprV::Int(b)) => Some(a == b),
        (ExprV::Float(a), ExprV::Float(b)) => fractions_equal(a, b),
        (ExprV::Str(a), ExprV::Str(b)) => Some(a == b),
        _ => None,
    }
}

/// The value of a condition that is plain to see.
pub open spec fn static_bool(e: ExprV) -> Option<bool> {
    match e {
        ExprV::Bool(v) => Some(v),
        ExprV::Binary(op, l, r) => if op is Eq {
            literals_equal(*l, *r)
        } else {
            None
        },
        _ => None,
    }
}

fn bound_type_from_type_name(name: &str) -> (r: Option<BoundType>)
    ensures
        r == named_type(name@),
{
    if same_text(name, "null") {
        Some(BoundType::Null)
    } else if same_text(name, "int") {
        Some(BoundType::Int)
    } else if same_text(name, "float") {
        Some(BoundType::Float)
    } else if same_text(name, "bool") {
        Some(BoundType::Bool)
    } else if same_text(name, "string") {
        Some(BoundType::String)
    } else if same_text(name, "array") {
        Some(BoundType::Array)
    } else if same_text(name, "map") {
        Some(BoundType::Mapping)
    } else {
        None
    }
}

fn extract_type_guard_side(lhs: &Expr, rhs: &Expr) -> (r: Option<(LocalSlot, BoundType)>)
    ensures
        r == guard_side(lhs@, rhs@),
{
    match lhs {
        Expr::Call(index, args) => {
            assert(exprs_view(args@).len() == args@.len());
            if args.len() != 1 {
                return None;
            }
            assert(exprs_view(args@)[0] == args@[0]@);
            match BuiltinFunction::from_call_index(*index) {
                Some(b) => {
                    if b != BuiltinFunction::TypeOf {
                        return None;
                    }
                },
                None => {
                    return None;
                },
            }
            match (&args[0], rhs) {
                (Expr::Var(slot), Expr::String(name)) => match bound_type_from_type_name(
                    name.as_str(),
                ) {
                    Some(ty) => Some((*slot, ty)),
                    None => None,
                },
                _ => None,
            }
        },
        _ => None,
    }
}

fn extract_type_guard(condition: &Expr) -> (r: Option<(LocalSlot, BoundType)>)
    ensures
        r == type_guard(condition@),
{
    match condition {
        Expr::Eq(lhs, rhs) => match extract_type_guard_side(lhs, rhs) {
            Some(guard) => Some(guard),
            None => extract_type_guard_side(rhs, lhs),
        },
        _ => None,
    }
}

/// What is known where a condition holds, or does not hold.
pub fn refine_state_for_condition(state: &LocalTypeState, condition: &Expr, truthy: bool) -> (r:
    LocalTypeState)
    ensures
        r@ == if truthy {
            refined(state@, condition@)
        } else {
            state@
        },
{
    let mut out = state.clone();
    if truthy {
        match extract_type_guard(condition) {
            Some((slot, ty)) => out.set(slot, ty),
            None => {},
        }
    }
    out
}

fn eval_static_bool(expr: &Expr) -> (r: Option<bool>)
    ensures
        r == static_bool(expr@),
{
    match expr {
        Expr::Bool(value) => Some(*value),
        Expr::Eq(lhs, rhs) => equal_literals(lhs, rhs),
        _ => None,
    }
}

/// Whether two literals are equal, where that is plain to see.
fn equal_literals(lhs: &Expr, rhs: &Expr) -> (r: Option<bool>)
    ensures
        r == literals_equal(lhs@, rhs@),
{
    match (lhs, rhs) {
        (Expr::Null, Expr::Null) => Some(true),
        (Expr::Bool(a), Expr::Bool(b)) => Some(*a == *b),
        (Expr::Int(a), Expr::Int(b)) => Some(*a == *b),
        (Expr::Float(a), Expr::Float(b)) => equal_fractions(a.as_str(), b.as_str()),
        (Expr::String(a), Expr::String(b)) => Some(same_text(a.as_str(), b.as_str())),
        _ => None,
    }
}

// ---------------------------------------------------------------------------
// Branches.

/// The message on a branch whose results differ.
pub open spec fn branch_result_message(lhs: BoundType, rhs: BoundType) -> Seq<char> {
    "if/else branches produced incompatible expression result: "@ + bound_label(lhs) + " vs "@
        + bound_label(rhs)
}

/// The message on a branch that leaves a slot with different types.
pub open spec fn branch_slot_message(slot: u16, lhs: BoundType, rhs: BoundType) -> Seq<char> {
    "if/else branches assign incompatible types to local slot "@ + decimal(slot as nat) + ": "@
        + bound_label(lhs) + " vs "@ + bound_label(rhs)
}

/// The lowest slot from `i` on that two branches leave with incompatible types.
pub open spec fn clash_from(lhs: TypesV, rhs: TypesV, i: int) -> Option<u16>
    decreases 0x10000 - i,
{
    if i < 0 || i >= 0x10000 {
        None
    } else if !compatible(lhs.get(i as u16), rhs.get(i as u16)) {
        Some(i as u16)
    } else {
        clash_from(lhs, rhs, i + 1)
    }
}

/// Whether two branches may be joined.
pub open spec fn check_join(lhs: TypesV, rhs: TypesV, place: CheckPlace) -> Result<
    (),
    CompileErrorV,
> {
    match clash_from(lhs, rhs, 0) {
        Some(slot) => Err(
            CompileErrorV::IfElseBranchTypeMismatch(
                place.error(branch_slot_message(slot, lhs.get(slot), rhs.get(slot))),
            ),
        ),
        None => Ok(()),
    }
}

/// Two branches may be joined exactly where no slot has incompatible types.
pub proof fn law_join_check(lhs: TypesV, rhs: TypesV, place: CheckPlace)
    ensures
        check_join(lhs, rhs, place) is Ok <==> forall|slot: u16|
            compatible(#[trigger] lhs.get(slot), rhs.get(slot)),
{
    lemma_clash(lhs, rhs, 0);
    if clash_from(lhs, rhs, 0) is None {
        assert forall|slot: u16| compatible(#[trigger] lhs.get(slot), rhs.get(slot)) by {
            assert(slot as int as u16 == slot);
        }
    }
}

proof fn lemma_clash(lhs: TypesV, rhs: TypesV, i: int)
    requires
        0 <= i <= 0x10000,
    ensures
        clash_from(lhs, rhs, i) matches Some(slot) ==> !compatible(lhs.get(slot), rhs.get(slot)),
        clash_from(lhs, rhs, i) is None ==> forall|slot: u16|
            i <= slot ==> compatible(#[trigger] lhs.get(slot), rhs.get(slot)),
    decreases 0x10000 - i,
{
    if i < 0x10000 {
        lemma_clash(lhs, rhs, i + 1);
        if clash_from(lhs, rhs, i) is None {
            assert forall|slot: u16| i <= slot implies compatible(
                #[trigger] lhs.get(slot),
                rhs.get(slot),
            ) by {
                if slot == i {
                    assert(i as u16 == slot);
                }
            }
        }
    }
}

/// From a slot on that neither side knows, nothing clashes.
proof fn lemma_no_clash(lhs: TypesV, rhs: TypesV, i: int)
    requires
        0 <= i <= 0x10000,
        forall|slot: u16| i <= slot ==> #[trigger] lhs.get(slot) == BoundType::Unknown,
    ensures
        clash_from(lhs, rhs, i) is None,
    decreases 0x10000 - i,
{
    if i < 0x10000 {
        assert(lhs.get(i as u16) == BoundType::Unknown);
        lemma_no_clash(lhs, rhs, i + 1);
    }
}

// ---------------------------------------------------------------------------
// The model of the checks.

/// The result of a check, with the notes taken on the way to it or to its error.
pub type CheckR<T> = Result<(T, TypeNotes), (CompileErrorV, TypeNotes)>;

/// The types after statements, or the error that they ended with and the types at it; with
/// the notes taken on the way.
pub type CheckS = Result<(TypesV, TypeNotes), (CompileErrorV, TypesV, TypeNotes)>;

/// What statements come to whose expression was refused: nothing of them took place.
pub open spec fn refused_at(e: (CompileErrorV, TypeNotes), state: TypesV) -> CheckS {
    Err((e.0, state, e.1))
}

/// What statements come to that worked on copies and were refused.
pub open spec fn refused_on_copy(e: (CompileErrorV, TypesV, TypeNotes), state: TypesV) -> CheckS {
    Err((e.0, state, e.2))
}

/// The function of the program that a call goes to.
pub open spec fn called_function(env: TypeEnvV, e: ExprV, state: TypesV) -> Option<u16> {
    match e {
        ExprV::Call(index, _) => if env.impls.dom().contains(index) {
            Some(index)
        } else {
            None
        },
        ExprV::LocalCall(slot, _) => match state.callable(slot) {
            Some(CallableV::Function(index)) => if env.impls.dom().contains(index) {
                Some(index)
            } else {
                None
            },
            _ => None,
        },
        _ => None,
    }
}

/// The arguments of a call by index or by local.
pub open spec fn call_args(e: ExprV) -> Seq<ExprV> {
    match e {
        ExprV::Call(_, args) => args,
        ExprV::LocalCall(_, args) => args,
        _ => Seq::empty(),
    }
}

/// Notes the argument types of a call: an error where they conflict with other calls.
pub open spec fn check_observed(
    env: TypeEnvV,
    notes: TypeNotes,
    e: ExprV,
    state: TypesV,
    place: CheckPlace,
    depth: nat,
) -> CheckR<()> {
    match called_function(env, e, state) {
        Some(index) => {
            let n1 = observe(env, notes, index, call_args(e), state, depth);
            if n1.conflicts.dom().contains(index) {
                Err(
                    (
                        CompileErrorV::FunctionParameterTypeConflict(
                            place.error(n1.conflicts[index]),
                        ),
                        n1,
                    ),
                )
            } else {
                Ok(((), n1))
            }
        },
        None => Ok(((), notes)),
    }
}

/// The call index that a call goes to.
pub open spec fn call_target(e: ExprV, state: TypesV) -> Option<u16> {
    match e {
        ExprV::Call(index, _) => Some(index),
        ExprV::LocalCall(slot, _) => match state.callable(slot) {
            Some(CallableV::Function(index)) => Some(index),
            _ => None,
        },
        _ => None,
    }
}

/// The message on a built-in function called with arguments that it does not accept.
pub open spec fn builtin_args_message(b: BuiltinFunction, actual: Seq<BoundType>) -> Seq<char> {
    "builtin '"@ + builtin_display_name(b) + "' does not accept argument types ("@ + actual_text(
        actual,
    ) + "); expected "@ + overloads_text(builtin_display_name(b), seq![builtin_params(b)])
}

/// The message on a host function called with arguments that it does not accept.
pub open spec fn host_args_message(s: HostSignatureV, actual: Seq<BoundType>) -> Seq<char> {
    "host function '"@ + s.name + "' does not accept argument types ("@ + actual_text(actual)
        + "); expected "@ + s.name + "("@ + params_text(s.params) + ")"@
}

/// Whether the arguments of a call fit what it calls.
pub open spec fn check_args(
    env: TypeEnvV,
    notes: TypeNotes,
    e: ExprV,
    state: TypesV,
    place: CheckPlace,
    depth: nat,
) -> CheckR<()> {
    match call_target(e, state) {
        Some(index) => match builtin_at(index) {
            Some(b) => {
                let (actual, n1) = infer_all(env, notes, call_args(e), 0, state, depth);
                if any_match(seq![builtin_params(b)], actual) {
                    Ok(((), n1))
                } else {
                    Err(
                        (
                            CompileErrorV::CallableArgumentTypeMismatch(
                                place.error(builtin_args_message(b, actual)),
                            ),
                            n1,
                        ),
                    )
                }
            },
            None => if env.host_signatures.dom().contains(index) {
                let s = env.host_signatures[index];
                let (actual, n1) = infer_all(env, notes, call_args(e), 0, state, depth);
                if params_match(s.params, actual) {
                    Ok(((), n1))
                } else {
                    Err(
                        (
                            CompileErrorV::CallableArgumentTypeMismatch(
                                place.error(host_args_message(s, actual)),
                            ),
                            n1,
                        ),
                    )
                }
            } else {
                Ok(((), notes))
            },
        },
        None => Ok(((), notes)),
    }
}

/// Checks a list of expressions, from position `i` on.
pub open spec fn check_list(
    env: TypeEnvV,
    notes: TypeNotes,
    list: Seq<ExprV>,
    i: int,
    state: TypesV,
    place: CheckPlace,
    depth: nat,
) -> CheckR<()>
    decreases depth, 1nat, list.len() - i,
{
    if i < 0 || i >= list.len() {
        Ok(((), notes))
    } else {
        match check_expr(env, notes, list[i], state, place, depth) {
            Ok((_, n1)) => check_list(env, n1, list, i + 1, state, place, depth),
            Err(e) => Err(e),
        }
    }
}

/// Checks the arms of a match, from position `i` on.
pub open spec fn check_arms(
    env: TypeEnvV,
    notes: TypeNotes,
    arms: Seq<(PatternV, ExprV)>,
    i: int,
    state: TypesV,
    so_far: BoundType,
    place: CheckPlace,
    depth: nat,
) -> CheckR<BoundType>
    decreases depth, 1nat, arms.len() - i,
{
    if i < 0 || i >= arms.len() {
        Ok((so_far, notes))
    } else {
        match check_expr(env, notes, arms[i].1, state, place, depth) {
            Ok((ty, n1)) => check_arms(
                env,
                n1,
                arms,
                i + 1,
                state,
                next_arm_type(so_far, ty),
                place,
                depth,
            ),
            Err(e) => Err(e),
        }
    }
}

/// Checks the parts of a call or a closure.
pub open spec fn check_children(
    env: TypeEnvV,
    notes: TypeNotes,
    e: ExprV,
    state: TypesV,
    place: CheckPlace,
    depth: nat,
) -> CheckR<()>
    decreases depth, 2nat, 0nat,
{
    match e {
        ExprV::Call(_, args) => check_list(env, notes, args, 0, state, place, depth),
        ExprV::LocalCall(_, args) => check_list(env, notes, args, 0, state, place, depth),
        ExprV::Closure(closure) => match check_expr(
            env,
            notes,
            *closure.body,
            state,
            place.lenient(),
            depth,
        ) {
            Ok((_, n1)) => Ok(((), n1)),
            Err(e) => Err(e),
        },
        ExprV::ClosureCall(closure, args) => match check_expr(
            env,
            notes,
            *closure.body,
            state,
            place.lenient(),
            depth,
        ) {
            Ok((_, n1)) => check_list(env, n1, args, 0, state, place, depth),
            Err(e) => Err(e),
        },
        _ => Ok(((), notes)),
    }
}

/// Checks a call: its parts, its argument types, and finds its type.
pub open spec fn check_call(
    env: TypeEnvV,
    notes: TypeNotes,
    e: ExprV,
    state: TypesV,
    place: CheckPlace,
    depth: nat,
) -> CheckR<BoundType>
    decreases depth, 3nat, 0nat,
{
    match check_children(env, notes, e, state, place, depth) {
        Ok((_, n1)) => match check_observed(env, n1, e, state, place, depth) {
            Ok((_, n2)) => match check_args(env, n2, e, state, place, depth) {
                Ok((_, n3)) => Ok(call_type(env, n3, e, state, depth)),
                Err(e) => Err(e),
            },
            Err(e) => Err(e),
        },
        Err(e) => Err(e),
    }
}

/// The message on an addition of unknown type.
pub open spec fn add_message(lhs: BoundType, rhs: BoundType) -> Seq<char> {
    "cannot infer '+' operand types in function body: "@ + bound_label(lhs) + " vs "@ + bound_label(
        rhs,
    )
}

/// Checks a binary operation.
pub open spec fn check_binary(
    env: TypeEnvV,
    notes: TypeNotes,
    op: BinOp,
    lhs: ExprV,
    rhs: ExprV,
    state: TypesV,
    place: CheckPlace,
    depth: nat,
) -> CheckR<BoundType>
    decreases depth, 1nat, 0nat,
{
    match check_expr(env, notes, lhs, state, place, depth) {
        Ok((lt, n1)) => match check_expr(env, n1, rhs, state, place, depth) {
            Ok((rt, n2)) => {
                let ty = binary_type(op, lt, rt);
                if place.strict && op is Add && ty == BoundType::Unknown {
                    Err(
                        (
                            CompileErrorV::BinaryOperandTypeMismatch(
                                place.error(add_message(lt, rt)),
                            ),
                            n2,
                        ),
                    )
                } else {
                    Ok((ty, n2))
                }
            },
            Err(e) => Err(e),
        },
        Err(e) => Err(e),
    }
}

/// Checks a conditional expression: only the branch that is taken where that is
/// plain to see, else both, which must then agree.
pub open spec fn check_if_expr(
    env: TypeEnvV,
    notes: TypeNotes,
    condition: ExprV,
    then_expr: ExprV,
    else_expr: ExprV,
    state: TypesV,
    place: CheckPlace,
    depth: nat,
) -> CheckR<BoundType>
    decreases depth, 1nat, 0nat,
{
    match check_expr(env, notes, condition, state, place, depth) {
        Ok((_, n1)) => match static_bool(condition) {
            Some(true) => check_expr(env, n1, then_expr, refined(state, condition), place, depth),
            Some(false) => check_expr(env, n1, else_expr, state, place, depth),
            None => match check_expr(
                env,
                n1,
                then_expr,
                refined(state, condition),
                place,
                depth,
            ) {
                Ok((tt, n2)) => match check_expr(env, n2, else_expr, state, place, depth) {
                    Ok((et, n3)) => if compatible(tt, et) {
                        Ok((common_type(tt, et), n3))
                    } else {
                        Err(
                            (
                                CompileErrorV::IfElseBranchTypeMismatch(
                                    place.error(branch_result_message(tt, et)),
                                ),
                                n3,
                            ),
                        )
                    },
                    Err(e) => Err(e),
                },
                Err(e) => Err(e),
            },
        },
        Err(e) => Err(e),
    }
}

/// Checks a match.
pub open spec fn check_match(
    env: TypeEnvV,
    notes: TypeNotes,
    value_slot: LocalSlot,
    value: ExprV,
    arms: Seq<(PatternV, ExprV)>,
    default: ExprV,
    state: TypesV,
    place: CheckPlace,
    depth: nat,
) -> CheckR<BoundType>
    decreases depth, 2nat, 0nat,
{
    match check_expr(env, notes, value, state, place, depth) {
        Ok((vt, n1)) => {
            let nested = bind_result(state, value_slot, value, state, vt);
            match check_arms(env, n1, arms, 0, nested, BoundType::Unknown, place, depth) {
                Ok((at, n2)) => match check_expr(env, n2, default, nested, place, depth) {
                    Ok((dt, n3)) => Ok((match_type(arms.len() == 0, at, dt), n3)),
                    Err(e) => Err(e),
                },
                Err(e) => Err(e),
            }
        },
        Err(e) => Err(e),
    }
}

/// Checks an expression and finds its type.
pub open spec fn check_expr(
    env: TypeEnvV,
    notes: TypeNotes,
    e: ExprV,
    state: TypesV,
    place: CheckPlace,
    depth: nat,
) -> CheckR<BoundType>
    decreases depth, 0nat, 0nat,
{
    if depth == 0 {
        Ok((BoundType::Unknown, notes))
    } else {
        let d = (depth - 1) as nat;
        match e {
            ExprV::Null => Ok((BoundType::Null, notes)),
            ExprV::Int(_) => Ok((BoundType::Int, notes)),
            ExprV::Float(_) => Ok((BoundType::Float, notes)),
            ExprV::Bool(_) => Ok((BoundType::Bool, notes)),
            ExprV::Str(_) => Ok((BoundType::String, notes)),
            ExprV::Unary(op, inner) => match check_expr(env, notes, *inner, state, place, d) {
                Ok((ty, n1)) => Ok((unary_type(op, ty), n1)),
                Err(e) => Err(e),
            },
            ExprV::Var(slot) => Ok((state.get(slot), notes)),
            ExprV::MoveVar(slot) => Ok((state.get(slot), notes)),
            ExprV::MoveField(root, _) => Ok((state.get(root), notes)),
            ExprV::MoveIndex(root, _) => Ok((state.get(root), notes)),
            ExprV::Binary(op, l, r) => check_binary(env, notes, op, *l, *r, state, place, d),
            ExprV::IfElse(c, t, f) => check_if_expr(env, notes, *c, *t, *f, state, place, d),
            ExprV::Match { value_slot, value, arms, default, .. } => check_match(
                env,
                notes,
                value_slot,
                *value,
                arms,
                *default,
                state,
                place,
                d,
            ),
            ExprV::Block(stmts, expr) => match check_stmts(env, notes, stmts, 0, state, place, d) {
                Ok((nested, n1)) => check_expr(env, n1, *expr, nested, place, d),
                Err((e, _, n1)) => Err((e, n1)),
            },
            _ => check_call(env, notes, e, state, place, d),
        }
    }
}

/// Checks a list of statements, from position `i` on.
pub open spec fn check_stmts(
    env: TypeEnvV,
    notes: TypeNotes,
    stmts: Seq<StmtV>,
    i: int,
    state: TypesV,
    place: CheckPlace,
    depth: nat,
) -> CheckS
    decreases depth, 1nat, stmts.len() - i,
{
    if i < 0 || i >= stmts.len() {
        Ok((state, notes))
    } else {
        match check_stmt(env, notes, stmts[i], state, place, depth) {
            Ok((s1, n1)) => check_stmts(env, n1, stmts, i + 1, s1, place, depth),
            Err(e) => Err(e),
        }
    }
}

/// Checks an assignment.
pub open spec fn check_assign(
    env: TypeEnvV,
    notes: TypeNotes,
    index: LocalSlot,
    expr: ExprV,
    state: TypesV,
    place: CheckPlace,
    depth: nat,
) -> CheckS
    decreases depth, 1nat, 0nat,
{
    match check_expr(env, notes, expr, state, place, depth) {
        Ok((ty, n1)) => Ok((bind_result(state, index, expr, state, ty), n1)),
        Err(e) => refused_at(e, state),
    }
}

/// Checks one round of a loop.
pub open spec fn check_round(
    env: TypeEnvV,
    notes: TypeNotes,
    condition: ExprV,
    body: Seq<StmtV>,
    post: Option<StmtV>,
    state: TypesV,
    place: CheckPlace,
    depth: nat,
) -> CheckS
    decreases depth, 2nat, 0nat,
{
    match check_expr(env, notes, condition, state, place, depth) {
        Ok((_, n1)) => match check_stmts(env, n1, body, 0, state, place, depth) {
            Ok((s2, n2)) => match post {
                Some(p) => check_stmt(env, n2, p, s2, place, depth),
                None => Ok((s2, n2)),
            },
            Err(e) => Err(e),
        },
        Err(e) => refused_at(e, state),
    }
}

/// Checks a loop by two rounds.
pub open spec fn check_loop(
    env: TypeEnvV,
    notes: TypeNotes,
    condition: ExprV,
    body: Seq<StmtV>,
    post: Option<StmtV>,
    state: TypesV,
    place: CheckPlace,
    depth: nat,
) -> CheckS
    decreases depth, 3nat, 0nat,
{
    match check_round(env, notes, condition, body, post, state, place, depth) {
        Ok((first, n1)) => match check_round(
            env,
            n1,
            condition,
            body,
            post,
            first,
            place,
            depth,
        ) {
            Ok((second, n2)) => Ok((loop_join(state, first, second), n2)),
            Err(e) => refused_on_copy(e, state),
        },
        Err(e) => refused_on_copy(e, state),
    }
}

/// Checks a branch: both sides may be taken, so they must leave compatible types.
pub open spec fn check_if(
    env: TypeEnvV,
    notes: TypeNotes,
    condition: ExprV,
    then_branch: Seq<StmtV>,
    else_branch: Seq<StmtV>,
    state: TypesV,
    place: CheckPlace,
    depth: nat,
) -> CheckS
    decreases depth, 2nat, 0nat,
{
    match check_expr(env, notes, condition, state, place, depth) {
        Ok((_, n1)) => match check_stmts(env, n1, then_branch, 0, state, place, depth) {
            Ok((ts, n2)) => match check_stmts(env, n2, else_branch, 0, state, place, depth) {
                Ok((es, n3)) => match check_join(ts, es, place) {
                    Ok(_) => Ok((TypesV::join(ts, es), n3)),
                    Err(e) => Err((e, state, n3)),
                },
                Err(e) => refused_on_copy(e, state),
            },
            Err(e) => refused_on_copy(e, state),
        },
        Err(e) => refused_at(e, state),
    }
}

/// Checks a statement.
pub open spec fn check_stmt(
    env: TypeEnvV,
    notes: TypeNotes,
    stmt: StmtV,
    state: TypesV,
    place: CheckPlace,
    depth: nat,
) -> CheckS
    decreases depth, 0nat, 0nat,
{
    if depth == 0 {
        Ok((state, notes))
    } else {
        let d = (depth - 1) as nat;
        match stmt {
            StmtV::Drop { index, .. } => Ok((state.set(index, BoundType::Null), notes)),
            StmtV::ClosureLet { closure, .. } => match check_expr(
                env,
                notes,
                *closure.body,
                state,
                place.lenient(),
                d,
            ) {
                Ok((_, n1)) => Ok((state, n1)),
                Err(e) => refused_at(e, state),
            },
            StmtV::Let { index, expr, line } => check_assign(
                env,
                notes,
                index,
                expr,
                state,
                place.at(line),
                d,
            ),
            StmtV::Assign { index, expr, line } => check_assign(
                env,
                notes,
                index,
                expr,
                state,
                place.at(line),
                d,
            ),
            StmtV::Expr { expr, line } => match check_expr(
                env,
                notes,
                expr,
                state,
                place.at(line),
                d,
            ) {
                Ok((_, n1)) => Ok((state, n1)),
                Err(e) => refused_at(e, state),
            },
            StmtV::IfElse { condition, then_branch, else_branch, line } => check_if(
                env,
                notes,
                condition,
                then_branch,
                else_branch,
                state,
                place.at(line),
                d,
            ),
            StmtV::For { init, condition, post, body, line } => match check_stmt(
                env,
                notes,
                *init,
                state,
                place.at(line),
                d,
            ) {
                Ok((s1, n1)) => check_loop(
                    env,
                    n1,
                    condition,
                    body,
                    Some(*post),
                    s1,
                    place.at(line),
                    d,
                ),
                Err(e) => Err(e),
            },
            StmtV::While { condition, body, line } => check_loop(
                env,
                notes,
                condition,
                body,
                None,
                state,
                place.at(line),
                d,
            ),
            _ => Ok((state, notes)),
        }
    }
}

// ---------------------------------------------------------------------------
// The checks.

/// Where a check stands.
#[derive(Clone, Copy)]
pub struct Place<'s> {
    pub line: Option<u32>,
    pub source_name: Option<&'s str>,
    pub strict: bool,
}

impl<'s> Place<'s> {
    pub open spec fn view(&self) -> CheckPlace {
        CheckPlace {
            line: self.line,
            source: match self.source_name {
                Some(name) => Some(name@),
                None => None,
            },
            strict: self.strict,
        }
    }

    fn at(self, line: u32) -> (r: Place<'s>)
        ensures
            r@ == self@.at(line),
    {
        Place { line: Some(line), source_name: self.source_name, strict: self.strict }
    }

    fn lenient(self) -> (r: Place<'s>)
        ensures
            r@ == self@.lenient(),
    {
        Place { line: self.line, source_name: self.source_name, strict: false }
    }

    fn owned_source_name(self) -> (r: Option<String>)
        ensures
            opt_text(r) == self@.source,
    {
        match self.source_name {
            Some(name) => Some(name.to_string()),
            None => None,
        }
    }

    fn branch_error(self, detail: String) -> (r: CompileError)
        ensures
            r@ == CompileErrorV::IfElseBranchTypeMismatch(self@.error(detail@)),
    {
        CompileError::IfElseBranchTypeMismatch {
            line: self.line,
            source_name: self.owned_source_name(),
            detail,
        }
    }

    fn argument_error(self, detail: String) -> (r: CompileError)
        ensures
            r@ == CompileErrorV::CallableArgumentTypeMismatch(self@.error(detail@)),
    {
        CompileError::CallableArgumentTypeMismatch {
            line: self.line,
            source_name: self.owned_source_name(),
            detail,
        }
    }

    fn operand_error(self, detail: String) -> (r: CompileError)
        ensures
            r@ == CompileErrorV::BinaryOperandTypeMismatch(self@.error(detail@)),
    {
        CompileError::BinaryOperandTypeMismatch {
            line: self.line,
            source_name: self.owned_source_name(),
            detail,
        }
    }

    fn conflict_error(self, detail: String) -> (r: CompileError)
        ensures
            r@ == CompileErrorV::FunctionParameterTypeConflict(self@.error(detail@)),
    {
        CompileError::FunctionParameterTypeConflict {
            line: self.line,
            source_name: self.owned_source_name(),
            detail,
        }
    }
}

fn ensure_compatible_if_else_types(place: Place<'_>, lhs: BoundType, rhs: BoundType) -> (r: Result<
    (),
    CompileError,
>)
    ensures
        compatible(lhs, rhs) ==> r is Ok,
        !compatible(lhs, rhs) ==> r is Err && r->Err_0@ == CompileErrorV::IfElseBranchTypeMismatch(
            place@.error(branch_result_message(lhs, rhs)),
        ),
{
    if are_compatible_bound_types(lhs, rhs) {
        return Ok(());
    }
    let mut detail = "if/else branches produced incompatible expression result: ".to_string();
    detail.push_str(bound_type_label(lhs));
    detail.push_str(" vs ");
    detail.push_str(bound_type_label(rhs));
    Err(place.branch_error(detail))
}

fn validate_branch_state_merge(place: Place<'_>, lhs: &LocalTypeState, rhs: &LocalTypeState) -> (r:
    Result<(), CompileError>)
    ensures
        match check_join(lhs@, rhs@, place@) {
            Ok(_) => r is Ok,
            Err(e) => r is Err && r->Err_0@ == e,
        },
{
    let bound: u32 = lhs.slot_bound();
    let mut i: u32 = 0;
    while i < bound
        invariant
            i <= bound <= 0x10000,
            clash_from(lhs@, rhs@, 0) == clash_from(lhs@, rhs@, i as int),
        decreases bound - i,
    {
        let slot: u16 = i as u16;
        let left = lhs.get(slot);
        let right = rhs.get(slot);
        if !are_compatible_bound_types(left, right) {
            let mut detail =
                "if/else branches assign incompatible types to local slot ".to_string();
            push_decimal(&mut detail, slot as u64);
            detail.push_str(": ");
            detail.push_str(bound_type_label(left));
            detail.push_str(" vs ");
            detail.push_str(bound_type_label(right));
            return Err(place.branch_error(detail));
        }
        i += 1;
    }
    proof {
        lemma_no_clash(lhs@, rhs@, bound as int);
    }
    Ok(())
}

/// The function of the program that a call goes to.
fn direct_function_call(
    expr: &Expr,
    state: &LocalTypeState,
    context: &TypeContext<'_>,
) -> (r: Option<u16>)
    ensures
        r == called_function(context.env(), expr@, state@),
{
    match expr {
        Expr::Call(index, _) => if context.has_function_impl(*index) {
            Some(*index)
        } else {
            None
        },
        Expr::LocalCall(slot, _) => match state.callable(*slot) {
            Some(CallableBinding::Function(index)) => if context.has_function_impl(*index) {
                Some(*index)
            } else {
                None
            },
            _ => None,
        },
        _ => None,
    }
}

fn observe_direct_function_call_types(
    expr: &Expr,
    args: &Vec<Expr>,
    state: &LocalTypeState,
    place: Place<'_>,
    context: &mut TypeContext<'_>,
    depth: u64,
) -> (r: Result<(), CompileError>)
    requires
        exprs_view(args@) == call_args(expr@),
    ensures
        final(context).env() == old(context).env(),
        match check_observed(
            old(context).env(),
            old(context)@,
            expr@,
            state@,
            place@,
            depth as nat,
        ) {
            Ok((_, n)) => r is Ok && final(context)@ == n,
            Err((e, n)) => r is Err && r->Err_0@ == e && final(context)@ == n,
        },
{
    match direct_function_call(expr, state, context) {
        Some(index) => {
            context.observe_function_arg_types(index, args, state, depth);
            match context.function_param_conflict(index) {
                Some(detail) => Err(place.conflict_error(detail.clone())),
                None => Ok(()),
            }
        },
        None => Ok(()),
    }
}

/// The call index that a call goes to.
fn direct_call_target(expr: &Expr, state: &LocalTypeState) -> (r: Option<u16>)
    ensures
        r == call_target(expr@, state@),
{
    match expr {
        Expr::Call(index, _) => Some(*index),
        Expr::LocalCall(slot, _) => match state.callable(*slot) {
            Some(CallableBinding::Function(index)) => Some(*index),
            _ => None,
        },
        _ => None,
    }
}

fn any_signature_matches(signatures: &Vec<CallableSignature>, actual: &Vec<BoundType>) -> (r: bool)
    ensures
        r == any_match(signatures_view(signatures@), actual@),
{
    let mut i: usize = 0;
    while i < signatures.len()
        invariant
            i <= signatures@.len(),
            forall|k: int|
                0 <= k < i ==> !params_match(
                    #[trigger] signatures_view(signatures@)[k],
                    actual@,
                ),
        decreases signatures@.len() - i,
    {
        if params_match_actual(&signatures[i].params, actual) {
            assert(params_match(signatures_view(signatures@)[i as int], actual@));
            return true;
        }
        assert(!params_match(signatures_view(signatures@)[i as int], actual@));
        i += 1;
    }
    false
}

fn validate_call_argument_types(
    expr: &Expr,
    args: &Vec<Expr>,
    state: &LocalTypeState,
    place: Place<'_>,
    context: &mut TypeContext<'_>,
    depth: u64,
) -> (r: Result<(), CompileError>)
    requires
        exprs_view(args@) == call_args(expr@),
    ensures
        final(context).env() == old(context).env(),
        match check_args(
            old(context).env(),
            old(context)@,
            expr@,
            state@,
            place@,
            depth as nat,
        ) {
            Ok((_, n)) => r is Ok && final(context)@ == n,
            Err((e, n)) => r is Err && r->Err_0@ == e && final(context)@ == n,
        },
{
    let index = match direct_call_target(expr, state) {
        Some(index) => index,
        None => {
            return Ok(());
        },
    };
    match BuiltinFunction::from_call_index(index) {
        Some(builtin) => {
            let signatures = builtin.callable_signatures();
            let actual = context.infer_expr_types(args, state, depth);
            if any_signature_matches(&signatures, &actual) {
                return Ok(());
            }
            let name = display_name_for_builtin(builtin);
            let mut detail = "builtin '".to_string();
            detail.push_str(name.as_str());
            detail.push_str("' does not accept argument types (");
            detail.push_str(format_actual_arg_types(&actual).as_str());
            detail.push_str("); expected ");
            detail.push_str(format_signature_overloads(name.as_str(), &signatures).as_str());
            Err(place.argument_error(detail))
        },
        None => match context.host_signature(index) {
            Some(signature) => {
                let actual = context.infer_expr_types(args, state, depth);
                if params_match_actual(&signature.params, &actual) {
                    return Ok(());
                }
                let mut detail = "host function '".to_string();
                detail.push_str(signature.name.as_str());
                detail.push_str("' does not accept argument types (");
                detail.push_str(format_actual_arg_types(&actual).as_str());
                detail.push_str("); expected ");
                detail.push_str(signature.name.as_str());
                detail.push_str("(");
                detail.push_str(format_param_types(&signature.params).as_str());
                detail.push_str(")");
                Err(place.argument_error(detail))
            },
            None => Ok(()),
        },
    }
}

fn validate_exprs(
    args: &Vec<Expr>,
    state: &LocalTypeState,
    place: Place<'_>,
    context: &mut TypeContext<'_>,
    depth: u64,
) -> (r: Result<(), CompileError>)
    ensures
        final(context).env() == old(context).env(),
        match check_list(
            old(context).env(),
            old(context)@,
            exprs_view(args@),
            0,
            state@,
            place@,
            depth as nat,
        ) {
            Ok((_, n)) => r is Ok && final(context)@ == n,
            Err((e, n)) => r is Err && r->Err_0@ == e && final(context)@ == n,
        },
    decreases depth, 1nat,
{
    let ghost env = context.env();
    let ghost list = exprs_view(args@);
    let ghost total = check_list(env, context@, list, 0, state@, place@, depth as nat);
    let mut i: usize = 0;
    while i < args.len()
        invariant
            i <= args@.len(),
            list == exprs_view(args@),
            env == old(context).env(),
            context.env() == env,
            total == check_list(env, old(context)@, list, 0, state@, place@, depth as nat),
            total == check_list(env, context@, list, i as int, state@, place@, depth as nat),
        decreases args@.len() - i,
    {
        match validate_expr(&args[i], state, place, context, depth) {
            Ok(_) => {},
            Err(e) => {
                return Err(e);
            },
        }
        i += 1;
    }
    Ok(())
}

fn validate_arms(
    arms: &Vec<(MatchPattern, Expr)>,
    state: &LocalTypeState,
    place: Place<'_>,
    context: &mut TypeContext<'_>,
    depth: u64,
) -> (r: Result<BoundType, CompileError>)
    ensures
        final(context).env() == old(context).env(),
        match check_arms(
            old(context).env(),
            old(context)@,
            arms_view(arms@),
            0,
            state@,
            BoundType::Unknown,
            place@,
            depth as nat,
        ) {
            Ok((ty, n)) => r is Ok && r->Ok_0 == ty && final(context)@ == n,
            Err((e, n)) => r is Err && r->Err_0@ == e && final(context)@ == n,
        },
    decreases depth, 1nat,
{
    let ghost env = context.env();
    let ghost list = arms_view(arms@);
    let mut arm_type = BoundType::Unknown;
    let ghost total = check_arms(env, context@, list, 0, state@, arm_type, place@, depth as nat);
    let mut i: usize = 0;
    while i < arms.len()
        invariant
            i <= arms@.len(),
            list == arms_view(arms@),
            env == old(context).env(),
            context.env() == env,
            total == check_arms(
                env,
                old(context)@,
                list,
                0,
                state@,
                BoundType::Unknown,
                place@,
                depth as nat,
            ),
            total == check_arms(
                env,
                context@,
                list,
                i as int,
                state@,
                arm_type,
                place@,
                depth as nat,
            ),
        decreases arms@.len() - i,
    {
        let ty = match validate_expr(&arms[i].1, state, place, context, depth) {
            Ok(v) => v,
            Err(e) => {
                return Err(e);
            },
        };
        arm_type = if arm_type == BoundType::Unknown {
            ty
        } else if arm_type == ty {
            arm_type
        } else {
            BoundType::Unknown
        };
        i += 1;
    }
    Ok(arm_type)
}

fn validate_expr_children(
    expr: &Expr,
    state: &LocalTypeState,
    place: Place<'_>,
    context: &mut TypeContext<'_>,
    depth: u64,
) -> (r: Result<(), CompileError>)
    ensures
        final(context).env() == old(context).env(),
        match check_children(
            old(context).env(),
            old(context)@,
            expr@,
            state@,
            place@,
            depth as nat,
        ) {
            Ok((_, n)) => r is Ok && final(context)@ == n,
            Err((e, n)) => r is Err && r->Err_0@ == e && final(context)@ == n,
        },
    decreases depth, 2nat,
{
    match expr {
        Expr::Call(_, args) | Expr::LocalCall(_, args) => {
            validate_exprs(args, state, place, context, depth)
        },
        Expr::Closure(closure) => {
            assert(*closure@.body == closure.body@);
            match validate_expr(&closure.body, state, place.lenient(), context, depth) {
                Ok(_) => {},
                Err(e) => {
                    return Err(e);
                },
            }
            Ok(())
        },
        Expr::ClosureCall(closure, args) => {
            assert(*closure@.body == closure.body@);
            match validate_expr(&closure.body, state, place.lenient(), context, depth) {
                Ok(_) => {},
                Err(e) => {
                    return Err(e);
                },
            }
            validate_exprs(args, state, place, context, depth)
        },
        _ => Ok(()),
    }
}

fn validate_call(
    expr: &Expr,
    state: &LocalTypeState,
    place: Place<'_>,
    context: &mut TypeContext<'_>,
    depth: u64,
) -> (r: Result<BoundType, CompileError>)
    ensures
        final(context).env() == old(context).env(),
        match check_call(old(context).env(), old(context)@, expr@, state@, place@, depth as nat) {
            Ok((ty, n)) => r is Ok && r->Ok_0 == ty && final(context)@ == n,
            Err((e, n)) => r is Err && r->Err_0@ == e && final(context)@ == n,
        },
    decreases depth, 3nat,
{
    match validate_expr_children(expr, state, place, context, depth) {
        Ok(()) => {},
        Err(e) => {
            return Err(e);
        },
    }
    match expr {
        Expr::Call(_, args) | Expr::LocalCall(_, args) => {
            match observe_direct_function_call_types(expr, args, state, place, context, depth) {
                Ok(()) => {},
                Err(e) => {
                    return Err(e);
                },
            }
            match validate_call_argument_types(expr, args, state, place, context, depth) {
                Ok(()) => {},
                Err(e) => {
                    return Err(e);
                },
            }
        },
        _ => {},
    }
    Ok(context.infer_call_like_expr_type(expr, state, depth))
}

fn validate_binary(
    expr: &Expr,
    op: BinOp,
    lhs: &Expr,
    rhs: &Expr,
    state: &LocalTypeState,
    place: Place<'_>,
    context: &mut TypeContext<'_>,
    depth: u64,
) -> (r: Result<BoundType, CompileError>)
    requires
        expr@ == ExprV::Binary(op, Box::new(lhs@), Box::new(rhs@)),
    ensures
        final(context).env() == old(context).env(),
        match check_binary(
            old(context).env(),
            old(context)@,
            op,
            lhs@,
            rhs@,
            state@,
            place@,
            depth as nat,
        ) {
            Ok((ty, n)) => r is Ok && r->Ok_0 == ty && final(context)@ == n,
            Err((e, n)) => r is Err && r->Err_0@ == e && final(context)@ == n,
        },
    decreases depth, 1nat,
{
    let lhs_ty = match validate_expr(lhs, state, place, context, depth) {
        Ok(v) => v,
        Err(e) => {
            return Err(e);
        },
    };
    let rhs_ty = match validate_expr(rhs, state, place, context, depth) {
        Ok(v) => v,
        Err(e) => {
            return Err(e);
        },
    };
    let inferred = infer_binary_type(expr, lhs_ty, rhs_ty);
    if place.strict && op == BinOp::Add && inferred == BoundType::Unknown {
        let mut detail = "cannot infer '+' operand types in function body: ".to_string();
        detail.push_str(bound_type_label(lhs_ty));
        detail.push_str(" vs ");
        detail.push_str(bound_type_label(rhs_ty));
        return Err(place.operand_error(detail));
    }
    Ok(inferred)
}

fn validate_if_expr(
    condition: &Expr,
    then_expr: &Expr,
    else_expr: &Expr,
    state: &LocalTypeState,
    place: Place<'_>,
    context: &mut TypeContext<'_>,
    depth: u64,
) -> (r: Result<BoundType, CompileError>)
    ensures
        final(context).env() == old(context).env(),
        match check_if_expr(
            old(context).env(),
            old(context)@,
            condition@,
            then_expr@,
            else_expr@,
            state@,
            place@,
            depth as nat,
        ) {
            Ok((ty, n)) => r is Ok && r->Ok_0 == ty && final(context)@ == n,
            Err((e, n)) => r is Err && r->Err_0@ == e && final(context)@ == n,
        },
    decreases depth, 1nat,
{
    match validate_expr(condition, state, place, context, depth) {
        Ok(_) => {},
        Err(e) => {
            return Err(e);
        },
    }
    let then_state = refine_state_for_condition(state, condition, true);
    let else_state = refine_state_for_condition(state, condition, false);
    match eval_static_bool(condition) {
        Some(taken) => {
            if taken {
                validate_expr(then_expr, &then_state, place, context, depth)
            } else {
                validate_expr(else_expr, &else_state, place, context, depth)
            }
        },
        None => {
            let then_ty = match validate_expr(then_expr, &then_state, place, context, depth) {
                Ok(v) => v,
                Err(e) => {
                    return Err(e);
                },
            };
            let else_ty = match validate_expr(else_expr, &else_state, place, context, depth) {
                Ok(v) => v,
                Err(e) => {
                    return Err(e);
                },
            };
            match ensure_compatible_if_else_types(place, then_ty, else_ty) {
                Ok(()) => {},
                Err(e) => {
                    return Err(e);
                },
            }
            if then_ty == else_ty {
                Ok(then_ty)
            } else {
                Ok(BoundType::Unknown)
            }
        },
    }
}

fn validate_match(
    value_slot: LocalSlot,
    value: &Expr,
    arms: &Vec<(MatchPattern, Expr)>,
    default: &Expr,
    state: &LocalTypeState,
    place: Place<'_>,
    context: &mut TypeContext<'_>,
    depth: u64,
) -> (r: Result<BoundType, CompileError>)
    ensures
        final(context).env() == old(context).env(),
        match check_match(
            old(context).env(),
            old(context)@,
            value_slot,
            value@,
            arms_view(arms@),
            default@,
            state@,
            place@,
            depth as nat,
        ) {
            Ok((ty, n)) => r is Ok && r->Ok_0 == ty && final(context)@ == n,
            Err((e, n)) => r is Err && r->Err_0@ == e && final(context)@ == n,
        },
    decreases depth, 2nat,
{
    let value_ty = match validate_expr(value, state, place, context, depth) {
        Ok(v) => v,
        Err(e) => {
            return Err(e);
        },
    };
    let mut nested = state.clone();
    bind_expr_result_to_slot(&mut nested, value_slot, value, state, value_ty);
    let arm_type = match validate_arms(arms, &nested, place, context, depth) {
        Ok(v) => v,
        Err(e) => {
            return Err(e);
        },
    };
    let default_ty = match validate_expr(default, &nested, place, context, depth) {
        Ok(v) => v,
        Err(e) => {
            return Err(e);
        },
    };
    if arms.len() == 0 {
        Ok(default_ty)
    } else if arm_type != BoundType::Unknown && arm_type == default_ty {
        Ok(arm_type)
    } else {
        Ok(BoundType::Unknown)
    }
}

/// Checks an expression and finds its type.
#[verifier::spinoff_prover]
#[verifier::rlimit(60)]
pub fn validate_expr(
    expr: &Expr,
    state: &LocalTypeState,
    place: Place<'_>,
    context: &mut TypeContext<'_>,
    depth: u64,
) -> (r: Result<BoundType, CompileError>)
    ensures
        final(context).env() == old(context).env(),
        match check_expr(old(context).env(), old(context)@, expr@, state@, place@, depth as nat) {
            Ok((ty, n)) => r is Ok && r->Ok_0 == ty && final(context)@ == n,
            Err((e, n)) => r is Err && r->Err_0@ == e && final(context)@ == n,
        },
    decreases depth, 0nat,
{
    if depth == 0 {
        return Ok(BoundType::Unknown);
    }
    let d: u64 = depth - 1;
    match expr {
        Expr::Null => Ok(BoundType::Null),
        Expr::Int(_) => Ok(BoundType::Int),
        Expr::Float(_) => Ok(BoundType::Float),
        Expr::Bool(_) => Ok(BoundType::Bool),
        Expr::String(_) => Ok(BoundType::String),
        Expr::ToOwned(inner) | Expr::Borrow(inner) | Expr::BorrowMut(inner) => {
            validate_expr(inner, state, place, context, d)
        },
        Expr::Var(slot) | Expr::MoveVar(slot) => Ok(state.get(*slot)),
        Expr::MoveField { root, .. } | Expr::MoveIndex { root, .. } => Ok(state.get(*root)),
        Expr::FunctionRef(_)
        | Expr::Call(_, _)
        | Expr::LocalCall(_, _)
        | Expr::Closure(_)
        | Expr::ClosureCall(_, _) => validate_call(expr, state, place, context, d),
        Expr::Add(lhs, rhs) => validate_binary(
            expr,
            BinOp::Add,
            lhs,
            rhs,
            state,
            place,
            context,
            d,
        ),
        Expr::Sub(lhs, rhs) => validate_binary(
            expr,
            BinOp::Sub,
            lhs,
            rhs,
            state,
            place,
            context,
            d,
        ),
        Expr::Mul(lhs, rhs) => validate_binary(
            expr,
            BinOp::Mul,
            lhs,
            rhs,
            state,
            place,
            context,
            d,
        ),
        Expr::Div(lhs, rhs) => validate_binary(
            expr,
            BinOp::Div,
            lhs,
            rhs,
            state,
            place,
            context,
            d,
        ),
        Expr::Mod(lhs, rhs) => validate_binary(
            expr,
            BinOp::Mod,
            lhs,
            rhs,
            state,
            place,
            context,
            d,
        ),
        Expr::And(lhs, rhs) => validate_binary(
            expr,
            BinOp::And,
            lhs,
            rhs,
            state,
            place,
            context,
            d,
        ),
        Expr::Or(lhs, rhs) => validate_binary(
            expr,
            BinOp::Or,
            lhs,
            rhs,
            state,
            place,
            context,
            d,
        ),
        Expr::Eq(lhs, rhs) => validate_binary(
            expr,
            BinOp::Eq,
            lhs,
            rhs,
            state,
            place,
            context,
            d,
        ),
        Expr::Lt(lhs, rhs) => validate_binary(
            expr,
            BinOp::Lt,
            lhs,
            rhs,
            state,
            place,
            context,
            d,
        ),
        Expr::Gt(lhs, rhs) => validate_binary(
            expr,
            BinOp::Gt,
            lhs,
            rhs,
            state,
            place,
            context,
            d,
        ),
        Expr::Neg(inner) | Expr::Not(inner) => {
            let inner_ty = match validate_expr(inner, state, place, context, d) {
                Ok(v) => v,
                Err(e) => {
                    return Err(e);
                },
            };
            Ok(infer_unary_type(expr, inner_ty))
        },
        Expr::IfElse { condition, then_expr, else_expr } => validate_if_expr(
            condition,
            then_expr,
            else_expr,
            state,
            place,
            context,
            d,
        ),
        Expr::Match { value_slot, value, arms, default, .. } => validate_match(
            *value_slot,
            value,
            arms,
            default,
            state,
            place,
            context,
            d,
        ),
        Expr::Block { stmts, expr } => {
            let mut nested = state.clone();
            match validate_stmts(stmts, &mut nested, place, context, d) {
                Ok(()) => {},
                Err(e) => {
                    return Err(e);
                },
            }
            validate_expr(expr, &nested, place, context, d)
        },
    }
}

/// Checks a list of statements. At an error the types are those after the statements before
/// the one that was refused; a loop or a branch that was refused left no mark.
pub fn validate_stmts(
    stmts: &Vec<Stmt>,
    state: &mut LocalTypeState,
    place: Place<'_>,
    context: &mut TypeContext<'_>,
    depth: u64,
) -> (r: Result<(), CompileError>)
    ensures
        final(context).env() == old(context).env(),
        match check_stmts(
            old(context).env(),
            old(context)@,
            stmts_view(stmts@),
            0,
            old(state)@,
            place@,
            depth as nat,
        ) {
            Ok((s, n)) => r is Ok && final(state)@ == s && final(context)@ == n,
            Err((e, s, n)) => r is Err && r->Err_0@ == e && final(state)@ == s
                && final(context)@ == n,
        },
    decreases depth, 1nat,
{
    let ghost env = context.env();
    let ghost list = stmts_view(stmts@);
    let ghost total = check_stmts(env, context@, list, 0, state@, place@, depth as nat);
    let mut i: usize = 0;
    while i < stmts.len()
        invariant
            i <= stmts@.len(),
            list == stmts_view(stmts@),
            env == old(context).env(),
            context.env() == env,
            total == check_stmts(
                env,
                old(context)@,
                list,
                0,
                old(state)@,
                place@,
                depth as nat,
            ),
            total == check_stmts(env, context@, list, i as int, state@, place@, depth as nat),
        decreases stmts@.len() - i,
    {
        match validate_stmt(&stmts[i], state, place, context, depth) {
            Ok(()) => {},
            Err(e) => {
                return Err(e);
            },
        }
        i += 1;
    }
    Ok(())
}

fn validate_round(
    condition: &Expr,
    body: &Vec<Stmt>,
    post: Option<&Stmt>,
    state: &mut LocalTypeState,
    place: Place<'_>,
    context: &mut TypeContext<'_>,
    depth: u64,
) -> (r: Result<(), CompileError>)
    ensures
        final(context).env() == old(context).env(),
        match check_round(
            old(context).env(),
            old(context)@,
            condition@,
            stmts_view(body@),
            opt_stmt(post),
            old(state)@,
            place@,
            depth as nat,
        ) {
            Ok((s, n)) => r is Ok && final(state)@ == s && final(context)@ == n,
            Err((e, s, n)) => r is Err && r->Err_0@ == e && final(state)@ == s
                && final(context)@ == n,
        },
    decreases depth, 2nat,
{
    match validate_expr(condition, state, place, context, depth) {
        Ok(_) => {},
        Err(e) => {
            return Err(e);
        },
    }
    match validate_stmts(body, state, place, context, depth) {
        Ok(()) => {},
        Err(e) => {
            return Err(e);
        },
    }
    match post {
        Some(p) => validate_stmt(p, state, place, context, depth),
        None => Ok(()),
    }
}

fn validate_loop(
    condition: &Expr,
    body: &Vec<Stmt>,
    post: Option<&Stmt>,
    state: &mut LocalTypeState,
    place: Place<'_>,
    context: &mut TypeContext<'_>,
    depth: u64,
) -> (r: Result<(), CompileError>)
    ensures
        final(context).env() == old(context).env(),
        match check_loop(
            old(context).env(),
            old(context)@,
            condition@,
            stmts_view(body@),
            opt_stmt(post),
            old(state)@,
            place@,
            depth as nat,
        ) {
            Ok((s, n)) => r is Ok && final(state)@ == s && final(context)@ == n,
            Err((e, s, n)) => r is Err && r->Err_0@ == e && final(state)@ == s
                && final(context)@ == n,
        },
        r is Err ==> final(state)@ == old(state)@,
    decreases depth, 3nat,
{
    let mut first = state.clone();
    match validate_round(condition, body, post, &mut first, place, context, depth) {
        Ok(()) => {},
        Err(e) => {
            return Err(e);
        },
    }
    let mut second = first.clone();
    match validate_round(condition, body, post, &mut second, place, context, depth) {
        Ok(()) => {},
        Err(e) => {
            return Err(e);
        },
    }
    stabilize_loop_state(state, &first, &second);
    Ok(())
}

fn validate_if(
    condition: &Expr,
    then_branch: &Vec<Stmt>,
    else_branch: &Vec<Stmt>,
    state: &mut LocalTypeState,
    place: Place<'_>,
    context: &mut TypeContext<'_>,
    depth: u64,
) -> (r: Result<(), CompileError>)
    ensures
        final(context).env() == old(context).env(),
        match check_if(
            old(context).env(),
            old(context)@,
            condition@,
            stmts_view(then_branch@),
            stmts_view(else_branch@),
            old(state)@,
            place@,
            depth as nat,
        ) {
            Ok((s, n)) => r is Ok && final(state)@ == s && final(context)@ == n,
            Err((e, s, n)) => r is Err && r->Err_0@ == e && final(state)@ == s
                && final(context)@ == n,
        },
    decreases depth, 2nat,
{
    match validate_expr(condition, state, place, context, depth) {
        Ok(_) => {},
        Err(e) => {
            return Err(e);
        },
    }
    let mut then_state = state.clone();
    let mut else_state = state.clone();
    match validate_stmts(then_branch, &mut then_state, place, context, depth) {
        Ok(()) => {},
        Err(e) => {
            return Err(e);
        },
    }
    match validate_stmts(else_branch, &mut else_state, place, context, depth) {
        Ok(()) => {},
        Err(e) => {
            return Err(e);
        },
    }
    match validate_branch_state_merge(place, &then_state, &else_state) {
        Ok(()) => {},
        Err(e) => {
            return Err(e);
        },
    }
    state.merge_from_branches(&then_state, &else_state);
    Ok(())
}

fn validate_assign(
    index: LocalSlot,
    expr: &Expr,
    state: &mut LocalTypeState,
    place: Place<'_>,
    context: &mut TypeContext<'_>,
    depth: u64,
) -> (r: Result<(), CompileError>)
    ensures
        final(context).env() == old(context).env(),
        match check_assign(
            old(context).env(),
            old(context)@,
            index,
            expr@,
            old(state)@,
            place@,
            depth as nat,
        ) {
            Ok((s, n)) => r is Ok && final(state)@ == s && final(context)@ == n,
            Err((e, s, n)) => r is Err && r->Err_0@ == e && final(state)@ == s
                && final(context)@ == n,
        },
    decreases depth, 1nat,
{
    let expr_state = state.clone();
    let ty = match validate_expr(expr, &expr_state, place, context, depth) {
        Ok(v) => v,
        Err(e) => {
            return Err(e);
        },
    };
    bind_expr_result_to_slot(state, index, expr, &expr_state, ty);
    Ok(())
}

/// Checks a statement.
#[verifier::spinoff_prover]
#[verifier::rlimit(40)]
pub fn validate_stmt(
    stmt: &Stmt,
    state: &mut LocalTypeState,
    place: Place<'_>,
    context: &mut TypeContext<'_>,
    depth: u64,
) -> (r: Result<(), CompileError>)
    ensures
        final(context).env() == old(context).env(),
        match check_stmt(
            old(context).env(),
            old(context)@,
            stmt@,
            old(state)@,
            place@,
            depth as nat,
        ) {
            Ok((s, n)) => r is Ok && final(state)@ == s && final(context)@ == n,
            Err((e, s, n)) => r is Err && r->Err_0@ == e && final(state)@ == s
                && final(context)@ == n,
        },
    decreases depth, 0nat,
{
    if depth == 0 {
        return Ok(());
    }
    let d: u64 = depth - 1;
    match stmt {
        Stmt::Noop { .. }
        | Stmt::FuncDecl { .. }
        | Stmt::Break { .. }
        | Stmt::Continue { .. } => Ok(()),
        Stmt::Drop { index, .. } => {
            state.set(*index, BoundType::Null);
            Ok(())
        },
        Stmt::ClosureLet { closure, .. } => {
            assert(*closure@.body == closure.body@);
            match validate_expr(&closure.body, state, place.lenient(), context, d) {
                Ok(_) => {},
                Err(e) => {
                    return Err(e);
                },
            }
            Ok(())
        },
        Stmt::Let { index, expr, line } | Stmt::Assign { index, expr, line } => {
            validate_assign(*index, expr, state, place.at(*line), context, d)
        },
        Stmt::Expr { expr, line } => {
            match validate_expr(expr, state, place.at(*line), context, d) {
                Ok(_) => {},
                Err(e) => {
                    return Err(e);
                },
            }
            Ok(())
        },
        Stmt::IfElse { condition, then_branch, else_branch, line } => {
            validate_if(condition, then_branch, else_branch, state, place.at(*line), context, d)
        },
        Stmt::For { init, condition, post, body, line } => {
            match validate_stmt(init, state, place.at(*line), context, d) {
                Ok(()) => {},
                Err(e) => {
                    return Err(e);
                },
            }
            validate_loop(condition, body, Some(&**post), state, place.at(*line), context, d)
        },
        Stmt::While { condition, body, line } => {
            validate_loop(condition, body, None, state, place.at(*line), context, d)
        },
    }
}

} // verus!
