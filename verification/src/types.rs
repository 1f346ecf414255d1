//! What is known of the types of locals at a point of a program.

use vstd::prelude::*;
use crate::builtins::{clone_params, params_view, CallableParam, ParamV};
use crate::ir::{ClosureExpr, ClosureV, LocalSlot, ValueType};
use crate::tables::SlotTable;

verus! {

/// The type of an element of an array or a map.
#[derive(Clone, Copy, Debug, PartialEq, Eq, Structural)]
pub enum SimpleType {
    Null,
    Int,
    Float,
    Bool,
    String,
}

/// A type as inference knows it. `ArrayOf(None)` is an array that is still empty.
#[derive(Clone, Copy, Debug, PartialEq, Eq, Structural)]
pub enum BoundType {
    Unknown,
    Null,
    Int,
    Float,
    Bool,
    String,
    Array,
    ArrayOf(Option<SimpleType>),
    Mapping,
    MapOf(Option<SimpleType>),
}

/// The value type that a bound type stands for.
pub open spec fn value_type_of(ty: BoundType) -> ValueType {
    match ty {
        BoundType::Unknown => ValueType::Unknown,
        BoundType::Null => ValueType::Null,
        BoundType::Int => ValueType::Int,
        BoundType::Float => ValueType::Float,
        BoundType::Bool => ValueType::Bool,
        BoundType::String => ValueType::String,
        BoundType::Array | BoundType::ArrayOf(_) => ValueType::Array,
        BoundType::Mapping | BoundType::MapOf(_) => ValueType::Mapping,
    }
}

/// The bound type that a declared value type stands for.
pub open spec fn bound_type_of(ty: ValueType) -> BoundType {
    match ty {
        ValueType::Unknown => BoundType::Unknown,
        ValueType::Null => BoundType::Null,
        ValueType::Int => BoundType::Int,
        ValueType::Float => BoundType::Float,
        ValueType::Bool => BoundType::Bool,
        ValueType::String => BoundType::String,
        ValueType::Array => BoundType::Array,
        ValueType::Mapping => BoundType::Mapping,
    }
}

/// The simple type that a bound type is, where it is one.
pub open spec fn simple_of(ty: BoundType) -> Option<SimpleType> {
    match ty {
        BoundType::Null => Some(SimpleType::Null),
        BoundType::Int => Some(SimpleType::Int),
        BoundType::Float => Some(SimpleType::Float),
        BoundType::Bool => Some(SimpleType::Bool),
        BoundType::String => Some(SimpleType::String),
        _ => None,
    }
}

/// A simple type as a bound type.
pub open spec fn bound_of_simple(ty: SimpleType) -> BoundType {
    match ty {
        SimpleType::Null => BoundType::Null,
        SimpleType::Int => BoundType::Int,
        SimpleType::Float => BoundType::Float,
        SimpleType::Bool => BoundType::Bool,
        SimpleType::String => BoundType::String,
    }
}

/// The name of a type at run time, where it is known.
pub open spec fn type_name_of(ty: BoundType) -> Option<Seq<char>> {
    match ty {
        BoundType::Unknown => None,
        BoundType::Null => Some("null"@),
        BoundType::Int => Some("int"@),
        BoundType::Float => Some("float"@),
        BoundType::Bool => Some("bool"@),
        BoundType::String => Some("string"@),
        BoundType::Array | BoundType::ArrayOf(_) => Some("array"@),
        BoundType::Mapping | BoundType::MapOf(_) => Some("map"@),
    }
}

/// The word for a type in messages.
pub open spec fn bound_label(ty: BoundType) -> Seq<char> {
    match type_name_of(ty) {
        Some(name) => name,
        None => "unknown"@,
    }
}

impl BoundType {
    pub fn runtime_name(self) -> (r: Option<&'static str>)
        ensures
            r is Some <==> type_name_of(self) is Some,
            r matches Some(name) ==> type_name_of(self) == Some(name@),
    {
        match self {
            BoundType::Unknown => None,
            BoundType::Null => Some("null"),
            BoundType::Int => Some("int"),
            BoundType::Float => Some("float"),
            BoundType::Bool => Some("bool"),
            BoundType::String => Some("string"),
            BoundType::Array | BoundType::ArrayOf(_) => Some("array"),
            BoundType::Mapping | BoundType::MapOf(_) => Some("map"),
        }
    }

    pub fn simple_type(self) -> (r: Option<SimpleType>)
        ensures
            r == simple_of(self),
    {
        match self {
            BoundType::Null => Some(SimpleType::Null),
            BoundType::Int => Some(SimpleType::Int),
            BoundType::Float => Some(SimpleType::Float),
            BoundType::Bool => Some(SimpleType::Bool),
            BoundType::String => Some(SimpleType::String),
            _ => None,
        }
    }

    pub fn from_simple(value: SimpleType) -> (r: Self)
        ensures
            r == bound_of_simple(value),
    {
        match value {
            SimpleType::Null => BoundType::Null,
            SimpleType::Int => BoundType::Int,
            SimpleType::Float => BoundType::Float,
            SimpleType::Bool => BoundType::Bool,
            SimpleType::String => BoundType::String,
        }
    }
}

pub fn bound_type_label(ty: BoundType) -> (r: &'static str)
    ensures
        r@ == bound_label(ty),
{
    match ty.runtime_name() {
        Some(name) => name,
        None => "unknown",
    }
}

impl From<BoundType> for ValueType {
    fn from(value: BoundType) -> (r: Self) {
        match value {
            BoundType::Unknown => ValueType::Unknown,
            BoundType::Null => ValueType::Null,
            BoundType::Int => ValueType::Int,
            BoundType::Float => ValueType::Float,
            BoundType::Bool => ValueType::Bool,
            BoundType::String => ValueType::String,
            BoundType::Array | BoundType::ArrayOf(_) => ValueType::Array,
            BoundType::Mapping | BoundType::MapOf(_) => ValueType::Mapping,
        }
    }
}

impl vstd::std_specs::convert::FromSpecImpl<BoundType> for ValueType {
    open spec fn obeys_from_spec() -> bool {
        true
    }

    open spec fn from_spec(value: BoundType) -> ValueType {
        value_type_of(value)
    }
}

impl From<ValueType> for BoundType {
    fn from(value: ValueType) -> (r: Self) {
        match value {
            ValueType::Unknown => BoundType::Unknown,
            ValueType::Null => BoundType::Null,
            ValueType::Int => BoundType::Int,
            ValueType::Float => BoundType::Float,
            ValueType::Bool => BoundType::Bool,
            ValueType::String => BoundType::String,
            ValueType::Array => BoundType::Array,
            ValueType::Mapping => BoundType::Mapping,
        }
    }
}

impl vstd::std_specs::convert::FromSpecImpl<ValueType> for BoundType {
    open spec fn obeys_from_spec() -> bool {
        true
    }

    open spec fn from_spec(value: ValueType) -> BoundType {
        bound_type_of(value)
    }
}

/// The type of an array that holds the elements of two.
pub open spec fn merged_array(lhs: Option<SimpleType>, rhs: Option<SimpleType>) -> BoundType {
    match (lhs, rhs) {
        (Some(l), Some(r)) => if l == r {
            BoundType::ArrayOf(Some(l))
        } else {
            BoundType::Array
        },
        (None, _) => BoundType::ArrayOf(rhs),
        (_, None) => BoundType::ArrayOf(lhs),
    }
}

/// The type of a map that holds the values of two.
pub open spec fn merged_map(lhs: Option<SimpleType>, rhs: Option<SimpleType>) -> BoundType {
    match (lhs, rhs) {
        (Some(l), Some(r)) => if l == r {
            BoundType::MapOf(Some(l))
        } else {
            BoundType::Mapping
        },
        (None, _) => BoundType::MapOf(rhs),
        (_, None) => BoundType::MapOf(lhs),
    }
}

/// The least type that covers two.
pub open spec fn merged(lhs: BoundType, rhs: BoundType) -> BoundType {
    if lhs == rhs {
        lhs
    } else {
        match (lhs, rhs) {
            (BoundType::ArrayOf(l), BoundType::ArrayOf(r)) => merged_array(l, r),
            (BoundType::Array, BoundType::ArrayOf(_)) => BoundType::Array,
            (BoundType::ArrayOf(_), BoundType::Array) => BoundType::Array,
            (BoundType::MapOf(l), BoundType::MapOf(r)) => merged_map(l, r),
            (BoundType::Mapping, BoundType::MapOf(_)) => BoundType::Mapping,
            (BoundType::MapOf(_), BoundType::Mapping) => BoundType::Mapping,
            _ => BoundType::Unknown,
        }
    }
}

/// Whether two types may meet at the end of a branch.
pub open spec fn compatible(lhs: BoundType, rhs: BoundType) -> bool {
    lhs == BoundType::Unknown || rhs == BoundType::Unknown || lhs == BoundType::Null || rhs
        == BoundType::Null || merged(lhs, rhs) != BoundType::Unknown
}

pub fn merge_container_element_types(lhs: Option<SimpleType>, rhs: Option<SimpleType>) -> (r:
    BoundType)
    ensures
        r == merged_array(lhs, rhs),
{
    match (lhs, rhs) {
        (Some(l), Some(r)) => if l == r {
            BoundType::ArrayOf(Some(l))
        } else {
            BoundType::Array
        },
        (None, _) => BoundType::ArrayOf(rhs),
        (_, None) => BoundType::ArrayOf(lhs),
    }
}

pub fn merge_map_element_types(lhs: Option<SimpleType>, rhs: Option<SimpleType>) -> (r: BoundType)
    ensures
        r == merged_map(lhs, rhs),
{
    match (lhs, rhs) {
        (Some(l), Some(r)) => if l == r {
            BoundType::MapOf(Some(l))
        } else {
            BoundType::Mapping
        },
        (None, _) => BoundType::MapOf(rhs),
        (_, None) => BoundType::MapOf(lhs),
    }
}

pub fn merge_bound_types(lhs: BoundType, rhs: BoundType) -> (r: BoundType)
    ensures
        r == merged(lhs, rhs),
{
    if lhs == rhs {
        return lhs;
    }
    match (lhs, rhs) {
        (BoundType::ArrayOf(l), BoundType::ArrayOf(r)) => merge_container_element_types(l, r),
        (BoundType::Array, BoundType::ArrayOf(_)) => BoundType::Array,
        (BoundType::ArrayOf(_), BoundType::Array) => BoundType::Array,
        (BoundType::MapOf(l), BoundType::MapOf(r)) => merge_map_element_types(l, r),
        (BoundType::Mapping, BoundType::MapOf(_)) => BoundType::Mapping,
        (BoundType::MapOf(_), BoundType::Mapping) => BoundType::Mapping,
        _ => BoundType::Unknown,
    }
}

pub fn are_compatible_bound_types(lhs: BoundType, rhs: BoundType) -> (r: bool)
    ensures
        r == compatible(lhs, rhs),
{
    lhs == BoundType::Unknown || rhs == BoundType::Unknown || lhs == BoundType::Null || rhs
        == BoundType::Null || merge_bound_types(lhs, rhs) != BoundType::Unknown
}

/// Merging is a join: commutative, associative and idempotent, with `Unknown` on top.
pub proof fn law_merge_is_a_join(a: BoundType, b: BoundType, c: BoundType)
    ensures
        merged(a, b) == merged(b, a),
        merged(merged(a, b), c) == merged(a, merged(b, c)),
        merged(a, a) == a,
        merged(a, BoundType::Unknown) == BoundType::Unknown,
{
}

/// Compatibility does not depend on the order of the branches.
pub proof fn law_compatible_symmetric(a: BoundType, b: BoundType)
    ensures
        compatible(a, b) == compatible(b, a),
        compatible(a, a),
{
}

/// Declared types survive the way through inference.
pub proof fn law_declared_type_round_trip(ty: ValueType)
    ensures
        value_type_of(bound_type_of(ty)) == ty,
{
}

// ---------------------------------------------------------------------------
// Callables held in locals.

/// A function or a closure that a local stands for.
#[derive(Debug)]
pub enum CallableBinding {
    Function(u16),
    Closure(ClosureExpr),
}

/// The model of a callable.
pub enum CallableV {
    Function(u16),
    Closure(ClosureV),
}

impl CallableBinding {
    pub open spec fn view(&self) -> CallableV {
        match self {
            CallableBinding::Function(index) => CallableV::Function(*index),
            CallableBinding::Closure(closure) => CallableV::Closure(closure@),
        }
    }
}

impl Clone for CallableBinding {
    fn clone(&self) -> (r: Self)
        ensures
            r@ == self@,
    {
        match self {
            CallableBinding::Function(index) => CallableBinding::Function(*index),
            CallableBinding::Closure(closure) => CallableBinding::Closure(closure.clone()),
        }
    }
}

/// The models of the callables in a table.
pub open spec fn callables_view(m: Map<u16, CallableBinding>) -> Map<u16, CallableV> {
    m.map_values(|c: CallableBinding| c@)
}

/// A copy of a table of callables.
pub fn clone_callables(table: &SlotTable<CallableBinding>) -> (r: SlotTable<CallableBinding>)
    ensures
        callables_view(r@) == callables_view(table@),
{
    let mut slots: Vec<Option<CallableBinding>> = Vec::new();
    let mut i: usize = 0;
    while i < table.slots.len()
        invariant
            i <= table.slots@.len(),
            slots@.len() == i,
            forall|k: int|
                0 <= k < i ==> ((#[trigger] slots@[k]) is Some <==> table.slots@[k] is Some),
            forall|k: int|
                0 <= k < i && (#[trigger] slots@[k]) is Some ==> slots@[k]->0@
                    == table.slots@[k]->0@,
        decreases table.slots@.len() - i,
    {
        match &table.slots[i] {
            Some(c) => slots.push(Some(c.clone())),
            None => slots.push(None),
        }
        i += 1;
    }
    let r = SlotTable { slots };
    assert(callables_view(r@) =~= callables_view(table@));
    r
}

// ---------------------------------------------------------------------------
// The state of the locals.

/// The types and callables known of the locals.
#[derive(Debug)]
pub struct LocalTypeState {
    by_slot: SlotTable<BoundType>,
    callables: SlotTable<CallableBinding>,
}

/// The model of the state of the locals.
pub struct TypesV {
    pub slots: Map<u16, BoundType>,
    pub callables: Map<u16, CallableV>,
}

impl TypesV {
    pub open spec fn empty() -> TypesV {
        TypesV { slots: Map::empty(), callables: Map::empty() }
    }

    pub open spec fn get(self, slot: u16) -> BoundType {
        if self.slots.dom().contains(slot) {
            self.slots[slot]
        } else {
            BoundType::Unknown
        }
    }

    pub open spec fn callable(self, slot: u16) -> Option<CallableV> {
        if self.callables.dom().contains(slot) {
            Some(self.callables[slot])
        } else {
            None
        }
    }

    pub open spec fn set(self, slot: u16, ty: BoundType) -> TypesV {
        TypesV {
            slots: if ty == BoundType::Unknown {
                self.slots.remove(slot)
            } else {
                self.slots.insert(slot, ty)
            },
            callables: self.callables.remove(slot),
        }
    }

    pub open spec fn bind(self, slot: u16, callable: CallableV) -> TypesV {
        TypesV {
            slots: self.slots.remove(slot),
            callables: self.callables.insert(slot, callable),
        }
    }

    /// What another state knows of `source_slot`, noted for `slot`.
    pub open spec fn copy_from(self, source: TypesV, source_slot: u16, slot: u16) -> TypesV {
        match source.callable(source_slot) {
            Some(callable) => self.bind(slot, callable),
            None => self.set(slot, source.get(source_slot)),
        }
    }

    /// What holds after either of two branches: a type that covers both, and a
    /// function that both agree on.
    pub open spec fn join(lhs: TypesV, rhs: TypesV) -> TypesV {
        TypesV {
            slots: Map::new(
                |slot: u16| merged(lhs.get(slot), rhs.get(slot)) != BoundType::Unknown,
                |slot: u16| merged(lhs.get(slot), rhs.get(slot)),
            ),
            callables: Map::new(
                |slot: u16|
                    (lhs.callable(slot) matches Some(CallableV::Function(_))) && lhs.callable(slot)
                        == rhs.callable(slot),
                |slot: u16| lhs.callables[slot],
            ),
        }
    }
}

/// The state after a loop, from the states after none, one and two rounds.
pub open spec fn loop_join(zero: TypesV, first: TypesV, second: TypesV) -> TypesV {
    TypesV::join(zero, TypesV::join(first, second))
}

/// The order of the branches does not matter to what holds after them.
pub proof fn law_join_commutative(lhs: TypesV, rhs: TypesV)
    ensures
        TypesV::join(lhs, rhs) == TypesV::join(rhs, lhs),
{
    assert forall|slot: u16| merged(lhs.get(slot), rhs.get(slot)) == merged(
        rhs.get(slot),
        lhs.get(slot),
    ) by {
        law_merge_is_a_join(lhs.get(slot), rhs.get(slot), BoundType::Unknown);
    }
    assert(TypesV::join(lhs, rhs).slots =~= TypesV::join(rhs, lhs).slots);
    assert(TypesV::join(lhs, rhs).callables =~= TypesV::join(rhs, lhs).callables);
}

/// Two branches that end alike keep every type.
pub proof fn law_join_keeps_common_types(state: TypesV, slot: u16)
    ensures
        TypesV::join(state, state).get(slot) == state.get(slot),
{
}

/// A slot has after a loop the type that covers those that it has after none, one and two
/// rounds.
pub proof fn law_loop_covers_its_rounds(zero: TypesV, first: TypesV, second: TypesV, slot: u16)
    ensures
        loop_join(zero, first, second).get(slot) == merged(
            zero.get(slot),
            merged(first.get(slot), second.get(slot)),
        ),
{
}

impl LocalTypeState {
    pub closed spec fn view(&self) -> TypesV {
        TypesV { slots: self.by_slot@, callables: callables_view(self.callables@) }
    }

    pub fn new() -> (r: Self)
        ensures
            r@ == TypesV::empty(),
    {
        let r = LocalTypeState { by_slot: SlotTable::new(), callables: SlotTable::new() };
        assert(r@.callables =~= Map::<u16, CallableV>::empty());
        r
    }

    pub fn get(&self, slot: LocalSlot) -> (r: BoundType)
        ensures
            r == self@.get(slot),
    {
        match self.by_slot.get(slot) {
            Some(ty) => *ty,
            None => BoundType::Unknown,
        }
    }

    pub fn callable(&self, slot: LocalSlot) -> (r: Option<&CallableBinding>)
        ensures
            r is Some <==> self@.callable(slot) is Some,
            r matches Some(c) ==> self@.callable(slot) == Some(c@),
    {
        self.callables.get(slot)
    }

    pub fn set(&mut self, slot: LocalSlot, ty: BoundType)
        ensures
            final(self)@ == old(self)@.set(slot, ty),
    {
        if ty == BoundType::Unknown {
            self.by_slot.remove(slot);
        } else {
            self.by_slot.insert(slot, ty);
        }
        self.callables.remove(slot);
        assert(self@.callables =~= old(self)@.callables.remove(slot));
    }

    pub fn bind_callable(&mut self, slot: LocalSlot, callable: CallableBinding)
        ensures
            final(self)@ == old(self)@.bind(slot, callable@),
    {
        self.by_slot.remove(slot);
        self.callables.insert(slot, callable);
        assert(self@.callables =~= old(self)@.callables.insert(slot, callable@));
    }

    pub fn bind_function(&mut self, slot: LocalSlot, index: u16)
        ensures
            final(self)@ == old(self)@.bind(slot, CallableV::Function(index)),
    {
        self.bind_callable(slot, CallableBinding::Function(index));
    }

    pub fn bind_closure(&mut self, slot: LocalSlot, closure: &ClosureExpr)
        ensures
            final(self)@ == old(self)@.bind(slot, CallableV::Closure(closure@)),
    {
        self.bind_callable(slot, CallableBinding::Closure(closure.clone()));
    }

    pub fn copy_binding_from(
        &mut self,
        source: &LocalTypeState,
        source_slot: LocalSlot,
        slot: LocalSlot,
    )
        ensures
            final(self)@ == old(self)@.copy_from(source@, source_slot, slot),
    {
        match source.callable(source_slot) {
            Some(callable) => self.bind_callable(slot, callable.clone()),
            None => self.set(slot, source.get(source_slot)),
        }
    }

    /// Notes what the state itself knows of `source_slot` for `slot`.
    pub fn copy_binding(&mut self, source_slot: LocalSlot, slot: LocalSlot)
        ensures
            final(self)@ == old(self)@.copy_from(old(self)@, source_slot, slot),
    {
        let callable: Option<CallableBinding> = match self.callable(source_slot) {
            Some(c) => Some(c.clone()),
            None => None,
        };
        match callable {
            Some(c) => self.bind_callable(slot, c),
            None => {
                let ty = self.get(source_slot);
                self.set(slot, ty);
            },
        }
    }

    /// A bound on the slots that the state knows anything of.
    pub fn slot_bound(&self) -> (r: u32)
        ensures
            r <= 0x10000,
            forall|slot: u16| slot >= r ==> #[trigger] self@.get(slot) == BoundType::Unknown,
            forall|slot: u16| slot >= r ==> #[trigger] self@.callable(slot) is None,
    {
        let mut bound: usize = self.by_slot.slots.len();
        if self.callables.slots.len() > bound {
            bound = self.callables.slots.len();
        }
        if bound > 0x10000 {
            0x10000
        } else {
            bound as u32
        }
    }

    pub fn merge_from_branches(&mut self, lhs: &LocalTypeState, rhs: &LocalTypeState)
        ensures
            final(self)@ == TypesV::join(lhs@, rhs@),
    {
        self.by_slot.clear();
        self.callables.clear();
        let ghost joined = TypesV::join(lhs@, rhs@);
        let bound: u32 = lhs.slot_bound();
        let mut i: u32 = 0;
        while i < bound
            invariant
                i <= bound <= 0x10000,
                joined == TypesV::join(lhs@, rhs@),
                self.by_slot@ == Map::new(
                    |slot: u16| slot < i && joined.slots.dom().contains(slot),
                    |slot: u16| joined.slots[slot],
                ),
                callables_view(self.callables@) == Map::new(
                    |slot: u16| slot < i && joined.callables.dom().contains(slot),
                    |slot: u16| joined.callables[slot],
                ),
            decreases bound - i,
        {
            let slot: u16 = i as u16;
            let ghost slots_before = self.by_slot@;
            let ghost calls_before = callables_view(self.callables@);
            let ty = merge_bound_types(lhs.get(slot), rhs.get(slot));
            if ty != BoundType::Unknown {
                self.by_slot.insert(slot, ty);
            }
            match (lhs.callable(slot), rhs.callable(slot)) {
                (Some(CallableBinding::Function(l)), Some(CallableBinding::Function(r))) => {
                    if *l == *r {
                        self.callables.insert(slot, CallableBinding::Function(*l));
                        assert(callables_view(self.callables@) =~= calls_before.insert(
                            slot,
                            CallableV::Function(*l),
                        ));
                    }
                },
                _ => {},
            }
            i += 1;
            assert(self.by_slot@ =~= Map::new(
                |s: u16| s < i && joined.slots.dom().contains(s),
                |s: u16| joined.slots[s],
            ));
            assert(callables_view(self.callables@) =~= Map::new(
                |s: u16| s < i && joined.callables.dom().contains(s),
                |s: u16| joined.callables[s],
            ));
        }
        proof {
            assert forall|slot: u16| slot >= bound implies !(#[trigger] joined.slots.dom().contains(
                slot,
            )) by {
                assert(lhs@.get(slot) == BoundType::Unknown);
                law_merge_is_a_join(lhs@.get(slot), rhs@.get(slot), BoundType::Unknown);
                law_merge_is_a_join(rhs@.get(slot), lhs@.get(slot), BoundType::Unknown);
            }
            assert forall|slot: u16| slot >= bound implies !(
            #[trigger] joined.callables.dom().contains(slot)) by {
                assert(lhs@.callable(slot) is None);
            }
        }
        assert(self@.slots =~= joined.slots);
        assert(self@.callables =~= joined.callables);
    }
}

impl Clone for LocalTypeState {
    fn clone(&self) -> (r: Self)
        ensures
            r@ == self@,
    {
        LocalTypeState {
            by_slot: self.by_slot.copied(),
            callables: clone_callables(&self.callables),
        }
    }
}

/// The types that inference found for the locals of a program.
#[derive(Debug)]
pub struct TypeInferenceResult {
    pub local_types: Vec<ValueType>,
}

/// What a host function accepts.
#[derive(Debug)]
pub struct HostCallableSignature {
    pub name: String,
    pub params: Vec<CallableParam>,
}

/// The model of a host signature.
pub struct HostSignatureV {
    pub name: Seq<char>,
    pub params: Seq<ParamV>,
}

impl HostCallableSignature {
    pub open spec fn view(&self) -> HostSignatureV {
        HostSignatureV { name: self.name@, params: params_view(self.params@) }
    }
}

impl Clone for HostCallableSignature {
    fn clone(&self) -> (r: Self)
        ensures
            r@ == self@,
    {
        HostCallableSignature { name: self.name.clone(), params: clone_params(&self.params) }
    }
}

} // verus!
