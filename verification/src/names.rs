//! The names that a source text binds, and what they stand for.

use std::collections::HashMap;
use vstd::prelude::*;
use crate::host::put;
use crate::infer::{impls_view, lookup};
use crate::ir::{strings_view, FunctionDecl, FunctionDeclV, FunctionImpl, FunctionImplV, LocalSlot};
use crate::text::{decimal, push_decimal, same_text};

verus! {

/// Names with the slots they are bound to, in the order of their binding.
pub type BindingsV = Seq<(Seq<char>, LocalSlot)>;

/// The slot of a name among the first `n` bindings. The latest binding counts.
pub open spec fn slot_of(b: BindingsV, name: Seq<char>, n: int) -> Option<LocalSlot>
    decreases n,
{
    if n <= 0 {
        None
    } else if b[n - 1].0 == name {
        Some(b[n - 1].1)
    } else {
        slot_of(b, name, n - 1)
    }
}

/// The slot that a name is bound to.
pub open spec fn bound_slot(b: BindingsV, name: Seq<char>) -> Option<LocalSlot> {
    slot_of(b, name, b.len() as int)
}

/// The name that is bound to a slot among the first `n` bindings.
pub open spec fn name_of(b: BindingsV, slot: LocalSlot, n: int) -> Option<Seq<char>>
    decreases n,
{
    if n <= 0 {
        None
    } else if b[n - 1].1 == slot {
        Some(b[n - 1].0)
    } else {
        name_of(b, slot, n - 1)
    }
}

/// The names bound to the slots from `slot` up to, not including, `end`, by slot.
pub open spec fn by_slot(b: BindingsV, slot: int, end: int) -> BindingsV
    decreases end - slot,
{
    if slot < 0 || slot >= end || slot > 0xFFFF {
        Seq::empty()
    } else {
        match name_of(b, slot as u16, b.len() as int) {
            Some(name) => seq![(name, slot as u16)] + by_slot(b, slot + 1, end),
            None => by_slot(b, slot + 1, end),
        }
    }
}

/// The models of bindings.
pub open spec fn bindings_view(s: Seq<(String, LocalSlot)>) -> BindingsV {
    Seq::new(s.len(), |i: int| (s[i].0@, s[i].1))
}

/// Names bound to slots.
#[derive(Debug)]
pub struct Scope {
    pub entries: Vec<(String, LocalSlot)>,
}

impl Scope {
    pub open spec fn view(&self) -> BindingsV {
        bindings_view(self.entries@)
    }

    pub fn new() -> (r: Scope)
        ensures
            r@ == BindingsV::empty(),
    {
        let r = Scope { entries: Vec::new() };
        assert(r@ =~= BindingsV::empty());
        r
    }

    pub fn get(&self, name: &str) -> (r: Option<LocalSlot>)
        ensures
            r == bound_slot(self@, name@),
    {
        let mut i: usize = self.entries.len();
        while i > 0
            invariant
                i <= self.entries@.len(),
                self@.len() == self.entries@.len(),
                bound_slot(self@, name@) == slot_of(self@, name@, i as int),
            decreases i,
        {
            i -= 1;
            assert(self@[i as int] == (self.entries@[i as int].0@, self.entries@[i as int].1));
            if same_text(self.entries[i].0.as_str(), name) {
                return Some(self.entries[i].1);
            }
        }
        None
    }

    pub fn name_at(&self, slot: LocalSlot) -> (r: Option<String>)
        ensures
            match name_of(self@, slot, self@.len() as int) {
                Some(name) => r is Some && r->0@ == name,
                None => r is None,
            },
    {
        let mut i: usize = self.entries.len();
        while i > 0
            invariant
                i <= self.entries@.len(),
                self@.len() == self.entries@.len(),
                name_of(self@, slot, self@.len() as int) == name_of(self@, slot, i as int),
            decreases i,
        {
            i -= 1;
            assert(self@[i as int] == (self.entries@[i as int].0@, self.entries@[i as int].1));
            if self.entries[i].1 == slot {
                return Some(self.entries[i].0.clone());
            }
        }
        None
    }

    pub fn bind(&mut self, name: String, slot: LocalSlot)
        ensures
            final(self)@ == old(self)@.push((name@, slot)),
    {
        let ghost want = self@.push((name@, slot));
        self.entries.push((name, slot));
        assert(self@ =~= want);
    }

    /// The bindings by slot, up to a slot.
    pub fn sorted(&self, end: LocalSlot) -> (r: Vec<(String, LocalSlot)>)
        ensures
            bindings_view(r@) == by_slot(self@, 0, end as int),
    {
        let mut out: Vec<(String, LocalSlot)> = Vec::new();
        let mut slot: LocalSlot = 0;
        assert(bindings_view(out@) + by_slot(self@, 0, end as int) =~= by_slot(
            self@,
            0,
            end as int,
        ));
        while slot < end
            invariant
                slot <= end,
                bindings_view(out@) + by_slot(self@, slot as int, end as int) == by_slot(
                    self@,
                    0,
                    end as int,
                ),
            decreases end - slot,
        {
            let ghost before = bindings_view(out@);
            match self.name_at(slot) {
                Some(name) => {
                    let ghost entry = (name@, slot);
                    out.push((name, slot));
                    assert(bindings_view(out@) =~= before.push(entry));
                    assert(before.push(entry) + by_slot(self@, slot + 1, end as int) =~= before + (
                    seq![entry] + by_slot(self@, slot + 1, end as int)));
                },
                None => {},
            }
            slot += 1;
        }
        assert(bindings_view(out@) + by_slot(self@, end as int, end as int) =~= bindings_view(
            out@,
        ));
        out
    }
}

/// What a list of renamings makes of names: a later one counts.
pub open spec fn aliases_map(s: Seq<(String, String)>, n: int) -> Map<Seq<char>, Seq<char>>
    decreases n,
{
    if n <= 0 {
        Map::empty()
    } else {
        aliases_map(s, n - 1).insert(s[n - 1].0@, s[n - 1].1@)
    }
}

proof fn lemma_aliases_prefix(s: Seq<(String, String)>, t: Seq<(String, String)>, n: int)
    requires
        0 <= n <= s.len(),
        n <= t.len(),
        forall|i: int| 0 <= i < n ==> s[i] == t[i],
    ensures
        aliases_map(s, n) == aliases_map(t, n),
    decreases n,
{
    if n > 0 {
        lemma_aliases_prefix(s, t, n - 1);
    }
}

/// Names that stand for other names.
#[derive(Debug)]
pub struct Aliases {
    pub entries: Vec<(String, String)>,
}

impl Aliases {
    pub open spec fn view(&self) -> Map<Seq<char>, Seq<char>> {
        aliases_map(self.entries@, self.entries@.len() as int)
    }

    pub fn new() -> (r: Aliases)
        ensures
            r@ == Map::<Seq<char>, Seq<char>>::empty(),
    {
        Aliases { entries: Vec::new() }
    }

    pub fn get(&self, name: &str) -> (r: Option<String>)
        ensures
            match r {
                Some(target) => self@.dom().contains(name@) && target@ == self@[name@],
                None => !self@.dom().contains(name@),
            },
    {
        let mut i: usize = self.entries.len();
        while i > 0
            invariant
                i <= self.entries@.len(),
                self@.dom().contains(name@) == aliases_map(
                    self.entries@,
                    i as int,
                ).dom().contains(name@),
                self@.dom().contains(name@) ==> self@[name@] == aliases_map(
                    self.entries@,
                    i as int,
                )[name@],
            decreases i,
        {
            i -= 1;
            if same_text(self.entries[i].0.as_str(), name) {
                return Some(self.entries[i].1.clone());
            }
        }
        None
    }

    pub fn insert(&mut self, name: String, target: String)
        ensures
            final(self)@ == old(self)@.insert(name@, target@),
    {
        let ghost before = self.entries@;
        self.entries.push((name, target));
        proof {
            lemma_aliases_prefix(before, self.entries@, before.len() as int);
        }
    }
}

/// The locals that a closure or a function body takes from outside.
#[derive(Debug)]
pub struct ClosureCaptureContext {
    pub by_name: Scope,
    pub capture_copies: Vec<(LocalSlot, LocalSlot)>,
}

/// The model of what a closure takes from outside.
pub struct CaptureV {
    pub by_name: BindingsV,
    pub copies: Seq<(LocalSlot, LocalSlot)>,
}

impl ClosureCaptureContext {
    pub open spec fn view(&self) -> CaptureV {
        CaptureV { by_name: self.by_name@, copies: self.capture_copies@ }
    }
}

/// The models of open scopes.
pub open spec fn scopes_view(s: Seq<Scope>) -> Seq<BindingsV> {
    Seq::new(s.len(), |i: int| s[i]@)
}

/// The models of open captures.
pub open spec fn captures_view(s: Seq<ClosureCaptureContext>) -> Seq<CaptureV> {
    Seq::new(s.len(), |i: int| s[i]@)
}

/// The models of declarations.
pub open spec fn decls_view(s: Seq<FunctionDecl>) -> Seq<FunctionDeclV> {
    Seq::new(s.len(), |i: int| s[i]@)
}

/// What the innermost of the first `n` scopes that binds a name binds it to.
pub open spec fn scoped_slot(scopes: Seq<BindingsV>, name: Seq<char>, n: int) -> Option<LocalSlot>
    decreases n,
{
    if n <= 0 {
        None
    } else {
        match bound_slot(scopes[n - 1], name) {
            Some(slot) => Some(slot),
            None => scoped_slot(scopes, name, n - 1),
        }
    }
}

/// The name that the innermost of the first `n` scopes has for a slot.
pub open spec fn scoped_name(scopes: Seq<BindingsV>, slot: LocalSlot, n: int) -> Option<Seq<char>>
    decreases n,
{
    if n <= 0 {
        None
    } else {
        match name_of(scopes[n - 1], slot, scopes[n - 1].len() as int) {
            Some(name) => Some(name),
            None => scoped_name(scopes, slot, n - 1),
        }
    }
}

/// The declaration of a function, from position `i` on.
pub open spec fn decl_named(list: Seq<FunctionDeclV>, name: Seq<char>, i: int) -> Option<
    FunctionDeclV,
>
    decreases list.len() - i,
{
    if i < 0 || i >= list.len() {
        None
    } else if list[i].name == name {
        Some(list[i])
    } else {
        decl_named(list, name, i + 1)
    }
}

/// The names of parameters that have no name of their own.
pub open spec fn arg_names(arity: nat) -> Seq<Seq<char>> {
    Seq::new(arity, |i: int| "arg"@ + decimal(i as nat))
}

/// The state of the names.
pub struct NamesV {
    pub locals: BindingsV,
    pub next_local: LocalSlot,
    pub mutable: Seq<bool>,
    pub functions: Seq<FunctionDeclV>,
    pub next_function: u16,
    pub impls: Map<u16, FunctionImplV>,
    pub scopes: Seq<BindingsV>,
    pub captures: Seq<CaptureV>,
}

impl NamesV {
    pub open spec fn start() -> NamesV {
        NamesV {
            locals: Seq::empty(),
            next_local: 0,
            mutable: Seq::empty(),
            functions: Seq::empty(),
            next_function: 0,
            impls: Map::empty(),
            scopes: Seq::empty(),
            captures: Seq::empty(),
        }
    }

    pub open spec fn full(self) -> bool {
        self.next_local == 0xFFFF
    }

    /// The state with one more slot.
    pub open spec fn allocated(self) -> NamesV {
        NamesV {
            next_local: (self.next_local + 1) as u16,
            mutable: self.mutable.push(true),
            ..self
        }
    }

    pub open spec fn is_mutable(self, slot: LocalSlot) -> bool {
        slot < self.mutable.len() ==> self.mutable[slot as int]
    }

    /// The names of locals by slot, and whether each may change.
    pub open spec fn with_mutability(self) -> Seq<(Seq<char>, bool)> {
        let list = by_slot(self.locals, 0, self.next_local as int);
        Seq::new(list.len(), |i: int| (list[i].0, self.is_mutable(list[i].1)))
    }

    pub open spec fn with_mutable(self, slot: LocalSlot, value: bool) -> NamesV {
        NamesV {
            mutable: Seq::new(
                if slot < self.mutable.len() {
                    self.mutable.len()
                } else {
                    (slot + 1) as nat
                },
                |i: int|
                    if i == slot {
                        value
                    } else if i < self.mutable.len() {
                        self.mutable[i]
                    } else {
                        true
                    },
            ),
            ..self
        }
    }

    /// The state with a binding in the innermost scope.
    pub open spec fn bind_inner(self, name: Seq<char>, slot: LocalSlot) -> NamesV {
        NamesV {
            scopes: self.scopes.update(
                self.scopes.len() - 1,
                self.scopes.last().push((name, slot)),
            ),
            ..self
        }
    }

    pub open spec fn bind_local(self, name: Seq<char>, slot: LocalSlot) -> NamesV {
        NamesV { locals: self.locals.push((name, slot)), ..self }
    }

    /// The state once the innermost closure takes a slot from outside.
    pub open spec fn capture(self, name: Seq<char>, from: LocalSlot, to: LocalSlot) -> NamesV {
        NamesV {
            captures: self.captures.update(
                self.captures.len() - 1,
                CaptureV {
                    by_name: self.captures.last().by_name.push((name, to)),
                    copies: self.captures.last().copies.push((from, to)),
                },
            ),
            ..self
        }
    }

    pub open spec fn has_binding(self, name: Seq<char>) -> bool {
        scoped_slot(self.scopes, name, self.scopes.len() as int) is Some || bound_slot(
            self.locals,
            name,
        ) is Some
    }

    /// The name of a slot.
    pub open spec fn slot_name(self, slot: LocalSlot) -> Option<Seq<char>> {
        match scoped_name(self.scopes, slot, self.scopes.len() as int) {
            Some(name) => Some(name),
            None => name_of(self.locals, slot, self.locals.len() as int),
        }
    }

    pub open spec fn decl(self, name: Seq<char>) -> Option<FunctionDeclV> {
        decl_named(self.functions, name, 0)
    }

    pub open spec fn with_decl(self, decl: FunctionDeclV) -> NamesV {
        NamesV {
            functions: self.functions.push(decl),
            next_function: (self.next_function + 1) as u16,
            ..self
        }
    }

    pub open spec fn with_impl(self, index: u16, f: FunctionImplV) -> NamesV {
        NamesV { impls: self.impls.insert(index, f), ..self }
    }

    /// The state inside a body with parameters of its own.
    pub open spec fn entered(self, params: BindingsV) -> NamesV {
        NamesV {
            scopes: self.scopes.push(params),
            captures: self.captures.push(
                CaptureV { by_name: Seq::empty(), copies: Seq::empty() },
            ),
            ..self
        }
    }

    /// The state behind a body.
    pub open spec fn left(self) -> NamesV {
        NamesV {
            scopes: if self.scopes.len() > 0 {
                self.scopes.drop_last()
            } else {
                self.scopes
            },
            captures: self.captures.drop_last(),
            ..self
        }
    }
}

/// Whether one state of the names goes on from another: slots are only added, and no
/// binding of the program or declaration of a function is taken back.
pub open spec fn goes_on(a: NamesV, b: NamesV) -> bool {
    &&& a.next_local <= b.next_local
    &&& a.next_function <= b.next_function
    &&& a.locals.len() <= b.locals.len()
    &&& forall|i: int| 0 <= i < a.locals.len() ==> #[trigger] b.locals[i] == a.locals[i]
    &&& a.functions.len() <= b.functions.len()
    &&& forall|i: int| 0 <= i < a.functions.len() ==> #[trigger] b.functions[i] == a.functions[i]
}

/// Going on is transitive: what holds of each step holds of any number of them.
pub proof fn law_going_on_is_transitive(a: NamesV, b: NamesV, c: NamesV)
    requires
        goes_on(a, b),
        goes_on(b, c),
    ensures
        goes_on(a, c),
        goes_on(a, a),
{
}

/// Nothing that is done to names takes one back: bodies are entered and left, slots and
/// declarations are added.
pub proof fn law_names_are_only_added(
    a: NamesV,
    name: Seq<char>,
    slot: LocalSlot,
    to: LocalSlot,
    value: bool,
    decl: FunctionDeclV,
    f: FunctionImplV,
    params: BindingsV,
)
    requires
        !a.full(),
        a.next_function < 0xFFFF,
    ensures
        goes_on(a, a.allocated()),
        goes_on(a, a.with_mutable(slot, value)),
        goes_on(a, a.bind_inner(name, slot)),
        goes_on(a, a.bind_local(name, slot)),
        goes_on(a, a.capture(name, slot, to)),
        goes_on(a, a.with_decl(decl)),
        goes_on(a, a.with_impl(decl.index, f)),
        goes_on(a, a.entered(params)),
        goes_on(a, a.left()),
        a.entered(params).left().scopes == a.scopes,
        a.entered(params).left().captures == a.captures,
{
    assert(a.entered(params).left().scopes =~= a.scopes);
    assert(a.entered(params).left().captures =~= a.captures);
}

/// The names that a source text has bound so far.
#[derive(Debug)]
pub struct Names {
    pub locals: Scope,
    pub next_local: LocalSlot,
    pub mutable_locals: Vec<bool>,
    pub function_list: Vec<FunctionDecl>,
    pub next_function: u16,
    pub function_impls: HashMap<u16, FunctionImpl>,
    pub closure_scopes: Vec<Scope>,
    pub closure_capture_contexts: Vec<ClosureCaptureContext>,
}

impl Names {
    pub open spec fn view(&self) -> NamesV {
        NamesV {
            locals: self.locals@,
            next_local: self.next_local,
            mutable: self.mutable_locals@,
            functions: decls_view(self.function_list@),
            next_function: self.next_function,
            impls: impls_view(self.function_impls@),
            scopes: scopes_view(self.closure_scopes@),
            captures: captures_view(self.closure_capture_contexts@),
        }
    }

    pub fn new() -> (r: Names)
        ensures
            r@ == NamesV::start(),
    {
        broadcast use vstd::std_specs::hash::group_hash_axioms;

        let r = Names {
            locals: Scope::new(),
            next_local: 0,
            mutable_locals: Vec::new(),
            function_list: Vec::new(),
            next_function: 0,
            function_impls: HashMap::new(),
            closure_scopes: Vec::new(),
            closure_capture_contexts: Vec::new(),
        };
        assert(r@.mutable =~= NamesV::start().mutable);
        assert(r@.functions =~= NamesV::start().functions);
        assert(r@.impls =~= NamesV::start().impls);
        assert(r@.scopes =~= NamesV::start().scopes);
        assert(r@.captures =~= NamesV::start().captures);
        r
    }

    /// Takes the next slot, where one is left.
    pub fn allocate(&mut self) -> (r: Option<LocalSlot>)
        ensures
            if old(self)@.full() {
                r is None && final(self)@ == old(self)@
            } else {
                r == Some(old(self)@.next_local) && final(self)@ == old(self)@.allocated()
            },
    {
        if self.next_local == 0xFFFF {
            return None;
        }
        let slot: LocalSlot = self.next_local;
        self.next_local = slot + 1;
        self.mutable_locals.push(true);
        Some(slot)
    }

    pub fn is_mutable(&self, slot: LocalSlot) -> (r: bool)
        ensures
            r == self@.is_mutable(slot),
    {
        if (slot as usize) < self.mutable_locals.len() {
            self.mutable_locals[slot as usize]
        } else {
            true
        }
    }

    pub fn set_mutable(&mut self, slot: LocalSlot, value: bool)
        ensures
            final(self)@ == old(self)@.with_mutable(slot, value),
    {
        let ghost before = self@;
        let at: usize = slot as usize;
        while self.mutable_locals.len() <= at
            invariant
                at == slot,
                before == old(self)@,
                self.mutable_locals@.len() >= before.mutable.len(),
                self.mutable_locals@.len() <= at + 1 || self.mutable_locals@.len()
                    == before.mutable.len(),
                forall|i: int|
                    0 <= i < self.mutable_locals@.len() ==> #[trigger] self.mutable_locals@[i] == (
                    i < before.mutable.len() ==> before.mutable[i]),
                self@ == (NamesV { mutable: self.mutable_locals@, ..before }),
            decreases at + 1 - self.mutable_locals@.len(),
        {
            self.mutable_locals.push(true);
        }
        self.mutable_locals.set(at, value);
        assert(self@.mutable =~= before.with_mutable(slot, value).mutable);
    }

    /// The slot of a name in a scope around the innermost one.
    pub(crate) fn outer_slot(&self, name: &str) -> (r: Option<LocalSlot>)
        requires
            self.closure_scopes@.len() > 0,
        ensures
            r == scoped_slot(self@.scopes, name@, self@.scopes.len() - 1),
    {
        let mut i: usize = self.closure_scopes.len() - 1;
        while i > 0
            invariant
                i < self.closure_scopes@.len(),
                self@.scopes.len() == self.closure_scopes@.len(),
                scoped_slot(self@.scopes, name@, self@.scopes.len() - 1) == scoped_slot(
                    self@.scopes,
                    name@,
                    i as int,
                ),
            decreases i,
        {
            i -= 1;
            assert(self@.scopes[i as int] == self.closure_scopes@[i as int]@);
            match self.closure_scopes[i].get(name) {
                Some(slot) => {
                    return Some(slot);
                },
                None => {},
            }
        }
        None
    }

    /// The slot of a name in the innermost scope.
    pub fn inner_slot(&self, name: &str) -> (r: Option<LocalSlot>)
        ensures
            r == (if self@.scopes.len() > 0 {
                bound_slot(self@.scopes.last(), name@)
            } else {
                None
            }),
    {
        let n: usize = self.closure_scopes.len();
        if n == 0 {
            return None;
        }
        assert(self@.scopes.last() == self.closure_scopes@[n - 1]@);
        self.closure_scopes[n - 1].get(name)
    }

    pub fn has_local_binding(&self, name: &str) -> (r: bool)
        ensures
            r == self@.has_binding(name@),
    {
        if self.closure_scopes.len() > 0 {
            if self.inner_slot(name).is_some() || self.outer_slot(name).is_some() {
                return true;
            }
        }
        self.locals.get(name).is_some()
    }

    pub fn find_local_name_by_slot(&self, slot: LocalSlot) -> (r: Option<String>)
        ensures
            match self@.slot_name(slot) {
                Some(name) => r is Some && r->0@ == name,
                None => r is None,
            },
    {
        let mut i: usize = self.closure_scopes.len();
        while i > 0
            invariant
                i <= self.closure_scopes@.len(),
                self@.scopes.len() == self.closure_scopes@.len(),
                scoped_name(self@.scopes, slot, self@.scopes.len() as int) == scoped_name(
                    self@.scopes,
                    slot,
                    i as int,
                ),
            decreases i,
        {
            i -= 1;
            assert(self@.scopes[i as int] == self.closure_scopes@[i as int]@);
            match self.closure_scopes[i].name_at(slot) {
                Some(name) => {
                    return Some(name);
                },
                None => {},
            }
        }
        self.locals.name_at(slot)
    }

    pub(crate) fn bind_inner(&mut self, name: String, slot: LocalSlot)
        requires
            old(self).closure_scopes@.len() > 0,
        ensures
            final(self)@ == old(self)@.bind_inner(name@, slot),
    {
        let ghost want = self@.bind_inner(name@, slot);
        assert(self@.scopes.last() == self.closure_scopes@.last()@);
        match self.closure_scopes.pop() {
            Some(scope) => {
                let mut inner = scope;
                inner.bind(name, slot);
                self.closure_scopes.push(inner);
            },
            None => {},
        }
        assert(self@.scopes =~= want.scopes);
    }

    /// The slot under which the innermost closure has taken a name from outside.
    pub(crate) fn captured_slot(&self, name: &str) -> (r: Option<LocalSlot>)
        requires
            self.closure_capture_contexts@.len() > 0,
        ensures
            r == bound_slot(self@.captures.last().by_name, name@),
    {
        let n: usize = self.closure_capture_contexts.len();
        assert(self@.captures.last() == self.closure_capture_contexts@[n - 1]@);
        self.closure_capture_contexts[n - 1].by_name.get(name)
    }

    pub(crate) fn capture(&mut self, name: String, from: LocalSlot, to: LocalSlot)
        requires
            old(self).closure_capture_contexts@.len() > 0,
        ensures
            final(self)@ == old(self)@.capture(name@, from, to),
    {
        let ghost want = self@.capture(name@, from, to);
        assert(self@.captures.last() == self.closure_capture_contexts@.last()@);
        match self.closure_capture_contexts.pop() {
            Some(context) => {
                let mut inner = context;
                inner.by_name.bind(name, to);
                inner.capture_copies.push((from, to));
                self.closure_capture_contexts.push(inner);
            },
            None => {},
        }
        assert(self@.captures =~= want.captures);
    }

    pub fn enter(&mut self, params: Scope)
        ensures
            final(self)@ == old(self)@.entered(params@),
    {
        let ghost want = self@.entered(params@);
        self.closure_scopes.push(params);
        self.closure_capture_contexts.push(
            ClosureCaptureContext { by_name: Scope::new(), capture_copies: Vec::new() },
        );
        assert(self.closure_capture_contexts@.last()@.copies =~= Seq::empty());
        assert(self@.scopes =~= want.scopes);
        assert(self@.captures =~= want.captures);
    }

    /// Closes the innermost body, and hands out what it takes from outside.
    pub fn leave(&mut self) -> (r: Option<Vec<(LocalSlot, LocalSlot)>>)
        ensures
            if old(self)@.captures.len() > 0 {
                r is Some && r->0@ == old(self)@.captures.last().copies && final(self)@ == old(
                    self,
                )@.left()
            } else {
                r is None
            },
    {
        let ghost before = self@;
        let ghost contexts = self.closure_capture_contexts@;
        match self.closure_capture_contexts.pop() {
            Some(context) => {
                assert(before.captures.last() == contexts.last()@);
                let ghost scopes = self.closure_scopes@;
                if self.closure_scopes.len() > 0 {
                    self.closure_scopes.pop();
                }
                assert(self@.captures =~= before.left().captures);
                assert(self@.scopes =~= before.left().scopes);
                Some(context.capture_copies)
            },
            None => None,
        }
    }

    pub fn find_function(&self, name: &str) -> (r: Option<FunctionDecl>)
        ensures
            match self@.decl(name@) {
                Some(d) => r is Some && r->0@ == d,
                None => r is None,
            },
    {
        let mut i: usize = 0;
        while i < self.function_list.len()
            invariant
                i <= self.function_list@.len(),
                self@.functions.len() == self.function_list@.len(),
                self@.decl(name@) == decl_named(self@.functions, name@, i as int),
            decreases self.function_list@.len() - i,
        {
            assert(self@.functions[i as int] == self.function_list@[i as int]@);
            if same_text(self.function_list[i].name.as_str(), name) {
                return Some(self.function_list[i].clone());
            }
            i += 1;
        }
        None
    }

    pub(crate) fn push_function(&mut self, decl: FunctionDecl)
        requires
            old(self).next_function < 0xFFFF,
        ensures
            final(self)@ == old(self)@.with_decl(decl@),
    {
        let ghost want = self@.with_decl(decl@);
        self.function_list.push(decl);
        self.next_function = self.next_function + 1;
        assert(self@.functions =~= want.functions);
    }

    pub fn put_impl(&mut self, index: u16, f: FunctionImpl)
        ensures
            final(self)@ == old(self)@.with_impl(index, f@),
    {
        let ghost want = self@.with_impl(index, f@);
        put(&mut self.function_impls, index, f);
        assert(self@.impls =~= want.impls);
    }

    pub fn has_impl(&self, index: u16) -> (r: bool)
        ensures
            r == self@.impls.dom().contains(index),
    {
        lookup(&self.function_impls, index).is_some()
    }
}

/// The names of parameters that have no name of their own.
pub fn numbered_args(arity: u8) -> (r: Vec<String>)
    ensures
        strings_view(r@) == arg_names(arity as nat),
{
    let mut out: Vec<String> = Vec::new();
    let mut i: u8 = 0;
    while i < arity
        invariant
            i <= arity,
            out@.len() == i,
            forall|k: int| 0 <= k < i ==> #[trigger] out@[k]@ == "arg"@ + decimal(k as nat),
        decreases arity - i,
    {
        let mut name = String::new();
        name.push_str("arg");
        push_decimal(&mut name, i as u64);
        assert(name@ =~= "arg"@ + decimal(i as nat));
        out.push(name);
        i += 1;
    }
    assert(strings_view(out@) =~= arg_names(arity as nat));
    out
}

/// Bindings by slot come in ascending order, each under a name that it has.
pub proof fn law_by_slot_ascends(b: BindingsV, slot: int, end: int)
    ensures
        forall|i: int| 0 <= i < by_slot(b, slot, end).len() ==> slot <= (#[trigger] by_slot(
            b,
            slot,
            end,
        )[i]).1 < end && name_of(b, by_slot(b, slot, end)[i].1, b.len() as int) == Some(
            by_slot(b, slot, end)[i].0,
        ),
        forall|i: int, j: int|
            0 <= i < j < by_slot(b, slot, end).len() ==> (#[trigger] by_slot(b, slot, end)[i]).1 < (
            #[trigger] by_slot(b, slot, end)[j]).1,
    decreases end - slot,
{
    if 0 <= slot < end && slot <= 0xFFFF {
        law_by_slot_ascends(b, slot + 1, end);
    }
}

} // verus!
