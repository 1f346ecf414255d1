//! Instructions, and the assembler that resolves labels to positions.

use vstd::prelude::*;
use crate::ir::ValueType;
use crate::tables::StrMap;

verus! {

/// A constant. A float is kept as it was written.
#[derive(Debug)]
pub enum Value {
    Null,
    Int(i64),
    Float(String),
    Bool(bool),
    Str(String),
}

/// The model of a constant.
pub enum ValueV {
    Null,
    Int(i64),
    Float(Seq<char>),
    Bool(bool),
    Str(Seq<char>),
}

impl Value {
    pub open spec fn view(&self) -> ValueV {
        match self {
            Value::Null => ValueV::Null,
            Value::Int(v) => ValueV::Int(*v),
            Value::Float(v) => ValueV::Float(v@),
            Value::Bool(v) => ValueV::Bool(*v),
            Value::Str(v) => ValueV::Str(v@),
        }
    }
}

/// An instruction over constants of type `C` and branch targets of type `T`.
#[derive(Debug)]
pub enum Instr<C, T> {
    Const(C),
    Ldloc(u8),
    Stloc(u8),
    Dup,
    Call(u16, u8),
    Add,
    Sub,
    Mul,
    Div,
    Mod,
    Neg,
    Not,
    Shl,
    Ceq,
    Clt,
    Cgt,
    Br(T),
    BrFalse(T),
    Ret,
}

/// The model of an instruction that branches to labels.
pub type InstrV = Instr<ValueV, Seq<char>>;

/// An instruction with its constant and its target replaced.
pub open spec fn map_instr<C, T, D, U>(
    i: Instr<C, T>,
    c: spec_fn(C) -> D,
    t: spec_fn(T) -> U,
) -> Instr<D, U> {
    match i {
        Instr::Const(v) => Instr::Const(c(v)),
        Instr::Ldloc(s) => Instr::Ldloc(s),
        Instr::Stloc(s) => Instr::Stloc(s),
        Instr::Dup => Instr::Dup,
        Instr::Call(index, argc) => Instr::Call(index, argc),
        Instr::Add => Instr::Add,
        Instr::Sub => Instr::Sub,
        Instr::Mul => Instr::Mul,
        Instr::Div => Instr::Div,
        Instr::Mod => Instr::Mod,
        Instr::Neg => Instr::Neg,
        Instr::Not => Instr::Not,
        Instr::Shl => Instr::Shl,
        Instr::Ceq => Instr::Ceq,
        Instr::Clt => Instr::Clt,
        Instr::Cgt => Instr::Cgt,
        Instr::Br(l) => Instr::Br(t(l)),
        Instr::BrFalse(l) => Instr::BrFalse(t(l)),
        Instr::Ret => Instr::Ret,
    }
}

/// The target of a branch.
pub open spec fn branch_target<C, T>(i: Instr<C, T>) -> Option<T> {
    match i {
        Instr::Br(l) => Some(l),
        Instr::BrFalse(l) => Some(l),
        _ => None,
    }
}

/// The model of an instruction that branches to labels.
pub open spec fn instr_view(i: Instr<Value, String>) -> InstrV {
    map_instr(i, |v: Value| v@, |l: String| l@)
}

/// The model of an instruction that branches to positions.
pub open spec fn placed_view(i: Instr<Value, usize>) -> Instr<ValueV, usize> {
    map_instr(i, |v: Value| v@, |l: usize| l)
}

/// The models of a piece of code.
pub open spec fn code_view(s: Seq<Instr<Value, String>>) -> Seq<InstrV> {
    Seq::new(s.len(), |i: int| instr_view(s[i]))
}

/// The models of a piece of code with its labels resolved.
pub open spec fn placed_code_view(s: Seq<Instr<Value, usize>>) -> Seq<Instr<ValueV, usize>> {
    Seq::new(s.len(), |i: int| placed_view(s[i]))
}

/// Why code could not be assembled.
#[derive(Debug)]
pub enum AssemblerError {
    DuplicateLabel(String),
    UndefinedLabel(String),
}

/// The model of an assembler error.
pub enum AssemblerErrorV {
    DuplicateLabel(Seq<char>),
    UndefinedLabel(Seq<char>),
}

impl AssemblerErrorV {
    pub open spec fn text(self) -> Seq<char> {
        match self {
            AssemblerErrorV::DuplicateLabel(l) => "duplicate label '"@ + l + "'"@,
            AssemblerErrorV::UndefinedLabel(l) => "undefined label '"@ + l + "'"@,
        }
    }
}

impl AssemblerError {
    pub open spec fn view(&self) -> AssemblerErrorV {
        match self {
            AssemblerError::DuplicateLabel(l) => AssemblerErrorV::DuplicateLabel(l@),
            AssemblerError::UndefinedLabel(l) => AssemblerErrorV::UndefinedLabel(l@),
        }
    }

    /// The error in words.
    pub fn message(&self) -> (r: String)
        ensures
            r@ == self@.text(),
    {
        match self {
            AssemblerError::DuplicateLabel(l) => {
                let mut out = "duplicate label '".to_string();
                out.push_str(l.as_str());
                out.push_str("'");
                out
            },
            AssemblerError::UndefinedLabel(l) => {
                let mut out = "undefined label '".to_string();
                out.push_str(l.as_str());
                out.push_str("'");
                out
            },
        }
    }
}

/// The types that are known of a program.
#[derive(Debug)]
pub struct TypeMap {
    pub local_types: Vec<ValueType>,
    /// The operand types of instructions, by position in ascending order.
    pub operand_types: Vec<(usize, (ValueType, ValueType))>,
}

/// The name of a function and of its parameters.
#[derive(Debug)]
pub struct FunctionDebug {
    pub name: String,
    pub args: Vec<String>,
}

/// The name of a local and the lines on which it is in use.
#[derive(Debug)]
pub struct LocalDebug {
    pub name: String,
    pub slot: u8,
    pub declared_line: Option<u32>,
    pub last_line: Option<u32>,
}

/// The source and the names of a program.
#[derive(Debug)]
pub struct DebugInfo {
    pub source: Option<String>,
    pub functions: Vec<FunctionDebug>,
    pub locals: Vec<LocalDebug>,
}

impl DebugInfo {
    pub fn new() -> (r: DebugInfo)
        ensures
            r.source is None,
            r.functions@.len() == 0,
            r.locals@.len() == 0,
    {
        DebugInfo { source: None, functions: Vec::new(), locals: Vec::new() }
    }

    pub fn set_source(&mut self, source: String)
        ensures
            *final(self) == (DebugInfo { source: Some(source), ..*old(self) }),
    {
        self.source = Some(source);
    }

    pub fn add_function(&mut self, name: String, args: Vec<String>)
        ensures
            final(self).source == old(self).source,
            final(self).functions@ == old(self).functions@.push(FunctionDebug { name, args }),
            final(self).locals == old(self).locals,
    {
        self.functions.push(FunctionDebug { name, args });
    }

    pub fn add_local_with_range(
        &mut self,
        name: String,
        slot: u8,
        declared_line: Option<u32>,
        last_line: Option<u32>,
    )
        ensures
            final(self).source == old(self).source,
            final(self).functions == old(self).functions,
            final(self).locals@ == old(self).locals@.push(
                LocalDebug { name, slot, declared_line, last_line },
            ),
    {
        self.locals.push(LocalDebug { name, slot, declared_line, last_line });
    }
}

/// A finished program.
#[derive(Debug)]
pub struct Program {
    pub code: Vec<Instr<Value, usize>>,
    pub lines: Vec<(usize, u32)>,
    pub debug: DebugInfo,
    pub type_map: Option<TypeMap>,
}

/// Code under construction.
#[derive(Debug)]
pub struct Assembler {
    pub code: Vec<Instr<Value, String>>,
    pub labels: StrMap<usize>,
    pub lines: Vec<(usize, u32)>,
}

/// The model of code under construction.
pub struct AsmV {
    pub code: Seq<InstrV>,
    pub labels: Map<Seq<char>, usize>,
    pub lines: Seq<(usize, u32)>,
}

impl AsmV {
    pub open spec fn empty() -> AsmV {
        AsmV { code: Seq::empty(), labels: Map::empty(), lines: Seq::empty() }
    }

    pub open spec fn position(self) -> usize {
        self.code.len() as usize
    }

    pub open spec fn emit(self, i: InstrV) -> AsmV {
        AsmV { code: self.code.push(i), ..self }
    }

    pub open spec fn mark_line(self, line: u32) -> AsmV {
        AsmV { lines: self.lines.push((self.position(), line)), ..self }
    }

    /// The code with a label at its end: an error where the label is taken.
    pub open spec fn label(self, name: Seq<char>) -> Result<AsmV, AssemblerErrorV> {
        if self.labels.dom().contains(name) {
            Err(AssemblerErrorV::DuplicateLabel(name))
        } else {
            Ok(AsmV { labels: self.labels.insert(name, self.position()), ..self })
        }
    }
}

/// Whether one piece of code goes on from another: it starts with the code of the other,
/// has every label of the other where that has it, and has new labels within its code.
#[verifier::opaque]
pub open spec fn grows(a: AsmV, b: AsmV) -> bool {
    &&& a.code.len() <= b.code.len()
    &&& forall|i: int| 0 <= i < a.code.len() ==> #[trigger] b.code[i] == a.code[i]
    &&& forall|l: Seq<char>|
        a.labels.dom().contains(l) ==> #[trigger] b.labels.dom().contains(l) && b.labels[l]
            == a.labels[l]
    &&& forall|l: Seq<char>|
        #[trigger] b.labels.dom().contains(l) && !a.labels.dom().contains(l) ==> b.labels[l]
            <= b.code.len()
}

pub broadcast proof fn lemma_grows_emit(a: AsmV, i: InstrV)
    ensures
        grows(a, #[trigger] a.emit(i)),
{
    reveal(grows);
}

pub broadcast proof fn lemma_grows_mark(a: AsmV, line: u32)
    ensures
        grows(a, #[trigger] a.mark_line(line)),
{
    reveal(grows);
}

pub broadcast proof fn lemma_grows_label(a: AsmV, name: Seq<char>)
    ensures
        (#[trigger] a.label(name)) matches Ok(b) ==> grows(a, b),
{
    reveal(grows);
}

pub broadcast proof fn lemma_grows_self(a: AsmV)
    ensures
        #[trigger] grows(a, a),
{
    reveal(grows);
}

/// What goes on from code that goes on from other code goes on from that.
pub broadcast proof fn lemma_grows_further(a: AsmV, b: AsmV, c: AsmV)
    requires
        #[trigger] grows(a, b),
        #[trigger] grows(b, c),
    ensures
        grows(a, c),
{
    reveal(grows);
}

/// Whether a label belongs to one of the loops around.
pub open spec fn in_loops(loops: Seq<(Seq<char>, Seq<char>)>, l: Seq<char>) -> bool {
    exists|j: int| 0 <= j < loops.len() && ((#[trigger] loops[j]).0 == l || loops[j].1 == l)
}

/// Whether every branch in the code of `b` behind the code of `a` leads to a label of `b`
/// or to one of the loops around.
#[verifier::opaque]
pub open spec fn leads(a: AsmV, b: AsmV, loops: Seq<(Seq<char>, Seq<char>)>) -> bool {
    forall|i: int|
        a.code.len() <= i < b.code.len() ==> (branch_target(#[trigger] b.code[i]) matches Some(l)
            ==> b.labels.dom().contains(l) || in_loops(loops, l))
}

pub broadcast proof fn lemma_leads_self(a: AsmV, loops: Seq<(Seq<char>, Seq<char>)>)
    ensures
        #[trigger] leads(a, a, loops),
{
    reveal(leads);
}

pub broadcast proof fn lemma_leads_emit(
    a: AsmV,
    b: AsmV,
    i: InstrV,
    loops: Seq<(Seq<char>, Seq<char>)>,
)
    requires
        #[trigger] leads(a, b, loops),
        branch_target(i) is None,
    ensures
        leads(a, #[trigger] b.emit(i), loops),
{
    reveal(leads);
    assert forall|k: int| a.code.len() <= k < b.emit(i).code.len() implies (branch_target(
        #[trigger] b.emit(i).code[k],
    ) matches Some(l) ==> b.emit(i).labels.dom().contains(l) || in_loops(loops, l)) by {
        if k < b.code.len() {
            assert(b.emit(i).code[k] == b.code[k]);
        }
    }
}

pub broadcast proof fn lemma_leads_mark(
    a: AsmV,
    b: AsmV,
    line: u32,
    loops: Seq<(Seq<char>, Seq<char>)>,
)
    requires
        #[trigger] leads(a, b, loops),
    ensures
        leads(a, #[trigger] b.mark_line(line), loops),
{
    reveal(leads);
}

pub broadcast proof fn lemma_leads_label(
    a: AsmV,
    b: AsmV,
    name: Seq<char>,
    loops: Seq<(Seq<char>, Seq<char>)>,
)
    requires
        #[trigger] leads(a, b, loops),
    ensures
        (#[trigger] b.label(name)) matches Ok(c) ==> leads(a, c, loops),
{
    reveal(leads);
}

/// What holds of two pieces of code holds of both together.
pub broadcast proof fn lemma_leads_further(
    a: AsmV,
    b: AsmV,
    c: AsmV,
    loops: Seq<(Seq<char>, Seq<char>)>,
)
    requires
        #[trigger] leads(a, b, loops),
        #[trigger] leads(b, c, loops),
        grows(b, c),
    ensures
        leads(a, c, loops),
{
    reveal(leads);
    reveal(grows);
    assert forall|k: int| a.code.len() <= k < c.code.len() implies (branch_target(
        #[trigger] c.code[k],
    ) matches Some(l) ==> c.labels.dom().contains(l) || in_loops(loops, l)) by {
        if k < b.code.len() {
            assert(c.code[k] == b.code[k]);
        }
    }
}

/// A branch may come before its label, as long as the label comes.
pub proof fn lemma_branch_placed(
    a: AsmV,
    b: AsmV,
    i: InstrV,
    l: Seq<char>,
    p: AsmV,
    c: AsmV,
    loops: Seq<(Seq<char>, Seq<char>)>,
)
    requires
        leads(a, b, loops),
        branch_target(i) == Some(l),
        p.labels.dom().contains(l),
        grows(p, c),
        grows(b.emit(i), c),
        leads(b.emit(i), c, loops),
    ensures
        leads(a, c, loops),
{
    reveal(leads);
    reveal(grows);
    assert forall|k: int| a.code.len() <= k < c.code.len() implies (branch_target(
        #[trigger] c.code[k],
    ) matches Some(t) ==> c.labels.dom().contains(t) || in_loops(loops, t)) by {
        if k < b.code.len() {
            assert(b.emit(i).code[k] == b.code[k]);
            assert(c.code[k] == b.emit(i).code[k]);
            assert(b.emit(i).labels == b.labels);
        } else if k == b.code.len() {
            assert(c.code[k] == b.emit(i).code[k]);
            assert(c.labels.dom().contains(l));
        }
    }
}

/// Branches to the labels of a loop lead somewhere once the loop is closed.
pub proof fn lemma_loop_closed(
    a: AsmV,
    b: AsmV,
    c: AsmV,
    p: AsmV,
    q: AsmV,
    next: Seq<char>,
    end: Seq<char>,
    loops: Seq<(Seq<char>, Seq<char>)>,
)
    requires
        leads(a, b, loops.push((next, end))),
        grows(b, c),
        leads(b, c, loops),
        p.labels.dom().contains(next),
        grows(p, c),
        q.labels.dom().contains(end),
        grows(q, c),
    ensures
        leads(a, c, loops),
{
    reveal(leads);
    reveal(grows);
    assert forall|k: int| a.code.len() <= k < c.code.len() implies (branch_target(
        #[trigger] c.code[k],
    ) matches Some(t) ==> c.labels.dom().contains(t) || in_loops(loops, t)) by {
        if k < b.code.len() {
            assert(c.code[k] == b.code[k]);
            match branch_target(c.code[k]) {
                Some(t) => {
                    if in_loops(loops.push((next, end)), t) {
                        let j = choose|j: int|
                            0 <= j < loops.len() + 1 && ((#[trigger] loops.push((next, end))[j]).0
                                == t || loops.push((next, end))[j].1 == t);
                        if j < loops.len() {
                            assert(loops[j].0 == t || loops[j].1 == t);
                        }
                    }
                },
                None => {},
            }
        }
    }
}

/// A branch to a label of a loop around.
pub proof fn lemma_branch_in_loop(
    a: AsmV,
    i: InstrV,
    j: int,
    loops: Seq<(Seq<char>, Seq<char>)>,
)
    requires
        0 <= j < loops.len(),
        branch_target(i) == Some(loops[j].0) || branch_target(i) == Some(loops[j].1),
    ensures
        leads(a, a.emit(i), loops),
{
    reveal(leads);
    assert(a.emit(i).code[a.code.len() as int] == i);
    assert(loops[j].0 == loops[j].0);
}

/// With more loops around, no fewer branches lead somewhere.
pub proof fn lemma_leads_inside(
    a: AsmV,
    b: AsmV,
    loops: Seq<(Seq<char>, Seq<char>)>,
    more: (Seq<char>, Seq<char>),
)
    requires
        leads(a, b, loops),
    ensures
        leads(a, b, loops.push(more)),
{
    reveal(leads);
    assert forall|k: int| a.code.len() <= k < b.code.len() implies (branch_target(
        #[trigger] b.code[k],
    ) matches Some(t) ==> b.labels.dom().contains(t) || in_loops(loops.push(more), t)) by {
        match branch_target(b.code[k]) {
            Some(t) => {
                if in_loops(loops, t) {
                    let j = choose|j: int|
                        0 <= j < loops.len() && ((#[trigger] loops[j]).0 == t || loops[j].1 == t);
                    assert(loops.push(more)[j] == loops[j]);
                }
            },
            None => {},
        }
    }
}

pub broadcast group group_grows {
    lemma_grows_emit,
    lemma_grows_mark,
    lemma_grows_label,
    lemma_grows_self,
    lemma_grows_further,
    lemma_leads_self,
    lemma_leads_emit,
    lemma_leads_mark,
    lemma_leads_label,
    lemma_leads_further,
}

/// An instruction with its label resolved.
pub open spec fn placed(i: InstrV, labels: Map<Seq<char>, usize>) -> Instr<ValueV, usize> {
    map_instr(i, |v: ValueV| v, |l: Seq<char>| labels[l])
}

/// Whether the target of an instruction, if it has one, is a defined label.
pub open spec fn target_defined(i: InstrV, labels: Map<Seq<char>, usize>) -> bool {
    branch_target(i) matches Some(l) ==> labels.dom().contains(l)
}

/// The code with its labels resolved, from position `i` on: an error on the first
/// label that stands nowhere.
pub open spec fn placed_from(
    code: Seq<InstrV>,
    labels: Map<Seq<char>, usize>,
    i: int,
) -> Result<Seq<Instr<ValueV, usize>>, AssemblerErrorV>
    decreases code.len() - i,
{
    if i < 0 || i >= code.len() {
        Ok(Seq::empty())
    } else if !target_defined(code[i], labels) {
        Err(AssemblerErrorV::UndefinedLabel(branch_target(code[i])->0))
    } else {
        match placed_from(code, labels, i + 1) {
            Ok(rest) => Ok(seq![placed(code[i], labels)] + rest),
            Err(e) => Err(e),
        }
    }
}

/// A branch to a label on a given piece of code goes where the label stands, and
/// resolving changes nothing else.
pub proof fn law_resolving_keeps_code(code: Seq<InstrV>, labels: Map<Seq<char>, usize>, i: int)
    requires
        0 <= i <= code.len(),
    ensures
        placed_from(code, labels, i) is Ok <==> forall|k: int|
            i <= k < code.len() ==> target_defined(#[trigger] code[k], labels),
        placed_from(code, labels, i) matches Ok(out) ==> out.len() == code.len() - i && forall|k: int|
            0 <= k < out.len() ==> out[k] == placed(code[i + k], labels),
    decreases code.len() - i,
{
    if i < code.len() {
        law_resolving_keeps_code(code, labels, i + 1);
        if placed_from(code, labels, i) is Ok {
            let out = placed_from(code, labels, i)->Ok_0;
            let rest = placed_from(code, labels, i + 1)->Ok_0;
            assert forall|k: int| 0 <= k < out.len() implies out[k] == placed(
                code[i + k],
                labels,
            ) by {
                if k > 0 {
                    assert(out[k] == rest[k - 1]);
                }
            }
        }
    }
}

impl Assembler {
    pub open spec fn view(&self) -> AsmV {
        AsmV { code: code_view(self.code@), labels: self.labels@, lines: self.lines@ }
    }

    pub fn new() -> (r: Assembler)
        ensures
            r@ == AsmV::empty(),
    {
        let r = Assembler {
            code: Vec::new(),
            labels: StrMap::new(),
            lines: Vec::new(),
        };
        assert(r@.code =~= Seq::<InstrV>::empty());
        r
    }

    /// The number of instructions so far.
    pub fn position(&self) -> (r: usize)
        ensures
            r == self@.position(),
            r == self.code@.len(),
    {
        self.code.len()
    }

    pub fn mark_line(&mut self, line: u32)
        ensures
            final(self)@ == old(self)@.mark_line(line),
    {
        let at: usize = self.code.len();
        self.lines.push((at, line));
    }

    pub fn emit(&mut self, instr: Instr<Value, String>)
        ensures
            final(self)@ == old(self)@.emit(instr_view(instr)),
    {
        self.code.push(instr);
        assert(self@.code =~= old(self)@.code.push(instr_view(instr)));
    }

    /// Puts a label at the end of the code.
    pub fn label(&mut self, name: &str) -> (r: Result<(), AssemblerError>)
        ensures
            match old(self)@.label(name@) {
                Ok(labelled) => r is Ok && final(self)@ == labelled,
                Err(e) => r is Err && r->Err_0@ == e && final(self)@ == old(self)@,
            },
    {
        if self.labels.contains_key(name) {
            return Err(AssemblerError::DuplicateLabel(name.to_string()));
        }
        let at: usize = self.code.len();
        self.labels.insert(name.to_string(), at);
        Ok(())
    }

    /// Resolves one instruction.
    fn place(labels: &StrMap<usize>, instr: Instr<Value, String>) -> (r: Result<
        Instr<Value, usize>,
        AssemblerError,
    >)
        ensures
            target_defined(instr_view(instr), labels@) ==> r is Ok && placed_view(r->Ok_0) == placed(
                instr_view(instr),
                labels@,
            ),
            !target_defined(instr_view(instr), labels@) ==> r is Err && r->Err_0@
                == AssemblerErrorV::UndefinedLabel(branch_target(instr_view(instr))->0),
    {
        match instr {
            Instr::Const(v) => Ok(Instr::Const(v)),
            Instr::Ldloc(s) => Ok(Instr::Ldloc(s)),
            Instr::Stloc(s) => Ok(Instr::Stloc(s)),
            Instr::Dup => Ok(Instr::Dup),
            Instr::Call(index, argc) => Ok(Instr::Call(index, argc)),
            Instr::Add => Ok(Instr::Add),
            Instr::Sub => Ok(Instr::Sub),
            Instr::Mul => Ok(Instr::Mul),
            Instr::Div => Ok(Instr::Div),
            Instr::Mod => Ok(Instr::Mod),
            Instr::Neg => Ok(Instr::Neg),
            Instr::Not => Ok(Instr::Not),
            Instr::Shl => Ok(Instr::Shl),
            Instr::Ceq => Ok(Instr::Ceq),
            Instr::Clt => Ok(Instr::Clt),
            Instr::Cgt => Ok(Instr::Cgt),
            Instr::Br(l) => match labels.get(l.as_str()) {
                Some(at) => Ok(Instr::Br(*at)),
                None => Err(AssemblerError::UndefinedLabel(l)),
            },
            Instr::BrFalse(l) => match labels.get(l.as_str()) {
                Some(at) => Ok(Instr::BrFalse(*at)),
                None => Err(AssemblerError::UndefinedLabel(l)),
            },
            Instr::Ret => Ok(Instr::Ret),
        }
    }

    /// Resolves every label.
    pub fn finish_program(self, debug: DebugInfo) -> (r: Result<Program, AssemblerError>)
        ensures
            match placed_from(self@.code, self@.labels, 0) {
                Ok(code) => r matches Ok(p) && placed_code_view(p.code@) == code && p.lines@
                    == self@.lines && p.debug == debug && p.type_map is None,
                Err(e) => r matches Err(x) && x@ == e,
            },
    {
        let ghost model = self@;
        let ghost total = placed_from(model.code, model.labels, 0);
        let mut this = self;
        let mut code: Vec<Instr<Value, usize>> = Vec::new();
        let mut rest: Vec<Instr<Value, String>> = Vec::new();
        let ghost all = this.code@;
        // Instructions are taken from the end, so turn the code round first.
        while this.code.len() > 0
            invariant
                this.labels == self.labels,
                this.lines == self.lines,
                this.code@ + rest@.reverse() =~= all,
            decreases this.code@.len(),
        {
            let ghost before = this.code@;
            let last = this.code.pop();
            match last {
                Some(instr) => {
                    rest.push(instr);
                    assert(before =~= this.code@.push(instr));
                },
                None => {},
            }
        }
        assert(rest@.reverse() =~= all);
        while rest.len() > 0
            invariant
                this.labels == self.labels,
                this.lines == self.lines,
                model == self@,
                all == self.code@,
                code@.len() + rest@.len() == all.len(),
                rest@.reverse() =~= all.skip(code@.len() as int),
                total == placed_from(model.code, model.labels, 0),
                match placed_from(model.code, model.labels, code@.len() as int) {
                    Ok(tail) => total is Ok && total->Ok_0 =~= placed_code_view(code@) + tail,
                    Err(e) => total == Err::<Seq<Instr<ValueV, usize>>, AssemblerErrorV>(e),
                },
            decreases rest@.len(),
        {
            let ghost k = code@.len() as int;
            let ghost before = rest@;
            let last = rest.pop();
            match last {
                Some(instr) => {
                    proof {
                        assert(before.reverse()[0] == instr);
                        assert(all[k] == instr);
                        assert(model.code[k] == instr_view(instr));
                        assert(rest@.reverse() =~= before.reverse().skip(1));
                    }
                    match Self::place(&this.labels, instr) {
                        Ok(p) => {
                            let ghost done = code@;
                            code.push(p);
                            assert(placed_code_view(code@) =~= placed_code_view(done).push(
                                placed_view(p),
                            ));
                        },
                        Err(e) => {
                            return Err(e);
                        },
                    }
                },
                None => {},
            }
        }
        Ok(
            Program {
                code,
                lines: this.lines,
                debug,
                type_map: None,
            },
        )
    }
}

/// Code in which every branch leads to a label, with no loop around it, can be resolved.
/// With a return behind it, every branch leads to an instruction.
pub proof fn law_branches_lead_into_the_code(out: AsmV)
    requires
        leads(AsmV::empty(), out, Seq::empty()),
        grows(AsmV::empty(), out),
    ensures
        placed_from(out.emit(Instr::Ret).code, out.emit(Instr::Ret).labels, 0) matches Ok(code)
            && code.len() == out.code.len() + 1 && forall|k: int|
            0 <= k < code.len() ==> (branch_target(#[trigger] code[k]) matches Some(t) ==> t
                < code.len()),
{
    reveal(leads);
    reveal(grows);
    let end = out.emit(Instr::Ret);
    law_resolving_keeps_code(end.code, end.labels, 0);
    assert forall|k: int| 0 <= k < end.code.len() implies target_defined(
        #[trigger] end.code[k],
        end.labels,
    ) by {
        if k < out.code.len() {
            assert(end.code[k] == out.code[k]);
        }
    }
    let code = placed_from(end.code, end.labels, 0)->Ok_0;
    assert forall|k: int| 0 <= k < code.len() implies (branch_target(#[trigger] code[k]) matches Some(
        t,
    ) ==> t < code.len()) by {
        assert(code[k] == placed(end.code[0 + k], end.labels));
        assert(target_defined(end.code[k], end.labels));
    }
}

} // verus!
