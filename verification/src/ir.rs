//! The tree that front ends hand to the type checker and the code generator.

use std::collections::HashMap;
use vstd::prelude::*;

verus! {

/// The number of a local variable.
pub type LocalSlot = u16;

/// The type of a value as far as it is known.
#[derive(Clone, Copy, Debug, PartialEq, Eq, Structural)]
pub enum ValueType {
    Unknown,
    Null,
    Int,
    Float,
    Bool,
    String,
    Array,
    Mapping,
}

/// A type named in a `match` arm.
#[derive(Clone, Copy, Debug, PartialEq, Eq, Structural)]
pub enum MatchTypePattern {
    Int,
    Float,
    Number,
    Bool,
    String,
    Array,
    Mapping,
}

/// The pattern of a `match` arm.
#[derive(Debug)]
pub enum MatchPattern {
    Int(i64),
    String(String),
    Null,
    Type(MatchTypePattern),
}

/// A function literal with the slots it is called through.
#[derive(Debug)]
pub struct ClosureExpr {
    pub param_slots: Vec<LocalSlot>,
    pub capture_copies: Vec<(LocalSlot, LocalSlot)>,
    pub body: Box<Expr>,
}

/// An expression. A float literal is kept as it was written.
#[derive(Debug)]
pub enum Expr {
    Null,
    Int(i64),
    Float(String),
    Bool(bool),
    String(String),
    FunctionRef(u16),
    Call(u16, Vec<Expr>),
    Closure(ClosureExpr),
    ClosureCall(ClosureExpr, Vec<Expr>),
    LocalCall(LocalSlot, Vec<Expr>),
    Add(Box<Expr>, Box<Expr>),
    Sub(Box<Expr>, Box<Expr>),
    Mul(Box<Expr>, Box<Expr>),
    Div(Box<Expr>, Box<Expr>),
    Mod(Box<Expr>, Box<Expr>),
    And(Box<Expr>, Box<Expr>),
    Or(Box<Expr>, Box<Expr>),
    Eq(Box<Expr>, Box<Expr>),
    Lt(Box<Expr>, Box<Expr>),
    Gt(Box<Expr>, Box<Expr>),
    Neg(Box<Expr>),
    Not(Box<Expr>),
    ToOwned(Box<Expr>),
    Borrow(Box<Expr>),
    BorrowMut(Box<Expr>),
    Var(LocalSlot),
    MoveVar(LocalSlot),
    MoveField { root: LocalSlot, key: String },
    MoveIndex { root: LocalSlot, index: i64 },
    IfElse { condition: Box<Expr>, then_expr: Box<Expr>, else_expr: Box<Expr> },
    Match {
        value_slot: LocalSlot,
        result_slot: LocalSlot,
        value: Box<Expr>,
        arms: Vec<(MatchPattern, Expr)>,
        default: Box<Expr>,
    },
    Block { stmts: Vec<Stmt>, expr: Box<Expr> },
}

/// A statement with the line it stands on.
#[allow(inconsistent_fields)]
#[derive(Debug)]
pub enum Stmt {
    Noop { line: u32 },
    Let { index: LocalSlot, expr: Expr, line: u32 },
    Assign { index: LocalSlot, expr: Expr, line: u32 },
    ClosureLet { line: u32, closure: ClosureExpr },
    FuncDecl {
        name: String,
        index: u16,
        arity: u8,
        args: Vec<String>,
        exported: bool,
        line: u32,
    },
    Expr { expr: Expr, line: u32 },
    IfElse { condition: Expr, then_branch: Vec<Stmt>, else_branch: Vec<Stmt>, line: u32 },
    For { init: Box<Stmt>, condition: Expr, post: Box<Stmt>, body: Vec<Stmt>, line: u32 },
    While { condition: Expr, body: Vec<Stmt>, line: u32 },
    Break { line: u32 },
    Continue { line: u32 },
    Drop { index: LocalSlot, line: u32 },
}

/// The body of a function with the slots it is called through.
#[derive(Debug)]
pub struct FunctionImpl {
    pub param_slots: Vec<LocalSlot>,
    pub capture_copies: Vec<(LocalSlot, LocalSlot)>,
    pub body_stmts: Vec<Stmt>,
    pub body_expr: Expr,
}

/// The declaration of a function.
#[derive(Debug)]
pub struct FunctionDecl {
    pub name: String,
    pub arity: u8,
    pub index: u16,
    pub args: Vec<String>,
    pub exported: bool,
    pub return_type: ValueType,
}

/// What a front end makes of a source text.
#[derive(Debug)]
pub struct FrontendIr {
    pub stmts: Vec<Stmt>,
    pub locals: usize,
    pub functions: Vec<FunctionDecl>,
    pub function_impls: HashMap<u16, FunctionImpl>,
    /// The source of each statement, where it is known.
    pub stmt_sources: Vec<Option<String>>,
    pub function_sources: HashMap<u16, String>,
}

// ---------------------------------------------------------------------------
// The mathematical model: the same trees over sequences, with operators as data.

/// A binary operator.
#[derive(Clone, Copy, Debug, PartialEq, Eq, Structural)]
pub enum BinOp {
    Add,
    Sub,
    Mul,
    Div,
    Mod,
    And,
    Or,
    Eq,
    Lt,
    Gt,
}

/// A unary operator.
#[derive(Clone, Copy, Debug, PartialEq, Eq, Structural)]
pub enum UnOp {
    Neg,
    Not,
    ToOwned,
    Borrow,
    BorrowMut,
}

/// The model of a match pattern.
pub enum PatternV {
    Int(i64),
    Str(Seq<char>),
    Null,
    Type(MatchTypePattern),
}

/// The model of a closure.
pub struct ClosureV {
    pub params: Seq<LocalSlot>,
    pub captures: Seq<(LocalSlot, LocalSlot)>,
    pub body: Box<ExprV>,
}

/// The model of an expression.
pub enum ExprV {
    Null,
    Int(i64),
    Float(Seq<char>),
    Bool(bool),
    Str(Seq<char>),
    FunctionRef(u16),
    Call(u16, Seq<ExprV>),
    Closure(ClosureV),
    ClosureCall(ClosureV, Seq<ExprV>),
    LocalCall(LocalSlot, Seq<ExprV>),
    Binary(BinOp, Box<ExprV>, Box<ExprV>),
    Unary(UnOp, Box<ExprV>),
    Var(LocalSlot),
    MoveVar(LocalSlot),
    MoveField(LocalSlot, Seq<char>),
    MoveIndex(LocalSlot, i64),
    IfElse(Box<ExprV>, Box<ExprV>, Box<ExprV>),
    Match {
        value_slot: LocalSlot,
        result_slot: LocalSlot,
        value: Box<ExprV>,
        arms: Seq<(PatternV, ExprV)>,
        default: Box<ExprV>,
    },
    Block(Seq<StmtV>, Box<ExprV>),
}

/// The model of a statement.
#[allow(inconsistent_fields)]
pub enum StmtV {
    Noop(u32),
    Let { index: LocalSlot, expr: ExprV, line: u32 },
    Assign { index: LocalSlot, expr: ExprV, line: u32 },
    ClosureLet { line: u32, closure: ClosureV },
    FuncDecl {
        name: Seq<char>,
        index: u16,
        arity: u8,
        args: Seq<Seq<char>>,
        exported: bool,
        line: u32,
    },
    Expr { expr: ExprV, line: u32 },
    IfElse { condition: ExprV, then_branch: Seq<StmtV>, else_branch: Seq<StmtV>, line: u32 },
    For { init: Box<StmtV>, condition: ExprV, post: Box<StmtV>, body: Seq<StmtV>, line: u32 },
    While { condition: ExprV, body: Seq<StmtV>, line: u32 },
    Break(u32),
    Continue(u32),
    Drop { index: LocalSlot, line: u32 },
}

/// The model of a function body.
pub struct FunctionImplV {
    pub params: Seq<LocalSlot>,
    pub captures: Seq<(LocalSlot, LocalSlot)>,
    pub body_stmts: Seq<StmtV>,
    pub body_expr: ExprV,
}

/// The model of a function declaration.
pub struct FunctionDeclV {
    pub name: Seq<char>,
    pub arity: u8,
    pub index: u16,
    pub args: Seq<Seq<char>>,
    pub exported: bool,
    pub return_type: ValueType,
}

impl MatchPattern {
    pub open spec fn view(&self) -> PatternV {
        match self {
            MatchPattern::Int(v) => PatternV::Int(*v),
            MatchPattern::String(s) => PatternV::Str(s@),
            MatchPattern::Null => PatternV::Null,
            MatchPattern::Type(t) => PatternV::Type(*t),
        }
    }
}

impl ClosureExpr {
    pub open spec fn view(&self) -> ClosureV
        decreases self,
    {
        ClosureV {
            params: self.param_slots@,
            captures: self.capture_copies@,
            body: Box::new(self.body.view()),
        }
    }
}

/// The models of a sequence of expressions.
pub open spec fn exprs_view(s: Seq<Expr>) -> Seq<ExprV>
    decreases s,
{
    Seq::new(
        s.len(),
        |i: int|
            if 0 <= i < s.len() {
                s[i].view()
            } else {
                arbitrary()
            },
    )
}

/// The models of a sequence of statements.
pub open spec fn stmts_view(s: Seq<Stmt>) -> Seq<StmtV>
    decreases s,
{
    Seq::new(
        s.len(),
        |i: int|
            if 0 <= i < s.len() {
                s[i].view()
            } else {
                arbitrary()
            },
    )
}

/// The models of the arms of a match.
pub open spec fn arms_view(s: Seq<(MatchPattern, Expr)>) -> Seq<(PatternV, ExprV)>
    decreases s,
{
    Seq::new(
        s.len(),
        |i: int|
            if 0 <= i < s.len() {
                (s[i].0.view(), s[i].1.view())
            } else {
                arbitrary()
            },
    )
}

/// The contents of a sequence of strings.
pub open spec fn strings_view(s: Seq<String>) -> Seq<Seq<char>> {
    Seq::new(s.len(), |i: int| s[i]@)
}

impl Expr {
    pub open spec fn view(&self) -> ExprV
        decreases self,
    {
        match self {
            Expr::Null => ExprV::Null,
            Expr::Int(v) => ExprV::Int(*v),
            Expr::Float(v) => ExprV::Float(v@),
            Expr::Bool(v) => ExprV::Bool(*v),
            Expr::String(v) => ExprV::Str(v@),
            Expr::FunctionRef(i) => ExprV::FunctionRef(*i),
            Expr::Call(i, args) => ExprV::Call(*i, exprs_view(args@)),
            Expr::Closure(c) => ExprV::Closure(c.view()),
            Expr::ClosureCall(c, args) => ExprV::ClosureCall(c.view(), exprs_view(args@)),
            Expr::LocalCall(i, args) => ExprV::LocalCall(*i, exprs_view(args@)),
            Expr::Add(l, r) => ExprV::Binary(BinOp::Add, Box::new(l.view()), Box::new(r.view())),
            Expr::Sub(l, r) => ExprV::Binary(BinOp::Sub, Box::new(l.view()), Box::new(r.view())),
            Expr::Mul(l, r) => ExprV::Binary(BinOp::Mul, Box::new(l.view()), Box::new(r.view())),
            Expr::Div(l, r) => ExprV::Binary(BinOp::Div, Box::new(l.view()), Box::new(r.view())),
            Expr::Mod(l, r) => ExprV::Binary(BinOp::Mod, Box::new(l.view()), Box::new(r.view())),
            Expr::And(l, r) => ExprV::Binary(BinOp::And, Box::new(l.view()), Box::new(r.view())),
            Expr::Or(l, r) => ExprV::Binary(BinOp::Or, Box::new(l.view()), Box::new(r.view())),
            Expr::Eq(l, r) => ExprV::Binary(BinOp::Eq, Box::new(l.view()), Box::new(r.view())),
            Expr::Lt(l, r) => ExprV::Binary(BinOp::Lt, Box::new(l.view()), Box::new(r.view())),
            Expr::Gt(l, r) => ExprV::Binary(BinOp::Gt, Box::new(l.view()), Box::new(r.view())),
            Expr::Neg(e) => ExprV::Unary(UnOp::Neg, Box::new(e.view())),
            Expr::Not(e) => ExprV::Unary(UnOp::Not, Box::new(e.view())),
            Expr::ToOwned(e) => ExprV::Unary(UnOp::ToOwned, Box::new(e.view())),
            Expr::Borrow(e) => ExprV::Unary(UnOp::Borrow, Box::new(e.view())),
            Expr::BorrowMut(e) => ExprV::Unary(UnOp::BorrowMut, Box::new(e.view())),
            Expr::Var(i) => ExprV::Var(*i),
            Expr::MoveVar(i) => ExprV::MoveVar(*i),
            Expr::MoveField { root, key } => ExprV::MoveField(*root, key@),
            Expr::MoveIndex { root, index } => ExprV::MoveIndex(*root, *index),
            Expr::IfElse { condition, then_expr, else_expr } => ExprV::IfElse(
                Box::new(condition.view()),
                Box::new(then_expr.view()),
                Box::new(else_expr.view()),
            ),
            Expr::Match { value_slot, result_slot, value, arms, default } => ExprV::Match {
                value_slot: *value_slot,
                result_slot: *result_slot,
                value: Box::new(value.view()),
                arms: arms_view(arms@),
                default: Box::new(default.view()),
            },
            Expr::Block { stmts, expr } => ExprV::Block(stmts_view(stmts@), Box::new(expr.view())),
        }
    }
}

impl Stmt {
    pub open spec fn view(&self) -> StmtV
        decreases self,
    {
        match self {
            Stmt::Noop { line } => StmtV::Noop(*line),
            Stmt::Let { index, expr, line } => StmtV::Let {
                index: *index,
                expr: expr.view(),
                line: *line,
            },
            Stmt::Assign { index, expr, line } => StmtV::Assign {
                index: *index,
                expr: expr.view(),
                line: *line,
            },
            Stmt::ClosureLet { line, closure } => StmtV::ClosureLet {
                line: *line,
                closure: closure.view(),
            },
            Stmt::FuncDecl { name, index, arity, args, exported, line } => StmtV::FuncDecl {
                name: name@,
                index: *index,
                arity: *arity,
                args: strings_view(args@),
                exported: *exported,
                line: *line,
            },
            Stmt::Expr { expr, line } => StmtV::Expr { expr: expr.view(), line: *line },
            Stmt::IfElse { condition, then_branch, else_branch, line } => StmtV::IfElse {
                condition: condition.view(),
                then_branch: stmts_view(then_branch@),
                else_branch: stmts_view(else_branch@),
                line: *line,
            },
            Stmt::For { init, condition, post, body, line } => StmtV::For {
                init: Box::new(init.view()),
                condition: condition.view(),
                post: Box::new(post.view()),
                body: stmts_view(body@),
                line: *line,
            },
            Stmt::While { condition, body, line } => StmtV::While {
                condition: condition.view(),
                body: stmts_view(body@),
                line: *line,
            },
            Stmt::Break { line } => StmtV::Break(*line),
            Stmt::Continue { line } => StmtV::Continue(*line),
            Stmt::Drop { index, line } => StmtV::Drop { index: *index, line: *line },
        }
    }
}

impl FunctionImpl {
    pub open spec fn view(&self) -> FunctionImplV {
        FunctionImplV {
            params: self.param_slots@,
            captures: self.capture_copies@,
            body_stmts: stmts_view(self.body_stmts@),
            body_expr: self.body_expr.view(),
        }
    }
}

impl FunctionDecl {
    pub open spec fn view(&self) -> FunctionDeclV {
        FunctionDeclV {
            name: self.name@,
            arity: self.arity,
            index: self.index,
            args: strings_view(self.args@),
            exported: self.exported,
            return_type: self.return_type,
        }
    }
}

// ---------------------------------------------------------------------------
// Copies.

/// A copy of a list of strings.
pub fn clone_strings(v: &Vec<String>) -> (r: Vec<String>)
    ensures
        strings_view(r@) == strings_view(v@),
{
    let mut out: Vec<String> = Vec::new();
    let mut i: usize = 0;
    while i < v.len()
        invariant
            i <= v@.len(),
            out@.len() == i,
            forall|k: int| 0 <= k < i ==> (#[trigger] out@[k])@ == v@[k]@,
        decreases v@.len() - i,
    {
        out.push(v[i].clone());
        i += 1;
    }
    assert(strings_view(out@) =~= strings_view(v@));
    out
}

/// A copy of a list of slots.
pub fn clone_slots(v: &Vec<LocalSlot>) -> (r: Vec<LocalSlot>)
    ensures
        r@ == v@,
{
    let mut out: Vec<LocalSlot> = Vec::new();
    let mut i: usize = 0;
    while i < v.len()
        invariant
            i <= v@.len(),
            out@ == v@.take(i as int),
        decreases v@.len() - i,
    {
        out.push(v[i]);
        i += 1;
        assert(v@.take(i as int) =~= v@.take(i - 1).push(v@[i - 1]));
    }
    assert(v@.take(i as int) =~= v@);
    out
}

/// A copy of a list of slot pairs.
pub fn clone_slot_pairs(v: &Vec<(LocalSlot, LocalSlot)>) -> (r: Vec<(LocalSlot, LocalSlot)>)
    ensures
        r@ == v@,
{
    let mut out: Vec<(LocalSlot, LocalSlot)> = Vec::new();
    let mut i: usize = 0;
    while i < v.len()
        invariant
            i <= v@.len(),
            out@ == v@.take(i as int),
        decreases v@.len() - i,
    {
        out.push((v[i].0, v[i].1));
        i += 1;
        assert(v@.take(i as int) =~= v@.take(i - 1).push(v@[i - 1]));
    }
    assert(v@.take(i as int) =~= v@);
    out
}

impl Clone for MatchPattern {
    fn clone(&self) -> (r: Self)
        ensures
            r@ == self@,
    {
        match self {
            MatchPattern::Int(v) => MatchPattern::Int(*v),
            MatchPattern::String(s) => MatchPattern::String(s.clone()),
            MatchPattern::Null => MatchPattern::Null,
            MatchPattern::Type(t) => MatchPattern::Type(*t),
        }
    }
}

impl Clone for ClosureExpr {
    fn clone(&self) -> (r: Self)
        ensures
            r@ == self@,
        decreases self,
    {
        ClosureExpr {
            param_slots: clone_slots(&self.param_slots),
            capture_copies: clone_slot_pairs(&self.capture_copies),
            body: Box::new((*self.body).clone()),
        }
    }
}

/// A copy of a list of expressions.
pub fn clone_exprs(v: &Vec<Expr>) -> (r: Vec<Expr>)
    ensures
        exprs_view(r@) == exprs_view(v@),
    decreases v,
{
    let mut out: Vec<Expr> = Vec::new();
    let mut i: usize = 0;
    while i < v.len()
        invariant
            i <= v@.len(),
            out@.len() == i,
            forall|k: int| 0 <= k < i ==> (#[trigger] out@[k])@ == v@[k]@,
        decreases v@.len() - i,
    {
        out.push(v[i].clone());
        i += 1;
    }
    assert(exprs_view(out@) =~= exprs_view(v@));
    out
}

/// A copy of a list of match arms.
pub fn clone_arms(v: &Vec<(MatchPattern, Expr)>) -> (r: Vec<(MatchPattern, Expr)>)
    ensures
        arms_view(r@) == arms_view(v@),
    decreases v,
{
    let mut out: Vec<(MatchPattern, Expr)> = Vec::new();
    let mut i: usize = 0;
    while i < v.len()
        invariant
            i <= v@.len(),
            out@.len() == i,
            forall|k: int|
                0 <= k < i ==> (#[trigger] out@[k]).0@ == v@[k].0@ && out@[k].1@ == v@[k].1@,
        decreases v@.len() - i,
    {
        out.push((v[i].0.clone(), v[i].1.clone()));
        i += 1;
    }
    assert(arms_view(out@) =~= arms_view(v@));
    out
}

/// A copy of a list of statements.
pub fn clone_stmts(v: &Vec<Stmt>) -> (r: Vec<Stmt>)
    ensures
        stmts_view(r@) == stmts_view(v@),
    decreases v,
{
    let mut out: Vec<Stmt> = Vec::new();
    let mut i: usize = 0;
    while i < v.len()
        invariant
            i <= v@.len(),
            out@.len() == i,
            forall|k: int| 0 <= k < i ==> (#[trigger] out@[k])@ == v@[k]@,
        decreases v@.len() - i,
    {
        out.push(v[i].clone());
        i += 1;
    }
    assert(stmts_view(out@) =~= stmts_view(v@));
    out
}

impl Clone for Expr {
    fn clone(&self) -> (r: Self)
        ensures
            r@ == self@,
        decreases self,
    {
        match self {
            Expr::Null => Expr::Null,
            Expr::Int(v) => Expr::Int(*v),
            Expr::Float(v) => Expr::Float(v.clone()),
            Expr::Bool(v) => Expr::Bool(*v),
            Expr::String(v) => Expr::String(v.clone()),
            Expr::FunctionRef(i) => Expr::FunctionRef(*i),
            Expr::Call(i, args) => Expr::Call(*i, clone_exprs(args)),
            Expr::Closure(c) => Expr::Closure(c.clone()),
            Expr::ClosureCall(c, args) => Expr::ClosureCall(c.clone(), clone_exprs(args)),
            Expr::LocalCall(i, args) => Expr::LocalCall(*i, clone_exprs(args)),
            Expr::Add(l, r) => Expr::Add(Box::new((**l).clone()), Box::new((**r).clone())),
            Expr::Sub(l, r) => Expr::Sub(Box::new((**l).clone()), Box::new((**r).clone())),
            Expr::Mul(l, r) => Expr::Mul(Box::new((**l).clone()), Box::new((**r).clone())),
            Expr::Div(l, r) => Expr::Div(Box::new((**l).clone()), Box::new((**r).clone())),
            Expr::Mod(l, r) => Expr::Mod(Box::new((**l).clone()), Box::new((**r).clone())),
            Expr::And(l, r) => Expr::And(Box::new((**l).clone()), Box::new((**r).clone())),
            Expr::Or(l, r) => Expr::Or(Box::new((**l).clone()), Box::new((**r).clone())),
            Expr::Eq(l, r) => Expr::Eq(Box::new((**l).clone()), Box::new((**r).clone())),
            Expr::Lt(l, r) => Expr::Lt(Box::new((**l).clone()), Box::new((**r).clone())),
            Expr::Gt(l, r) => Expr::Gt(Box::new((**l).clone()), Box::new((**r).clone())),
            Expr::Neg(e) => Expr::Neg(Box::new((**e).clone())),
            Expr::Not(e) => Expr::Not(Box::new((**e).clone())),
            Expr::ToOwned(e) => Expr::ToOwned(Box::new((**e).clone())),
            Expr::Borrow(e) => Expr::Borrow(Box::new((**e).clone())),
            Expr::BorrowMut(e) => Expr::BorrowMut(Box::new((**e).clone())),
            Expr::Var(i) => Expr::Var(*i),
            Expr::MoveVar(i) => Expr::MoveVar(*i),
            Expr::MoveField { root, key } => Expr::MoveField { root: *root, key: key.clone() },
            Expr::MoveIndex { root, index } => Expr::MoveIndex { root: *root, index: *index },
            Expr::IfElse { condition, then_expr, else_expr } => Expr::IfElse {
                condition: Box::new((**condition).clone()),
                then_expr: Box::new((**then_expr).clone()),
                else_expr: Box::new((**else_expr).clone()),
            },
            Expr::Match { value_slot, result_slot, value, arms, default } => Expr::Match {
                value_slot: *value_slot,
                result_slot: *result_slot,
                value: Box::new((**value).clone()),
                arms: clone_arms(arms),
                default: Box::new((**default).clone()),
            },
            Expr::Block { stmts, expr } => Expr::Block {
                stmts: clone_stmts(stmts),
                expr: Box::new((**expr).clone()),
            },
        }
    }
}

impl Clone for Stmt {
    fn clone(&self) -> (r: Self)
        ensures
            r@ == self@,
        decreases self,
    {
        match self {
            Stmt::Noop { line } => Stmt::Noop { line: *line },
            Stmt::Let { index, expr, line } => Stmt::Let {
                index: *index,
                expr: expr.clone(),
                line: *line,
            },
            Stmt::Assign { index, expr, line } => Stmt::Assign {
                index: *index,
                expr: expr.clone(),
                line: *line,
            },
            Stmt::ClosureLet { line, closure } => Stmt::ClosureLet {
                line: *line,
                closure: closure.clone(),
            },
            Stmt::FuncDecl { name, index, arity, args, exported, line } => Stmt::FuncDecl {
                name: name.clone(),
                index: *index,
                arity: *arity,
                args: clone_strings(args),
                exported: *exported,
                line: *line,
            },
            Stmt::Expr { expr, line } => Stmt::Expr { expr: expr.clone(), line: *line },
            Stmt::IfElse { condition, then_branch, else_branch, line } => Stmt::IfElse {
                condition: condition.clone(),
                then_branch: clone_stmts(then_branch),
                else_branch: clone_stmts(else_branch),
                line: *line,
            },
            Stmt::For { init, condition, post, body, line } => Stmt::For {
                init: Box::new((**init).clone()),
                condition: condition.clone(),
                post: Box::new((**post).clone()),
                body: clone_stmts(body),
                line: *line,
            },
            Stmt::While { condition, body, line } => Stmt::While {
                condition: condition.clone(),
                body: clone_stmts(body),
                line: *line,
            },
            Stmt::Break { line } => Stmt::Break { line: *line },
            Stmt::Continue { line } => Stmt::Continue { line: *line },
            Stmt::Drop { index, line } => Stmt::Drop { index: *index, line: *line },
        }
    }
}

impl Clone for FunctionImpl {
    fn clone(&self) -> (r: Self)
        ensures
            r@ == self@,
    {
        FunctionImpl {
            param_slots: clone_slots(&self.param_slots),
            capture_copies: clone_slot_pairs(&self.capture_copies),
            body_stmts: clone_stmts(&self.body_stmts),
            body_expr: self.body_expr.clone(),
        }
    }
}

impl Clone for FunctionDecl {
    fn clone(&self) -> (r: Self)
        ensures
            r@ == self@,
    {
        FunctionDecl {
            name: self.name.clone(),
            arity: self.arity,
            index: self.index,
            args: clone_strings(&self.args),
            exported: self.exported,
            return_type: self.return_type,
        }
    }
}

} // verus!
