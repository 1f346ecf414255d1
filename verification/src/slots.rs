//! Which slots a piece of code touches.

use vstd::prelude::*;
use crate::ir::{
    arms_view, exprs_view, stmts_view, ClosureExpr, ClosureV, Expr, ExprV, FunctionImpl,
    FunctionImplV, LocalSlot, MatchPattern, PatternV, Stmt, StmtV,
};
use crate::tables::SlotTable;

verus! {

/// A set of slots.
pub struct SlotSet {
    table: SlotTable<()>,
}

impl View for SlotSet {
    type V = Set<u16>;

    closed spec fn view(&self) -> Set<u16> {
        self.table@.dom()
    }
}

/// The slots below `n` of a set, the highest first.
pub open spec fn descending_below(set: Set<u16>, n: int) -> Seq<u16>
    decreases n,
{
    if n <= 0 || n > 0x10000 {
        Seq::empty()
    } else if set.contains((n - 1) as u16) {
        seq![(n - 1) as u16] + descending_below(set, n - 1)
    } else {
        descending_below(set, n - 1)
    }
}

/// The slots of a set, the highest first.
pub open spec fn descending(set: Set<u16>) -> Seq<u16> {
    descending_below(set, 0x10000)
}

proof fn lemma_descending_below(set: Set<u16>, n: int)
    requires
        0 <= n <= 0x10000,
    ensures
        forall|s: u16| #[trigger]
            descending_below(set, n).contains(s) <==> set.contains(s) && s < n,
        forall|i: int, j: int|
            0 <= i < j < descending_below(set, n).len() ==> descending_below(set, n)[i]
                > descending_below(set, n)[j],
    decreases n,
{
    if n > 0 {
        lemma_descending_below(set, n - 1);
        let rest = descending_below(set, n - 1);
        if set.contains((n - 1) as u16) {
            let all = seq![(n - 1) as u16] + rest;
            assert forall|s: u16| #[trigger] all.contains(s) <==> set.contains(s) && s < n by {
                if rest.contains(s) {
                    let w = choose|w: int| 0 <= w < rest.len() && rest[w] == s;
                    assert(all[w + 1] == s);
                }
                if s == n - 1 {
                    assert(all[0] == s);
                }
                if all.contains(s) {
                    let w = choose|w: int| 0 <= w < all.len() && all[w] == s;
                    if w > 0 {
                        assert(rest[w - 1] == s);
                    }
                }
            }
            assert forall|i: int, j: int| 0 <= i < j < all.len() implies all[i] > all[j] by {
                assert(all[j] == rest[j - 1]);
                assert(rest.contains(rest[j - 1]));
                if i > 0 {
                    assert(all[i] == rest[i - 1]);
                }
            }
        }
    }
}

/// The list of the slots of a set holds each of them once, in descending order.
pub proof fn law_descending(set: Set<u16>)
    ensures
        forall|s: u16| #[trigger] descending(set).contains(s) <==> set.contains(s),
        forall|i: int, j: int|
            0 <= i < j < descending(set).len() ==> descending(set)[i] > descending(set)[j],
{
    lemma_descending_below(set, 0x10000);
}

impl SlotSet {
    pub fn new() -> (r: SlotSet)
        ensures
            r@ == Set::<u16>::empty(),
    {
        let r = SlotSet { table: SlotTable::new() };
        assert(r@ =~= Set::<u16>::empty());
        r
    }

    pub fn insert(&mut self, slot: LocalSlot)
        ensures
            final(self)@ == old(self)@.insert(slot),
    {
        self.table.insert(slot, ());
        assert(self@ =~= old(self)@.insert(slot));
    }

    pub fn remove(&mut self, slot: LocalSlot)
        ensures
            final(self)@ == old(self)@.remove(slot),
    {
        self.table.remove(slot);
        assert(self@ =~= old(self)@.remove(slot));
    }

    pub fn contains(&self, slot: LocalSlot) -> (r: bool)
        ensures
            r == self@.contains(slot),
    {
        self.table.contains_key(slot)
    }

    /// The slots of the set, the highest first.
    pub fn to_descending(&self) -> (r: Vec<LocalSlot>)
        ensures
            r@ == descending(self@),
    {
        let mut out: Vec<LocalSlot> = Vec::new();
        let mut n: u32 = 0x10000;
        while n > 0
            invariant
                n <= 0x10000,
                out@ + descending_below(self@, n as int) =~= descending(self@),
            decreases n,
        {
            let slot: u16 = (n - 1) as u16;
            let ghost before = out@;
            if self.contains(slot) {
                out.push(slot);
                assert(before + (seq![slot] + descending_below(self@, n - 1)) =~= out@
                    + descending_below(self@, n - 1));
            }
            n -= 1;
        }
        out
    }
}

// ---------------------------------------------------------------------------
// The slots that code touches.

/// Whether a closure literal touches a slot.
pub open spec fn closure_touches(c: ClosureV, slot: u16) -> bool
    decreases c, 0int,
{
    c.params.contains(slot) || captures_touch(c.captures, c.captures.len() as int, slot) || touches(
        *c.body,
        slot,
    )
}

/// Whether one of the first `n` captures reads or writes a slot.
pub open spec fn captures_touch(captures: Seq<(LocalSlot, LocalSlot)>, n: int, slot: u16) -> bool
    decreases n,
{
    n > 0 && (captures_touch(captures, n - 1, slot) || captures[n - 1].0 == slot || captures[n
        - 1].1 == slot)
}

/// Whether one of the first `n` expressions of a list touches a slot.
pub open spec fn any_touches(list: Seq<ExprV>, n: int, slot: u16) -> bool
    decreases list, n,
{
    0 < n <= list.len() && (any_touches(list, n - 1, slot) || touches(list[n - 1], slot))
}

/// Whether one of the first `n` arms touches a slot.
pub open spec fn any_arm_touches(list: Seq<(PatternV, ExprV)>, n: int, slot: u16) -> bool
    decreases list, n,
{
    0 < n <= list.len() && (any_arm_touches(list, n - 1, slot) || touches(list[n - 1].1, slot))
}

/// Whether one of the first `n` statements of a list touches a slot.
pub open spec fn any_stmt_touches(list: Seq<StmtV>, n: int, slot: u16) -> bool
    decreases list, n,
{
    0 < n <= list.len() && (any_stmt_touches(list, n - 1, slot) || stmt_touches(list[n - 1], slot))
}

/// Whether an expression touches a slot.
pub open spec fn touches(e: ExprV, slot: u16) -> bool
    decreases e, 0int,
{
    match e {
        ExprV::Var(index) => index == slot,
        ExprV::MoveVar(index) => index == slot,
        ExprV::MoveField(root, _) => root == slot,
        ExprV::MoveIndex(root, _) => root == slot,
        ExprV::Call(_, args) => any_touches(args, args.len() as int, slot),
        ExprV::LocalCall(index, args) => index == slot || any_touches(
            args,
            args.len() as int,
            slot,
        ),
        ExprV::Closure(closure) => closure_touches(closure, slot),
        ExprV::ClosureCall(closure, args) => closure_touches(closure, slot) || any_touches(
            args,
            args.len() as int,
            slot,
        ),
        ExprV::Binary(_, l, r) => touches(*l, slot) || touches(*r, slot),
        ExprV::Unary(_, inner) => touches(*inner, slot),
        ExprV::IfElse(c, t, f) => touches(*c, slot) || touches(*t, slot) || touches(*f, slot),
        ExprV::Match { value_slot, result_slot, value, arms, default } => value_slot == slot
            || result_slot == slot || touches(*value, slot) || any_arm_touches(
                arms,
                arms.len() as int,
                slot,
            )
            || touches(*default, slot),
        ExprV::Block(stmts, expr) => any_stmt_touches(
            stmts,
            stmts.len() as int,
            slot,
        ) || touches(*expr, slot),
        _ => false,
    }
}

/// Whether a statement touches a slot.
pub open spec fn stmt_touches(s: StmtV, slot: u16) -> bool
    decreases s, 0int,
{
    match s {
        StmtV::Drop { index, .. } => index == slot,
        StmtV::Let { index, expr, .. } => index == slot || touches(expr, slot),
        StmtV::Assign { index, expr, .. } => index == slot || touches(expr, slot),
        StmtV::ClosureLet { closure, .. } => closure_touches(closure, slot),
        StmtV::Expr { expr, .. } => touches(expr, slot),
        StmtV::IfElse { condition, then_branch, else_branch, .. } => touches(condition, slot)
            || any_stmt_touches(
                then_branch,
                then_branch.len() as int,
                slot,
            ) || any_stmt_touches(else_branch, else_branch.len() as int, slot),
        StmtV::For { init, condition, post, body, .. } => stmt_touches(*init, slot) || touches(
            condition,
            slot,
        ) || stmt_touches(*post, slot) || any_stmt_touches(body, body.len() as int, slot),
        StmtV::While { condition, body, .. } => touches(condition, slot) || any_stmt_touches(
            body,
            body.len() as int,
            slot,
        ),
        _ => false,
    }
}

/// Whether a slot is one that a capture writes to.
pub open spec fn captured(captures: Seq<(LocalSlot, LocalSlot)>, slot: u16) -> bool {
    exists|i: int| 0 <= i < captures.len() && (#[trigger] captures[i]).1 == slot
}

/// The slots that a call of a function leaves values in: those that it touches,
/// without those it captured.
pub open spec fn function_frame(f: FunctionImplV) -> Set<u16> {
    Set::new(
        |slot: u16|
            (f.params.contains(slot) || any_stmt_touches(
                f.body_stmts,
                f.body_stmts.len() as int,
                slot,
            ) || touches(
                f.body_expr,
                slot,
            )) && !captured(f.captures, slot),
    )
}

/// The slots that a call of a closure leaves values in.
pub open spec fn closure_frame(c: ClosureV) -> Set<u16> {
    Set::new(
        |slot: u16|
            (c.params.contains(slot) || touches(*c.body, slot)) && !captured(c.captures, slot),
    )
}

/// A call never clears a slot that it captured.
pub proof fn law_frame_spares_captures(f: FunctionImplV, c: ClosureV, slot: u16)
    ensures
        captured(f.captures, slot) ==> !descending(function_frame(f)).contains(slot),
        captured(c.captures, slot) ==> !descending(closure_frame(c)).contains(slot),
{
    law_descending(function_frame(f));
    law_descending(closure_frame(c));
    assert(captured(f.captures, slot) ==> !function_frame(f).contains(slot));
    assert(captured(c.captures, slot) ==> !closure_frame(c).contains(slot));
}

fn insert_slots(list: &Vec<LocalSlot>, slots: &mut SlotSet)
    ensures
        forall|s: u16| #[trigger] final(slots)@.contains(s) <==> old(slots)@.contains(s) || list@.contains(s),
{
    let mut i: usize = 0;
    while i < list.len()
        invariant
            i <= list@.len(),
            forall|s: u16|
                #[trigger] slots@.contains(s) <==> old(slots)@.contains(s) || (exists|k: int|
                    0 <= k < i && #[trigger] list@[k] == s),
        decreases list@.len() - i,
    {
        slots.insert(list[i]);
        assert(list@[i as int] == list@[i as int]);
        i += 1;
    }
}

fn collect_closure_slot_footprint(closure: &ClosureExpr, slots: &mut SlotSet)
    ensures
        forall|s: u16|
            #[trigger] final(slots)@.contains(s) <==> old(slots)@.contains(s) || closure_touches(closure@, s),
    decreases closure,
{
    insert_slots(&closure.param_slots, slots);
    let ghost with_params = slots@;
    let mut i: usize = 0;
    while i < closure.capture_copies.len()
        invariant
            i <= closure.capture_copies@.len(),
            forall|s: u16|
                #[trigger] slots@.contains(s) <==> with_params.contains(s) || captures_touch(
                    closure.capture_copies@,
                    i as int,
                    s,
                ),
        decreases closure.capture_copies@.len() - i,
    {
        slots.insert(closure.capture_copies[i].0);
        slots.insert(closure.capture_copies[i].1);
        i += 1;
    }
    assert(*closure@.body == closure.body@);
    collect_expr_slot_footprint(&closure.body, slots);
}

fn collect_exprs_slot_footprint(list: &Vec<Expr>, slots: &mut SlotSet)
    ensures
        forall|s: u16|
            #[trigger] final(slots)@.contains(s) <==> old(slots)@.contains(s) || any_touches(
                exprs_view(list@),
                list@.len() as int,
                s,
            ),
    decreases list,
{
    let mut i: usize = 0;
    while i < list.len()
        invariant
            i <= list@.len(),
            forall|s: u16|
                #[trigger] slots@.contains(s) <==> old(slots)@.contains(s) || any_touches(
                    exprs_view(list@),
                    i as int,
                    s,
                ),
        decreases list@.len() - i,
    {
        collect_expr_slot_footprint(&list[i], slots);
        i += 1;
    }
}

fn collect_arms_slot_footprint(list: &Vec<(MatchPattern, Expr)>, slots: &mut SlotSet)
    ensures
        forall|s: u16|
            #[trigger] final(slots)@.contains(s) <==> old(slots)@.contains(s) || any_arm_touches(
                arms_view(list@),
                list@.len() as int,
                s,
            ),
    decreases list,
{
    let mut i: usize = 0;
    while i < list.len()
        invariant
            i <= list@.len(),
            forall|s: u16|
                #[trigger] slots@.contains(s) <==> old(slots)@.contains(s) || any_arm_touches(
                    arms_view(list@),
                    i as int,
                    s,
                ),
        decreases list@.len() - i,
    {
        collect_expr_slot_footprint(&list[i].1, slots);
        i += 1;
    }
}

fn collect_stmts_slot_footprint(list: &Vec<Stmt>, slots: &mut SlotSet)
    ensures
        forall|s: u16|
            #[trigger] final(slots)@.contains(s) <==> old(slots)@.contains(s) || any_stmt_touches(
                stmts_view(list@),
                list@.len() as int,
                s,
            ),
    decreases list,
{
    let mut i: usize = 0;
    while i < list.len()
        invariant
            i <= list@.len(),
            forall|s: u16|
                #[trigger] slots@.contains(s) <==> old(slots)@.contains(s) || any_stmt_touches(
                    stmts_view(list@),
                    i as int,
                    s,
                ),
        decreases list@.len() - i,
    {
        collect_stmt_slot_footprint(&list[i], slots);
        i += 1;
    }
}

pub fn collect_expr_slot_footprint(expr: &Expr, slots: &mut SlotSet)
    ensures
        forall|s: u16|
            #[trigger] final(slots)@.contains(s) <==> old(slots)@.contains(s) || touches(expr@, s),
    decreases expr,
{
    match expr {
        Expr::Null
        | Expr::Int(_)
        | Expr::Float(_)
        | Expr::Bool(_)
        | Expr::String(_)
        | Expr::FunctionRef(_) => {},
        Expr::Var(index) | Expr::MoveVar(index) => {
            slots.insert(*index);
        },
        Expr::MoveField { root, .. } | Expr::MoveIndex { root, .. } => {
            slots.insert(*root);
        },
        Expr::Call(_, args) => {
            collect_exprs_slot_footprint(args, slots);
        },
        Expr::LocalCall(index, args) => {
            slots.insert(*index);
            collect_exprs_slot_footprint(args, slots);
        },
        Expr::Closure(closure) => {
            collect_closure_slot_footprint(closure, slots);
        },
        Expr::ClosureCall(closure, args) => {
            collect_closure_slot_footprint(closure, slots);
            collect_exprs_slot_footprint(args, slots);
        },
        Expr::Add(lhs, rhs)
        | Expr::Sub(lhs, rhs)
        | Expr::Mul(lhs, rhs)
        | Expr::Div(lhs, rhs)
        | Expr::Mod(lhs, rhs)
        | Expr::And(lhs, rhs)
        | Expr::Or(lhs, rhs)
        | Expr::Eq(lhs, rhs)
        | Expr::Lt(lhs, rhs)
        | Expr::Gt(lhs, rhs) => {
            collect_expr_slot_footprint(lhs, slots);
            collect_expr_slot_footprint(rhs, slots);
        },
        Expr::Neg(inner)
        | Expr::Not(inner)
        | Expr::ToOwned(inner)
        | Expr::Borrow(inner)
        | Expr::BorrowMut(inner) => {
            collect_expr_slot_footprint(inner, slots);
        },
        Expr::IfElse { condition, then_expr, else_expr } => {
            collect_expr_slot_footprint(condition, slots);
            collect_expr_slot_footprint(then_expr, slots);
            collect_expr_slot_footprint(else_expr, slots);
        },
        Expr::Match { value_slot, result_slot, value, arms, default } => {
            slots.insert(*value_slot);
            slots.insert(*result_slot);
            collect_expr_slot_footprint(value, slots);
            collect_arms_slot_footprint(arms, slots);
            collect_expr_slot_footprint(default, slots);
        },
        Expr::Block { stmts, expr } => {
            collect_stmts_slot_footprint(stmts, slots);
            collect_expr_slot_footprint(expr, slots);
        },
    }
}

pub fn collect_stmt_slot_footprint(stmt: &Stmt, slots: &mut SlotSet)
    ensures
        forall|s: u16|
            #[trigger] final(slots)@.contains(s) <==> old(slots)@.contains(s) || stmt_touches(stmt@, s),
    decreases stmt,
{
    match stmt {
        Stmt::Noop { .. }
        | Stmt::FuncDecl { .. }
        | Stmt::Break { .. }
        | Stmt::Continue { .. } => {},
        Stmt::Drop { index, .. } => {
            slots.insert(*index);
        },
        Stmt::Let { index, expr, .. } | Stmt::Assign { index, expr, .. } => {
            slots.insert(*index);
            collect_expr_slot_footprint(expr, slots);
        },
        Stmt::ClosureLet { closure, .. } => {
            collect_closure_slot_footprint(closure, slots);
        },
        Stmt::Expr { expr, .. } => {
            collect_expr_slot_footprint(expr, slots);
        },
        Stmt::IfElse { condition, then_branch, else_branch, .. } => {
            collect_expr_slot_footprint(condition, slots);
            collect_stmts_slot_footprint(then_branch, slots);
            collect_stmts_slot_footprint(else_branch, slots);
        },
        Stmt::For { init, condition, post, body, .. } => {
            collect_stmt_slot_footprint(init, slots);
            collect_expr_slot_footprint(condition, slots);
            collect_stmt_slot_footprint(post, slots);
            collect_stmts_slot_footprint(body, slots);
        },
        Stmt::While { condition, body, .. } => {
            collect_expr_slot_footprint(condition, slots);
            collect_stmts_slot_footprint(body, slots);
        },
    }
}

fn remove_captured(capture_copies: &Vec<(LocalSlot, LocalSlot)>, slots: &mut SlotSet)
    ensures
        forall|s: u16|
            #[trigger] final(slots)@.contains(s) <==> old(slots)@.contains(s) && !captured(
                capture_copies@,
                s,
            ),
{
    let mut i: usize = 0;
    while i < capture_copies.len()
        invariant
            i <= capture_copies@.len(),
            forall|s: u16|
                #[trigger] slots@.contains(s) <==> old(slots)@.contains(s) && !(exists|k: int|
                    0 <= k < i && (#[trigger] capture_copies@[k]).1 == s),
        decreases capture_copies@.len() - i,
    {
        slots.remove(capture_copies[i].1);
        assert(capture_copies@[i as int].1 == capture_copies@[i as int].1);
        i += 1;
    }
}

pub fn collect_function_frame_slots(function_impl: &FunctionImpl) -> (r: Vec<LocalSlot>)
    ensures
        r@ == descending(function_frame(function_impl@)),
{
    let mut slots = SlotSet::new();
    insert_slots(&function_impl.param_slots, &mut slots);
    collect_stmts_slot_footprint(&function_impl.body_stmts, &mut slots);
    collect_expr_slot_footprint(&function_impl.body_expr, &mut slots);
    remove_captured(&function_impl.capture_copies, &mut slots);
    assert(slots@ =~= function_frame(function_impl@));
    slots.to_descending()
}

pub fn collect_closure_frame_slots(closure: &ClosureExpr) -> (r: Vec<LocalSlot>)
    ensures
        r@ == descending(closure_frame(closure@)),
{
    let mut slots = SlotSet::new();
    insert_slots(&closure.param_slots, &mut slots);
    collect_expr_slot_footprint(&closure.body, &mut slots);
    remove_captured(&closure.capture_copies, &mut slots);
    assert(slots@ =~= closure_frame(closure@));
    slots.to_descending()
}

} // verus!
