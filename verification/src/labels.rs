//! Which labels a piece of code has: each is new when it is placed.
//!
//! Labels are numbered from a counter that stops at the largest `u32`. What is said here holds
//! for as long as the counter has not got there.

use vstd::prelude::*;
use crate::text::{decimal, is_digit, lemma_decimal_digits, lemma_decimal_injective};

verus! {

/// The name of a label.
pub open spec fn label_name(prefix: Seq<char>, id: nat) -> Seq<char> {
    prefix + "_"@ + decimal(id)
}

/// Whether a label has a number from `low` up to, not including, `high`.
pub open spec fn numbered(l: Seq<char>, low: nat, high: nat) -> bool {
    exists|p: Seq<char>, k: nat| low <= k < high && l == #[trigger] label_name(p, k)
}

/// Whether the label counter is used up.
pub open spec fn used_up(next: nat) -> bool {
    next >= u32::MAX
}

/// Whether every label has a number below that of the next one.
#[verifier::opaque]
pub open spec fn below(a: (Set<Seq<char>>, nat)) -> bool {
    used_up(a.1) || forall|l: Seq<char>| #[trigger] a.0.contains(l) ==> numbered(l, 0, a.1)
}

/// Whether the labels and the counter `b` come from the labels and the counter `a` by taking
/// numbers and placing labels with these numbers.
#[verifier::opaque]
pub open spec fn goes_on_from(a: (Set<Seq<char>>, nat), b: (Set<Seq<char>>, nat)) -> bool {
    &&& a.1 <= b.1
    &&& used_up(b.1) || forall|l: Seq<char>| #[trigger]
        b.0.contains(l) ==> a.0.contains(l) || numbered(l, a.1, b.1)
}

/// Whether a label with a number from `low` on is taken and not placed.
#[verifier::opaque]
pub open spec fn pending(l: Seq<char>, low: nat, a: (Set<Seq<char>>, nat)) -> bool {
    used_up(a.1) || (!a.0.contains(l) && numbered(l, low, a.1))
}

/// Labels with different numbers differ, whatever they are for.
pub proof fn law_labels_differ(p: Seq<char>, q: Seq<char>, a: nat, b: nat)
    requires
        a != b,
    ensures
        label_name(p, a) != label_name(q, b),
{
    if label_name(p, a) == label_name(q, b) {
        reveal_strlit("_");
        let s = label_name(p, a);
        let da = decimal(a);
        let db = decimal(b);
        lemma_decimal_digits(a);
        lemma_decimal_digits(b);
        assert(s == p + "_"@ + da);
        assert(s == q + "_"@ + db);
        let i = p.len() as int;
        let j = q.len() as int;
        assert(s[i] == '_');
        assert(s[j] == '_');
        assert(s.len() == i + 1 + da.len());
        assert(s.len() == j + 1 + db.len());
        if i < j {
            assert(s[j] == da[j - i - 1]);
            assert(is_digit(da[j - i - 1]));
        } else if j < i {
            assert(s[i] == db[i - j - 1]);
            assert(is_digit(db[i - j - 1]));
        }
        assert(da =~= s.skip(i + 1));
        assert(db =~= s.skip(j + 1));
        lemma_decimal_injective(a, b);
    }
}

proof fn lemma_numbers_apart(l: Seq<char>, a: nat, b: nat, c: nat, d: nat)
    requires
        numbered(l, a, b),
        b <= c,
    ensures
        !numbered(l, c, d),
{
    if numbered(l, c, d) {
        let (p, i) = choose|p: Seq<char>, i: nat| a <= i < b && l == #[trigger] label_name(p, i);
        let (q, j) = choose|q: Seq<char>, j: nat| c <= j < d && l == #[trigger] label_name(q, j);
        law_labels_differ(p, q, i, j);
    }
}

pub broadcast proof fn lemma_stays(a: (Set<Seq<char>>, nat))
    ensures
        #[trigger] goes_on_from(a, a),
{
    reveal(goes_on_from);
}

pub broadcast proof fn lemma_goes_on_further(
    a: (Set<Seq<char>>, nat),
    b: (Set<Seq<char>>, nat),
    c: (Set<Seq<char>>, nat),
)
    requires
        #[trigger] goes_on_from(a, b),
        #[trigger] goes_on_from(b, c),
    ensures
        goes_on_from(a, c),
{
    reveal(goes_on_from);
}

pub broadcast proof fn lemma_stays_used_up(a: (Set<Seq<char>>, nat), b: (Set<Seq<char>>, nat))
    requires
        #[trigger] goes_on_from(a, b),
        used_up(a.1),
    ensures
        used_up(b.1),
{
    reveal(goes_on_from);
}

pub broadcast proof fn lemma_below_goes_on(a: (Set<Seq<char>>, nat), b: (Set<Seq<char>>, nat))
    requires
        #[trigger] goes_on_from(a, b),
        below(a),
    ensures
        below(b),
{
    reveal(goes_on_from);
    reveal(below);
}

pub broadcast proof fn lemma_still_pending(
    l: Seq<char>,
    low: nat,
    a: (Set<Seq<char>>, nat),
    b: (Set<Seq<char>>, nat),
)
    requires
        #[trigger] pending(l, low, a),
        #[trigger] goes_on_from(a, b),
    ensures
        pending(l, low, b),
{
    reveal(goes_on_from);
    reveal(pending);
    if !used_up(b.1) && b.0.contains(l) {
        lemma_numbers_apart(l, low, a.1, a.1, b.1);
    }
}

/// A label that is taken and not placed can be placed. To place it is to go on, and leaves the
/// others.
pub proof fn lemma_place_label(
    l: Seq<char>,
    start: (Set<Seq<char>>, nat),
    a: (Set<Seq<char>>, nat),
)
    ensures
        a.0.contains(l) && pending(l, start.1, a) ==> used_up(a.1),
        goes_on_from(start, a) && pending(l, start.1, a) ==> goes_on_from(
            start,
            (a.0.insert(l), a.1),
        ),
        forall|m: Seq<char>, low: nat| #[trigger]
            pending(m, low, a) && (m != l || used_up(a.1)) ==> pending(
                m,
                low,
                (a.0.insert(l), a.1),
            ),
{
    reveal(goes_on_from);
    reveal(pending);
}

/// The label that is taken next is none of those that were taken.
pub proof fn lemma_next_label(
    prefix: Seq<char>,
    start: (Set<Seq<char>>, nat),
    a: (Set<Seq<char>>, nat),
    next: nat,
)
    requires
        next == if used_up(a.1) {
            a.1
        } else {
            a.1 + 1
        },
    ensures
        goes_on_from(a, (a.0, next)),
        below(a) && goes_on_from(start, a) ==> pending(
            label_name(prefix, a.1),
            start.1,
            (a.0, next),
        ),
        forall|m: Seq<char>, low: nat|
            #[trigger] pending(m, low, a) ==> m != label_name(prefix, a.1) || used_up(a.1),
{
    reveal(goes_on_from);
    reveal(pending);
    reveal(below);
    let l = label_name(prefix, a.1);
    if !used_up(next) {
        assert(numbered(l, a.1, next));
        if below(a) && a.0.contains(l) {
            lemma_numbers_apart(l, 0, a.1, a.1, next);
        }
    }
    assert forall|m: Seq<char>, low: nat| #[trigger] pending(m, low, a) implies m != l || used_up(
        a.1,
    ) by {
        if !used_up(a.1) {
            assert(numbered(l, a.1, a.1 + 1));
            lemma_numbers_apart(m, low, a.1, a.1, a.1 + 1);
        }
    }
}

pub broadcast group group_labels {
    lemma_stays,
    lemma_goes_on_further,
    lemma_stays_used_up,
    lemma_below_goes_on,
    lemma_still_pending,
}

} // verus!
