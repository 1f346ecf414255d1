//! Natural numbers of any size.

use vstd::arithmetic::div_mod::lemma_fundamental_div_mod;
use vstd::prelude::*;

verus! {

/// What a place is worth more than the one before it.
pub const BASE: u64 = 0x1_0000_0000;

/// The number that places make up, the lowest first.
pub open spec fn places_value(s: Seq<u32>) -> nat
    decreases s.len(),
{
    if s.len() == 0 {
        0
    } else {
        s[0] as nat + BASE as nat * places_value(s.skip(1))
    }
}

/// What a place is worth.
spec fn worth(n: nat) -> nat
    decreases n,
{
    if n == 0 {
        1
    } else {
        BASE as nat * worth((n - 1) as nat)
    }
}

/// The number that the places from `i` on make up.
spec fn tail(s: Seq<u32>, i: int) -> nat {
    if i >= s.len() {
        0
    } else {
        places_value(s.skip(i))
    }
}

/// The place at a position.
spec fn place_at(s: Seq<u32>, i: int) -> nat {
    if i < s.len() {
        s[i] as nat
    } else {
        0
    }
}

proof fn lemma_tail(s: Seq<u32>, i: int)
    requires
        0 <= i,
    ensures
        tail(s, i) == place_at(s, i) + BASE as nat * tail(s, i + 1),
{
    if i < s.len() {
        assert(s.skip(i).skip(1) =~= s.skip(i + 1));
        assert(s.skip(i)[0] == s[i]);
        if i + 1 == s.len() {
            assert(places_value(s.skip(i + 1)) == 0);
        }
    }
}

/// One more place at the top.
proof fn lemma_place_added(s: Seq<u32>, x: u32)
    ensures
        places_value(s.push(x)) == places_value(s) + worth(s.len()) * x,
    decreases s.len(),
{
    let more = s.push(x);
    if s.len() == 0 {
        assert(more.skip(1) =~= Seq::empty());
        assert(places_value(more.skip(1)) == 0);
        assert(worth(0) == 1);
    } else {
        let rest = s.skip(1);
        assert(more.skip(1) =~= rest.push(x));
        lemma_place_added(rest, x);
        let a = places_value(rest);
        let w = worth(rest.len());
        assert(worth(s.len()) == BASE as nat * w);
        assert(BASE as nat * (a + w * x) == BASE as nat * a + (BASE as nat * w) * x)
            by (nonlinear_arith);
    }
}

/// A natural number of any size.
pub struct Natural {
    places: Vec<u32>,
}

impl Natural {
    pub closed spec fn view(&self) -> nat {
        places_value(self.places@)
    }

    pub fn zero() -> (r: Natural)
        ensures
            r@ == 0,
    {
        Natural { places: Vec::new() }
    }

    /// The number taken `k` times, and `c` more.
    pub fn times_plus(&self, k: u64, c: u64) -> (r: Natural)
        ensures
            r@ == self@ * k + c,
    {
        let mut out: Vec<u32> = Vec::new();
        let mut carry: u128 = c as u128;
        let mut i: usize = 0;
        assert(self.places@.skip(0) =~= self.places@);
        assert(worth(0) == 1);
        assert(tail(self.places@, 0) == self@);
        while i < self.places.len()
            invariant
                i <= self.places@.len(),
                out@.len() == i,
                carry <= 0x1_0000_0000_0000_0000,
                self@ * k + c == places_value(out@) + worth(i as nat) * (tail(
                    self.places@,
                    i as int,
                ) * k + carry),
            decreases self.places@.len() - i,
        {
            let place = self.places[i];
            assert(0 <= place as u128 * k as u128 <= 0xFFFF_FFFF * 0xFFFF_FFFF_FFFF_FFFF)
                by (nonlinear_arith)
                requires
                    0 <= place as u128 <= 0xFFFF_FFFF,
                    0 <= k as u128 <= 0xFFFF_FFFF_FFFF_FFFF,
            ;
            let total: u128 = place as u128 * k as u128 + carry;
            let low: u128 = total % (BASE as u128);
            let high: u128 = total / (BASE as u128);
            proof {
                lemma_tail(self.places@, i as int);
                lemma_place_added(out@, low as u32);
                let t = tail(self.places@, i + 1);
                let b = BASE as nat;
                let w = worth(i as nat);
                assert(worth((i + 1) as nat) == b * w);
                assert((place + b * t) * k + carry == low + b * (t * k + high)) by (nonlinear_arith)
                    requires
                        place * k + carry == low + b * high,
                ;
                assert(w * (low + b * (t * k + high)) == w * low + (b * w) * (t * k + high))
                    by (nonlinear_arith);
            }
            out.push(low as u32);
            carry = high;
            i += 1;
        }
        assert(tail(self.places@, i as int) * k == 0) by (nonlinear_arith)
            requires
                tail(self.places@, i as int) == 0,
        ;
        while carry > 0
            invariant
                self@ * k + c == places_value(out@) + worth(out@.len()) * carry,
            decreases carry,
        {
            let low: u128 = carry % (BASE as u128);
            let high: u128 = carry / (BASE as u128);
            proof {
                lemma_place_added(out@, low as u32);
                let b = BASE as nat;
                let w = worth(out@.len());
                assert(worth(out@.len() + 1) == b * w);
                lemma_fundamental_div_mod(carry as int, b as int);
                assert(carry == low + b * high);
                assert(w * carry == w * (low + b * high));
                assert(w * (low + b * high) == w * low + (b * w) * high) by (nonlinear_arith);
            }
            out.push(low as u32);
            carry = high;
        }
        assert(worth(out@.len()) * 0 == 0);
        Natural { places: out }
    }

    fn place(&self, i: usize) -> (r: u32)
        ensures
            r == place_at(self.places@, i as int),
    {
        if i < self.places.len() {
            self.places[i]
        } else {
            0
        }
    }

    /// Whether the number is no larger than another.
    pub fn at_most(&self, other: &Natural) -> (r: bool)
        ensures
            r == (self@ <= other@),
    {
        let mut i: usize = if self.places.len() < other.places.len() {
            other.places.len()
        } else {
            self.places.len()
        };
        let mut less = false;
        let mut equal = true;
        while i > 0
            invariant
                less == (tail(self.places@, i as int) < tail(other.places@, i as int)),
                equal == (tail(self.places@, i as int) == tail(other.places@, i as int)),
            decreases i,
        {
            i -= 1;
            let a = self.place(i);
            let b = other.place(i);
            proof {
                lemma_tail(self.places@, i as int);
                lemma_tail(other.places@, i as int);
            }
            if equal {
                less = a < b;
                equal = a == b;
            }
        }
        assert(self.places@.skip(0) =~= self.places@);
        assert(other.places@.skip(0) =~= other.places@);
        less || equal
    }
}

} // verus!
