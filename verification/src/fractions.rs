//! Numbers with a decimal point: whether two are the same once they are stored.
//!
//! A number is stored in 64 bits as a significand below two to the 53rd times a power of two,
//! the nearest that there is; of two that are equally near, the one with the even significand.

use vstd::arithmetic::div_mod::{lemma_fundamental_div_mod, lemma_fundamental_div_mod_converse};
use vstd::prelude::*;
use crate::lexer::digit_value;
use crate::naturals::Natural;
use crate::text::{chars_of, is_ascii_digit, is_digit, same_text};

verus! {

/// Two to the 53rd: significands are smaller.
pub const SIGNIFICANDS: u64 = 9_007_199_254_740_992;

/// The powers of two are counted from that of the least number.
pub const LEAST_POWER: u64 = 1074;

/// The last power of two, so counted. What is larger still is stored as infinite.
pub const LAST_POWER: u64 = 2045;

/// What the first `n` characters of a literal say: the number that its digits make up, and how
/// many of them stand behind the point.
pub open spec fn digits_of(s: Seq<char>, n: int) -> Option<(nat, Option<nat>)>
    decreases n,
{
    if n <= 0 {
        Some((0, None))
    } else {
        match digits_of(s, n - 1) {
            Some((value, places)) => if s[n - 1] == '.' && places is None {
                Some((value, Some(0)))
            } else if is_digit(s[n - 1]) {
                Some(
                    (
                        value * 10 + digit_value(s[n - 1]),
                        match places {
                            Some(k) => Some(k + 1),
                            None => None,
                        },
                    ),
                )
            } else {
                None
            },
            None => None,
        }
    }
}

/// A power of a number.
pub open spec fn power_of(base: nat, n: nat) -> nat
    decreases n,
{
    if n == 0 {
        1
    } else {
        base * power_of(base, (n - 1) as nat)
    }
}

/// The whole number nearest to a quotient; of two, the even one.
pub open spec fn nearest(n: nat, d: nat) -> nat {
    let q = n / d;
    let twice = 2 * (n % d);
    if twice < d || (twice == d && q % 2 == 0) {
        q
    } else {
        q + 1
    }
}

/// The significand and the power of a quotient, from a power on: the first that brings it
/// below the bound of significands.
pub open spec fn scaled(n: nat, d: nat, power: nat) -> (nat, nat)
    decreases n - d,
{
    if d == 0 || n < SIGNIFICANDS * d {
        (nearest(n, d), power)
    } else {
        scaled(n, 2 * d, power + 1)
    }
}

/// A quotient as it is stored: its significand and its power, or nothing for infinite.
pub open spec fn stored(n: nat, d: nat) -> Option<(nat, nat)> {
    let (m, p) = scaled(n * power_of(2, LEAST_POWER as nat), d, 0);
    let (m, p) = if m == SIGNIFICANDS {
        (m / 2, p + 1)
    } else {
        (m, p)
    };
    if p <= LAST_POWER {
        Some((m, p))
    } else {
        None
    }
}

/// Whether two literals with a point are the same number once they are stored. What is no
/// such literal decides nothing.
pub open spec fn fractions_equal(a: Seq<char>, b: Seq<char>) -> Option<bool> {
    if a == b {
        Some(true)
    } else {
        match (digits_of(a, a.len() as int), digits_of(b, b.len() as int)) {
            (Some((v, Some(j))), Some((w, Some(k)))) => Some(
                stored(v, power_of(10, j)) == stored(w, power_of(10, k)),
            ),
            _ => None,
        }
    }
}

/// Literals are equal either way round.
pub proof fn law_fractions_equal_symmetric(a: Seq<char>, b: Seq<char>)
    ensures
        fractions_equal(a, b) == fractions_equal(b, a),
{
}

proof fn lemma_scaled_power(n: nat, d: nat, power: nat)
    ensures
        scaled(n, d, power).1 >= power,
    decreases n - d,
{
    if d > 0 && n >= SIGNIFICANDS * d {
        lemma_scaled_power(n, 2 * d, power + 1);
    }
}

proof fn lemma_power_positive(base: nat, n: nat)
    requires
        base > 0,
    ensures
        power_of(base, n) > 0,
    decreases n,
{
    if n > 0 {
        lemma_power_positive(base, (n - 1) as nat);
        assert(base * power_of(base, (n - 1) as nat) > 0) by (nonlinear_arith)
            requires
                base > 0,
                power_of(base, (n - 1) as nat) > 0,
        ;
    }
}

proof fn lemma_nearest_widened(n: nat, d: nat, c: nat)
    requires
        d > 0,
        c > 0,
    ensures
        d * c > 0,
        nearest(n * c, d * c) == nearest(n, d),
{
    let q = n / d;
    let r = n % d;
    lemma_fundamental_div_mod(n as int, d as int);
    assert(n * c == q * (d * c) + r * c) by (nonlinear_arith)
        requires
            n == d * q + r,
    ;
    assert(0 <= r * c < d * c) by (nonlinear_arith)
        requires
            0 <= r < d,
            c > 0,
    ;
    lemma_fundamental_div_mod_converse(
        (n * c) as int,
        (d * c) as int,
        q as int,
        (r * c) as int,
    );
    assert(2 * (r * c) < d * c <==> 2 * r < d) by (nonlinear_arith)
        requires
            c > 0,
    ;
    assert(2 * (r * c) == d * c <==> 2 * r == d) by (nonlinear_arith)
        requires
            c > 0,
    ;
}

proof fn lemma_scaled_widened(n: nat, d: nat, c: nat, power: nat)
    requires
        d > 0,
        c > 0,
    ensures
        scaled(n * c, d * c, power) == scaled(n, d, power),
    decreases n - d,
{
    lemma_nearest_widened(n, d, c);
    assert(n * c < SIGNIFICANDS * (d * c) <==> n < SIGNIFICANDS * d) by (nonlinear_arith)
        requires
            c > 0,
    ;
    if n >= SIGNIFICANDS * d {
        lemma_scaled_widened(n, 2 * d, c, power + 1);
        assert((2 * d) * c == 2 * (d * c)) by (nonlinear_arith);
    }
}

/// However a number is written as a quotient, it is stored alike.
pub proof fn law_equal_numbers_are_stored_alike(n: nat, d: nat, c: nat)
    requires
        d > 0,
        c > 0,
    ensures
        stored(n * c, d * c) == stored(n, d),
{
    let up = power_of(2, LEAST_POWER as nat);
    assert((n * c) * up == (n * up) * c) by (nonlinear_arith);
    lemma_scaled_widened(n * up, d, c, 0);
}

/// A number of digits, and how many of them stand behind the point.
struct Digits {
    value: Natural,
    places: Option<usize>,
}

fn read_digits(chars: &Vec<char>) -> (r: Option<Digits>)
    ensures
        match digits_of(chars@, chars@.len() as int) {
            Some((value, Some(k))) => r is Some && r->0.value@ == value && r->0.places == Some(
                k as usize,
            ) && k <= usize::MAX,
            Some((value, None)) => r is Some && r->0.places is None,
            None => r is None,
        },
{
    let mut value = Natural::zero();
    let mut places: Option<usize> = None;
    let mut i: usize = 0;
    while i < chars.len()
        invariant
            i <= chars@.len(),
            digits_of(chars@, i as int) == Some(
                (
                    value@,
                    match places {
                        Some(k) => Some(k as nat),
                        None => None,
                    },
                ),
            ),
            places matches Some(k) ==> k < i,
        decreases chars@.len() - i,
    {
        let c = chars[i];
        if c == '.' && places.is_none() {
            places = Some(0);
        } else if is_ascii_digit(c) {
            value = value.times_plus(10, c as u64 - '0' as u64);
            places = match places {
                Some(k) => Some(k + 1),
                None => None,
            };
        } else {
            proof {
                lemma_stays_unreadable(chars@, i + 1, chars@.len() as int);
            }
            return None;
        }
        i += 1;
    }
    Some(Digits { value, places })
}

proof fn lemma_stays_unreadable(s: Seq<char>, a: int, b: int)
    requires
        0 <= a <= b,
        digits_of(s, a) is None,
    ensures
        digits_of(s, b) is None,
    decreases b,
{
    if a < b {
        lemma_stays_unreadable(s, a, b - 1);
    }
}

/// A number taken a power of a base times.
fn times_power(value: Natural, base: u64, n: usize) -> (r: Natural)
    ensures
        r@ == value@ * power_of(base as nat, n as nat),
{
    let ghost start = value@;
    let mut out = value;
    let mut i: usize = 0;
    assert(start * 1 == start);
    while i < n
        invariant
            i <= n,
            out@ == start * power_of(base as nat, i as nat),
        decreases n - i,
    {
        out = out.times_plus(base, 0);
        i += 1;
        assert(start * power_of(base as nat, (i - 1) as nat) * base == start * (base as nat
            * power_of(base as nat, (i - 1) as nat))) by (nonlinear_arith);
    }
    out
}

/// The whole part of a quotient below the bound of significands.
fn whole_part(n: &Natural, d: &Natural) -> (r: u64)
    requires
        d@ > 0,
        n@ < SIGNIFICANDS * d@,
    ensures
        r == n@ / d@,
        r < SIGNIFICANDS,
{
    let mut low: u64 = 0;
    let mut high: u64 = SIGNIFICANDS;
    while high - low > 1
        invariant
            low < high <= SIGNIFICANDS,
            low * d@ <= n@ < high * d@,
        decreases high - low,
    {
        let mid: u64 = low + (high - low) / 2;
        let product = d.times_plus(mid, 0);
        assert(product@ == mid * d@) by (nonlinear_arith)
            requires
                product@ == d@ * mid + 0,
        ;
        if product.at_most(n) {
            low = mid;
        } else {
            high = mid;
        }
    }
    proof {
        let r = n@ - low * d@;
        assert((low + 1) * d@ == low * d@ + d@) by (nonlinear_arith);
        lemma_fundamental_div_mod_converse(n@ as int, d@ as int, low as int, r);
    }
    low
}

/// The whole number nearest to a quotient below the bound of significands.
fn nearest_whole(n: &Natural, d: &Natural) -> (r: u64)
    requires
        d@ > 0,
        n@ < SIGNIFICANDS * d@,
    ensures
        r == nearest(n@, d@),
        r <= SIGNIFICANDS,
{
    let q = whole_part(n, d);
    let twice = n.times_plus(2, 0);
    let middle = d.times_plus(2 * q + 1, 0);
    proof {
        lemma_fundamental_div_mod(n@ as int, d@ as int);
        assert(d@ * (2 * q + 1) == 2 * (d@ * q) + d@) by (nonlinear_arith);
        assert(2 * n@ == 2 * (d@ * q) + 2 * (n@ % d@));
    }
    if twice.at_most(&middle) && (q % 2 == 0 || !middle.at_most(&twice)) {
        q
    } else {
        q + 1
    }
}

/// A quotient as it is stored.
fn store(value: Natural, places: usize) -> (r: Option<(u64, u64)>)
    ensures
        match stored(value@, power_of(10, places as nat)) {
            Some((m, p)) => r == Some((m as u64, p as u64)) && m <= u64::MAX && p <= u64::MAX,
            None => r is None,
        },
{
    let mut d = times_power(Natural::zero().times_plus(0, 1), 10, places);
    let n = times_power(value, 2, LEAST_POWER as usize);
    let ghost whole = scaled(n@, d@, 0);
    let mut power: u64 = 0;
    proof {
        lemma_power_positive(10, places as nat);
        assert(1 * power_of(10, places as nat) == power_of(10, places as nat));
    }
    while power <= LAST_POWER
        invariant
            power <= LAST_POWER + 1,
            d@ > 0,
            n@ == value@ * power_of(2, LEAST_POWER as nat),
            whole == scaled(n@, power_of(10, places as nat), 0),
            whole == scaled(n@, d@, power as nat),
        decreases LAST_POWER + 1 - power,
    {
        let bound = d.times_plus(SIGNIFICANDS, 0);
        if !bound.at_most(&n) {
            let m = nearest_whole(&n, &d);
            if m == SIGNIFICANDS {
                return if power < LAST_POWER {
                    Some((m / 2, power + 1))
                } else {
                    None
                };
            }
            return Some((m, power));
        }
        d = d.times_plus(2, 0);
        power += 1;
    }
    proof {
        lemma_scaled_power(n@, d@, power as nat);
    }
    None
}

/// Whether two literals with a point are the same number once they are stored.
pub fn equal_fractions(a: &str, b: &str) -> (r: Option<bool>)
    ensures
        r == fractions_equal(a@, b@),
{
    if same_text(a, b) {
        return Some(true);
    }
    match (read_digits(&chars_of(a)), read_digits(&chars_of(b))) {
        (Some(left), Some(right)) => match (left.places, right.places) {
            (Some(j), Some(k)) => match (store(left.value, j), store(right.value, k)) {
                (Some((m, p)), Some((n, q))) => Some(m == n && p == q),
                (None, None) => Some(true),
                _ => Some(false),
            },
            _ => None,
        },
        _ => None,
    }
}

} // verus!
