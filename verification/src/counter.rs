//! Free-running counters and the slots they stand for.
//!
//! A counter counts every element that ever passed a point of the channel and
//! is kept modulo the machine word. Because the number of slots is a power of
//! two, the wrapped counter still names the right slot.

use vstd::arithmetic::div_mod::lemma_fundamental_div_mod;
use vstd::arithmetic::div_mod::lemma_fundamental_div_mod_converse;
use vstd::arithmetic::div_mod::lemma_mod_bound;
use vstd::arithmetic::div_mod::lemma_mod_mod;
use vstd::arithmetic::power::pow;
use vstd::arithmetic::power2::is_pow2;
use vstd::arithmetic::power2::is_pow2_equiv;
use vstd::arithmetic::power2::lemma2_to64;
use vstd::arithmetic::power2::lemma2_to64_rest;
use vstd::arithmetic::power2::lemma_pow2;
use vstd::arithmetic::power2::lemma_pow2_adds;
use vstd::arithmetic::power2::lemma_pow2_pos;
use vstd::arithmetic::power2::lemma_pow2_strictly_increases;
use vstd::arithmetic::power2::lemma_pow2_unfold;
use vstd::arithmetic::power2::pow2;
use vstd::bits::lemma_usize_low_bits_mask_is_mod;
use vstd::bits::lemma_usize_pow2_no_overflow;
use vstd::bits::low_bits_mask;
use vstd::prelude::*;

verus! {

/// Number of values that a counter can take.
pub open spec fn modulus() -> int {
    usize::MAX + 1
}

/// Largest number of slots that a ring can have.
pub open spec fn max_capacity() -> int {
    usize::MAX as int / 2 + 1
}

/// The machine word that stands for the count `n`.
pub open spec fn wrap(n: int) -> usize {
    (n % modulus()) as usize
}

/// How far the counter `ahead` has run past the counter `behind`.
pub open spec fn distance(ahead: usize, behind: usize) -> int {
    ahead.wrapping_sub(behind) as int
}

pub proof fn lemma_modulus()
    ensures
        modulus() == pow2(usize::BITS as nat),
        modulus() == 2 * max_capacity(),
        max_capacity() == pow2((usize::BITS - 1) as nat),
{
    lemma2_to64();
    lemma2_to64_rest();
    lemma_pow2_unfold(usize::BITS as nat);
    lemma_pow2_pos((usize::BITS - 1) as nat);
}

/// Subtracting two wrapped counts gives the true difference.
pub proof fn lemma_distance(x: int, y: int)
    requires
        0 <= y <= x,
        x - y < modulus(),
    ensures
        distance(wrap(x), wrap(y)) == x - y,
{
    let m = modulus();
    lemma_fundamental_div_mod(x, m);
    lemma_fundamental_div_mod(y, m);
    lemma_mod_bound(x, m);
    lemma_mod_bound(y, m);
    let a = x % m;
    let b = y % m;
    let q = x / m;
    let p = y / m;
    assert(m * q - m * p == m * (q - p)) by (nonlinear_arith);
    assert(q - p == 0 || q - p == 1) by (nonlinear_arith)
        requires
            m > 0,
            0 <= a < m,
            0 <= b < m,
            0 <= m * (q - p) + a - b < m,
    ;
    assert(m * 0 == 0);
    assert(m * 1 == m);
}

/// Advancing a wrapped count is wrapping the advanced count.
pub proof fn lemma_wrap_advance(x: int, n: usize)
    requires
        0 <= x,
    ensures
        wrap(x).wrapping_add(n) == wrap(x + n),
{
    let m = modulus();
    lemma_fundamental_div_mod(x, m);
    lemma_mod_bound(x, m);
    let a = x % m;
    let q = x / m;
    assert(x == q * m + a) by (nonlinear_arith)
        requires
            x == m * q + a,
    ;
    if a + n >= m {
        assert(x + n == (q + 1) * m + (a + n - m)) by (nonlinear_arith)
            requires
                x == q * m + a,
        ;
        lemma_fundamental_div_mod_converse(x + n, m, q + 1, a + n - m);
    } else {
        lemma_fundamental_div_mod_converse(x + n, m, q, a + n);
    }
}

/// The exponent of a power of two.
proof fn lemma_exponent(n: int) -> (e: nat)
    requires
        is_pow2(n),
    ensures
        pow2(e) == n,
{
    is_pow2_equiv(n);
    let e = choose|e: nat| pow(2, e) == n;
    lemma_pow2(e);
    lemma_pow2_pos(e);
    e
}

proof fn lemma_is_pow2(e: nat)
    ensures
        is_pow2(pow2(e) as int),
{
    is_pow2_equiv(pow2(e) as int);
    lemma_pow2(e);
    lemma_pow2_pos(e);
}

/// Masking a wrapped count selects the same slot as the count itself.
pub proof fn lemma_wrap_mask(x: int, capacity: usize)
    requires
        0 <= x,
        is_pow2(capacity as int),
        capacity <= max_capacity(),
    ensures
        wrap(x) & ((capacity - 1) as usize) == x % (capacity as int),
        0 <= x % (capacity as int) < capacity,
{
    let n = lemma_exponent(capacity as int);
    lemma_modulus();
    if n >= usize::BITS as nat {
        if n > usize::BITS as nat {
            lemma_pow2_strictly_increases(usize::BITS as nat, n);
        }
        assert(false);
    }
    lemma_usize_low_bits_mask_is_mod(wrap(x), n);
    lemma_usize_pow2_no_overflow(n);
    assert(low_bits_mask(n) == capacity - 1);
    let c = capacity as int;
    let e = (usize::BITS - n) as nat;
    lemma_pow2_adds(n, e);
    lemma_pow2_pos(e);
    assert(modulus() == c * pow2(e));
    lemma_mod_mod(x, c, pow2(e) as int);
    lemma_mod_bound(x, c);
}

/// Counts less than a capacity apart occupy different slots.
pub proof fn lemma_slots_distinct(j: int, k: int, capacity: int)
    requires
        0 <= j < k < j + capacity,
    ensures
        j % capacity != k % capacity,
{
    lemma_fundamental_div_mod(j, capacity);
    lemma_fundamental_div_mod(k, capacity);
    let q = j / capacity;
    let p = k / capacity;
    if j % capacity == k % capacity {
        assert(k - j == capacity * (p - q)) by (nonlinear_arith)
            requires
                k == capacity * p + j % capacity,
                j == capacity * q + j % capacity,
        ;
        assert(false) by (nonlinear_arith)
            requires
                0 < capacity * (p - q) < capacity,
        ;
    }
}

/// Smallest power of two that is at least `requested`.
pub open spec fn is_rounded_up(requested: int, rounded: int) -> bool {
    &&& is_pow2(rounded)
    &&& requested <= rounded
    &&& forall|p: int| #[trigger] is_pow2(p) && requested <= p ==> rounded <= p
}

/// There is a power of two between any count and its double.
pub proof fn lemma_rounded_up(requested: int, rounded: int)
    requires
        0 < requested,
        is_rounded_up(requested, rounded),
    ensures
        requested <= rounded < 2 * requested,
        is_pow2(requested) ==> rounded == requested,
{
    let e = lemma_exponent(rounded);
    if e == 0 {
        lemma2_to64();
    } else {
        lemma_pow2_unfold(e);
        let half = pow2((e - 1) as nat) as int;
        lemma_is_pow2((e - 1) as nat);
        lemma_pow2_pos((e - 1) as nat);
        if requested <= half {
            assert(is_pow2(half));
            assert(rounded <= half);
        }
    }
}

/// Rounds a requested capacity up to the next power of two.
pub fn round_up(requested: usize) -> (rounded: usize)
    requires
        0 < requested <= max_capacity(),
    ensures
        is_rounded_up(requested as int, rounded as int),
        rounded <= max_capacity(),
{
    let mut rounded: usize = 1;
    let ghost mut e: nat = 0;
    proof {
        lemma2_to64();
        lemma_modulus();
    }
    while rounded < requested
        invariant
            0 < requested <= max_capacity(),
            rounded == pow2(e),
            e < usize::BITS,
            rounded <= max_capacity(),
            e > 0 ==> pow2((e - 1) as nat) < requested,
        decreases usize::BITS - e,
    {
        proof {
            lemma_modulus();
            lemma_pow2_pos(e);
            lemma_pow2_unfold((e + 1) as nat);
            if e + 1 >= usize::BITS {
                assert(e == usize::BITS - 1);
                assert(false);
            }
            if e + 1 < usize::BITS - 1 {
                lemma_pow2_strictly_increases((e + 1) as nat, (usize::BITS - 1) as nat);
            }
        }
        rounded = rounded * 2;
        proof {
            e = e + 1;
        }
    }
    proof {
        lemma_is_pow2(e);
        assert forall|p: int| #[trigger] is_pow2(p) && requested <= p implies rounded <= p by {
            let f = lemma_exponent(p);
            if f < e {
                if f + 1 < e {
                    lemma_pow2_strictly_increases(f, (e - 1) as nat);
                }
                assert(pow2(f) <= pow2((e - 1) as nat));
            } else if f > e {
                lemma_pow2_strictly_increases(e, f);
            }
        }
    }
    rounded
}

} // verus!
