//! Aligned addresses and sizes.

use vstd::prelude::*;
use vstd::arithmetic::power2;

verus! {

/// Whether `a` is a power of two.
pub open spec fn is_power_of_two(a: int) -> bool {
    exists|k: nat| #[trigger] power2::pow2(k) == a
}

/// The smallest multiple of `a` that is not below `v`.
pub open spec fn rounded_up(v: int, a: int) -> int {
    (v + a - 1) / a * a
}

/// The largest multiple of `a` that is not above `v`.
pub open spec fn rounded_down(v: int, a: int) -> int {
    v / a * a
}

/// `align_address::Align::align_up` on `u64`: the smallest multiple of `align` that is
/// not below `value`. It panics where `align` is no power of two and where that multiple
/// does not fit.
#[verifier::external_body]
pub(crate) fn align_up(value: u64, align: u64) -> (r: u64)
    requires
        is_power_of_two(align as int),
        rounded_up(value as int, align as int) <= u64::MAX,
    ensures
        r == rounded_up(value as int, align as int),
{
    align_address::Align::align_up(value, align)
}

/// `align_address::Align::align_down` on `u64`: the largest multiple of `align` that is
/// not above `value`. It panics where `align` is no power of two.
#[verifier::external_body]
pub(crate) fn align_down(value: u64, align: u64) -> (r: u64)
    requires
        is_power_of_two(align as int),
    ensures
        r == rounded_down(value as int, align as int),
{
    align_address::Align::align_down(value, align)
}

/// Half of an even number is a power of two if the number is one; of the odd numbers one is.
proof fn lemma_half(a: int)
    requires
        a > 0,
    ensures
        a % 2 == 0 ==> is_power_of_two(a) == is_power_of_two(a / 2),
        a % 2 == 1 ==> is_power_of_two(a) == (a == 1),
{
    power2::lemma2_to64();
    if is_power_of_two(a) {
        let k = choose|k: nat| #[trigger] power2::pow2(k) == a;
        if k > 0 {
            power2::lemma_pow2_unfold(k);
            assert(power2::pow2((k - 1) as nat) == a / 2);
        }
    }
    if a % 2 == 0 && is_power_of_two(a / 2) {
        let k = choose|k: nat| #[trigger] power2::pow2(k) == a / 2;
        power2::lemma_pow2_unfold(k + 1);
        assert(power2::pow2(k + 1) == a);
    }
    if a == 1 {
        assert(power2::pow2(0) == a);
    }
}

/// Whether a number is a power of two.
pub fn power_of_two(a: u64) -> (r: bool)
    ensures
        r == is_power_of_two(a as int),
{
    if a == 0 {
        proof {
            if is_power_of_two(0) {
                let k = choose|k: nat| #[trigger] power2::pow2(k) == 0;
                power2::lemma_pow2_pos(k);
            }
        }
        return false;
    }
    let mut n: u64 = a;
    while n % 2 == 0
        invariant
            n > 0,
            is_power_of_two(n as int) == is_power_of_two(a as int),
        decreases n,
    {
        proof {
            lemma_half(n as int);
        }
        n = n / 2;
    }
    proof {
        lemma_half(n as int);
    }
    n == 1
}

/// Whether a number rounded up to a multiple can be told.
pub fn can_round_up(value: u64, align: u64) -> (r: bool)
    requires
        align > 0,
    ensures
        r == (rounded_up(value as int, align as int) <= u64::MAX),
{
    proof {
        lemma_rounded_up(value as int, align as int);
    }
    let steps: u128 = (value as u128 + align as u128 - 1) / align as u128;
    steps * align as u128 <= u64::MAX as u128
}

/// Sizes of pages and of the largest transfers are powers of two.
pub proof fn lemma_powers()
    ensures
        is_power_of_two(0x1000),
        is_power_of_two(0x1_0000),
        is_power_of_two(0x20_0000),
        is_power_of_two(0x40_0000),
{
    power2::lemma2_to64();
    assert(power2::pow2(12) == 0x1000);
    assert(power2::pow2(16) == 0x1_0000);
    assert(power2::pow2(21) == 0x20_0000);
    assert(power2::pow2(22) == 0x40_0000);
}

/// Rounding up gives a multiple, not below and less than one step above.
pub proof fn lemma_rounded_up(v: int, a: int)
    requires
        0 <= v,
        0 < a,
    ensures
        v <= rounded_up(v, a) < v + a,
        rounded_up(v, a) % a == 0,
{
    vstd::arithmetic::div_mod::lemma_fundamental_div_mod(v + a - 1, a);
    vstd::arithmetic::div_mod::lemma_mod_multiples_basic((v + a - 1) / a, a);
    assert((v + a - 1) / a * a == a * ((v + a - 1) / a)) by (nonlinear_arith);
    let m = (v + a - 1) % a;
    assert(0 <= m < a);
}

} // verus!
