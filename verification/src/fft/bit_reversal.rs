//! Powers of two and the bit-reversal permutation that opens the transform.

use vstd::arithmetic::div_mod::*;
use vstd::arithmetic::logarithm::*;
use vstd::arithmetic::power2::*;
use vstd::bits::*;
use vstd::prelude::*;

verus! {

/// The number whose lowest `bits` binary digits are the lowest `bits` digits
/// of `n` in opposite order; all higher digits are zero.
pub open spec fn reverse_bits(n: nat, bits: nat) -> nat
    decreases bits,
{
    if bits == 0 {
        0
    } else {
        (n % 2) * pow2((bits - 1) as nat) + reverse_bits(n / 2, (bits - 1) as nat)
    }
}

/// A reversed number fits in `bits` binary digits.
pub proof fn lemma_reverse_bits_bound(n: nat, bits: nat)
    ensures
        reverse_bits(n, bits) < pow2(bits),
    decreases bits,
{
    if bits == 0 {
        lemma2_to64();
    } else {
        lemma_reverse_bits_bound(n / 2, (bits - 1) as nat);
        lemma_pow2_unfold(bits);
        let p = pow2((bits - 1) as nat);
        assert((n % 2) * p <= p) by (nonlinear_arith)
            requires
                n % 2 <= 1,
        ;
    }
}

/// Setting a digit that is clear adds its place value.
proof fn lemma_or_single_bit(r: u64, k: u64)
    by (bit_vector)
    requires
        k < 64,
        r & (1u64 << k) == 0,
    ensures
        r | (1u64 << k) == r + (1u64 << k),
{
}

/// A multiple of `2^(k+1)` has digit `k` clear.
proof fn lemma_multiple_has_clear_bit(r: u64, k: u64)
    by (bit_vector)
    requires
        k < 63,
        r % (1u64 << ((k + 1) as u64)) == 0,
    ensures
        r & (1u64 << k) == 0,
{
}

/// A multiple of `2 * p` stays a multiple of `p` when `p` is added to it.
proof fn lemma_multiple_of_half(r: nat, p: nat, b: nat)
    requires
        p > 0,
        r % (2 * p) == 0,
    ensures
        (r + b * p) % p == 0,
{
    let q = r / (2 * p);
    lemma_fundamental_div_mod(r as int, (2 * p) as int);
    assert(r + b * p == (2 * q + b) * p) by (nonlinear_arith)
        requires
            r == (2 * p) * q,
    ;
    lemma_mod_multiples_basic((2 * q + b) as int, p as int);
}

/// Reverses the lowest `num_bits` binary digits of `n`.
pub fn bit_reverse(n: u64, num_bits: u32) -> (reversed: u64)
    requires
        num_bits <= 64,
    ensures
        reversed == reverse_bits(n as nat, num_bits as nat),
{
    let mut reversed: u64 = 0;
    let mut i: u32 = 0;
    proof {
        lemma2_to64();
        lemma_pow2_pos(num_bits as nat);
    }
    while i < num_bits
        invariant
            i <= num_bits <= 64,
            reversed + reverse_bits(n as nat / pow2(i as nat), (num_bits - i) as nat)
                == reverse_bits(n as nat, num_bits as nat),
            reversed as nat % pow2((num_bits - i) as nat) == 0,
        decreases num_bits - i,
    {
        let ghost before = reversed;
        let ghost rest = n as nat / pow2(i as nat);
        let ghost k = (num_bits - 1 - i) as nat;
        let ghost bit = rest % 2;
        proof {
            lemma_u64_shr_is_div(n, i as u64);
            lemma_u64_pow2_no_overflow(k);
            lemma_u64_shl_is_mul(1, k as u64);
            lemma_pow2_unfold(i as nat + 1);
            lemma_pow2_pos(i as nat);
            lemma_div_denominator(n as int, pow2(i as nat) as int, 2);
            lemma_reverse_bits_bound(n as nat, num_bits as nat);
            lemma_pow2_unfold(k + 1);
            lemma_pow2_pos(k);
            let low = n >> i;
            assert(low & 1 == low % 2) by (bit_vector);
        }
        if (n >> i) & 1 != 0 {
            proof {
                if k < 63 {
                    lemma_u64_pow2_no_overflow(k + 1);
                    lemma_u64_shl_is_mul(1, (k + 1) as u64);
                    lemma_multiple_has_clear_bit(reversed, k as u64);
                } else {
                    lemma_small_mod(reversed as nat, pow2(64));
                    assert(0u64 & (1u64 << 63) == 0) by (bit_vector);
                }
                lemma_or_single_bit(reversed, k as u64);
            }
            reversed |= 1 << (num_bits - 1 - i);
        }
        proof {
            assert(reversed == before + bit * pow2(k)) by (nonlinear_arith)
                requires
                    bit == 1 ==> reversed == before + pow2(k),
                    bit == 0 ==> reversed == before,
                    bit == 0 || bit == 1,
            ;
            lemma_multiple_of_half(before as nat, pow2(k), bit);
        }
        i += 1;
    }
    reversed
}

/// A number above one shares no digit with its predecessor exactly when it
/// is even and its half shares none with its own predecessor.
proof fn lemma_clear_lowest_bit_halves(x: u64)
    by (bit_vector)
    requires
        x > 1,
    ensures
        (x & ((x - 1) as u64) == 0) <==> (x % 2 == 0 && (x / 2) & ((x / 2 - 1) as u64) == 0),
{
}

/// A positive number shares no binary digit with its predecessor exactly when
/// it is a power of two.
proof fn lemma_power_of_two_bits(x: u64)
    requires
        x > 0,
    ensures
        (x & ((x - 1) as u64) == 0) <==> is_pow2(x as int),
    decreases x,
{
    reveal(is_pow2);
    if x > 1 {
        lemma_clear_lowest_bit_halves(x);
        if x % 2 == 0 {
            lemma_power_of_two_bits(x / 2);
        }
    } else {
        assert(1u64 & 0u64 == 0) by (bit_vector);
    }
}

/// Whether `n` is a power of two; zero is not.
pub fn is_power_of_two(n: usize) -> (yes: bool)
    ensures
        yes == is_pow2(n as int),
{
    if n == 0 {
        proof {
            reveal(is_pow2);
        }
        false
    } else {
        proof {
            lemma_power_of_two_bits(n as u64);
        }
        n & (n - 1) == 0
    }
}

/// The exponent `k` with `2^k == n`, for a power of two `n`.
pub open spec fn exponent_of(n: nat) -> nat {
    log(2, n as int) as nat
}

/// The exponent of `2^k` is `k`.
pub proof fn lemma_exponent_of_pow2(k: nat)
    ensures
        exponent_of(pow2(k)) == k,
{
    lemma_pow2(k);
    lemma_log_pow(2, k);
}

/// The exponent of a power of two.
pub fn log2(n: usize) -> (bits: u32)
    requires
        is_pow2(n as int),
    ensures
        pow2(bits as nat) == n,
        bits == exponent_of(n as nat),
        bits < usize::BITS,
{
    let mut rest: usize = n;
    let mut bits: u32 = 0;
    proof {
        lemma2_to64();
        reveal(is_pow2);
    }
    while rest > 1
        invariant
            is_pow2(rest as int),
            rest * pow2(bits as nat) == n,
            bits < usize::BITS,
        decreases rest,
    {
        proof {
            reveal(is_pow2);
            lemma_pow2_unfold(bits as nat + 1);
            assert((rest / 2) * pow2(bits as nat + 1) == n) by (nonlinear_arith)
                requires
                    rest % 2 == 0,
                    rest * pow2(bits as nat) == n,
                    pow2(bits as nat + 1) == 2 * pow2(bits as nat),
            ;
            if bits + 1 >= usize::BITS {
                assert((rest / 2) * pow2(bits as nat + 1) >= pow2(bits as nat + 1)) by (nonlinear_arith)
                    requires
                        rest / 2 >= 1,
                ;
                lemma2_to64();
            }
        }
        rest = rest / 2;
        bits += 1;
    }
    proof {
        reveal(is_pow2);
        assert(1 * pow2(bits as nat) == pow2(bits as nat));
        lemma_exponent_of_pow2(bits as nat);
    }
    bits
}

/// Reversing peels the highest of the `bits` digits of `n` into the lowest
/// place of the result.
proof fn lemma_reverse_bits_high(n: nat, bits: nat)
    requires
        bits > 0,
    ensures
        reverse_bits(n, bits) == 2 * reverse_bits(n, (bits - 1) as nat) + (n / pow2(
            (bits - 1) as nat,
        )) % 2,
    decreases bits,
{
    lemma2_to64();
    if bits > 1 {
        let b1 = (bits - 1) as nat;
        let b2 = (bits - 2) as nat;
        lemma_reverse_bits_high(n / 2, b1);
        lemma_pow2_unfold(b1);
        lemma_pow2_pos(b2);
        lemma_div_denominator(n as int, 2, pow2(b2) as int);
        assert(2 * ((n % 2) * pow2(b2)) == (n % 2) * (2 * pow2(b2))) by (nonlinear_arith);
    } else {
        assert((n % 2) * pow2(0) == n % 2 && n / pow2(0) == n) by (nonlinear_arith)
            requires
                pow2(0) == 1,
        ;
        assert(reverse_bits(n, 1) == (n % 2) * pow2(0) + reverse_bits(n / 2, 0));
    }
}

/// Reversing twice gives back the lowest `bits` digits of `n`.
pub proof fn lemma_reverse_bits_involution(n: nat, bits: nat)
    ensures
        reverse_bits(reverse_bits(n, bits), bits) == n % pow2(bits),
    decreases bits,
{
    lemma2_to64();
    if bits > 0 {
        let b1 = (bits - 1) as nat;
        let high = (n / pow2(b1)) % 2;
        lemma_reverse_bits_high(n, bits);
        lemma_reverse_bits_involution(n, b1);
        lemma_pow2_unfold(bits);
        lemma_pow2_pos(b1);
        lemma_mod_breakdown(n as int, pow2(b1) as int, 2);
        assert(high * pow2(b1) == pow2(b1) * high) by (nonlinear_arith);
    }
}

/// Bit reversal permutes the numbers below `2^bits`, and undoes itself.
pub proof fn lemma_reverse_bits_permutes(i: nat, bits: nat)
    requires
        i < pow2(bits),
    ensures
        reverse_bits(i, bits) < pow2(bits),
        reverse_bits(reverse_bits(i, bits), bits) == i,
{
    lemma_reverse_bits_bound(i, bits);
    lemma_reverse_bits_involution(i, bits);
    lemma_small_mod(i, pow2(bits));
}

/// Reorders a frame by bit reversal: the item at position `i` moves to the
/// position whose binary digits are those of `i` in opposite order.
pub fn bit_reverse_permute<T: Copy>(input: &[T]) -> (output: Vec<T>)
    requires
        is_pow2(input@.len() as int),
    ensures
        output@.len() == input@.len(),
        forall|i: int|
            0 <= i < input@.len() ==> {
                let j = #[trigger] reverse_bits(i as nat, exponent_of(input@.len()));
                &&& j < input@.len()
                &&& output@[j as int] == input@[i]
                &&& output@[i] == input@[j as int]
            },
{
    let n = input.len();
    let bits = log2(n);
    let mut output: Vec<T> = Vec::new();
    for i in 0..n
        invariant
            n == input@.len(),
            n == pow2(bits as nat),
            bits < usize::BITS,
            output@.len() == i,
            forall|j: int|
                0 <= j < i ==> output@[j] == input@[reverse_bits(j as nat, bits as nat) as int],
    {
        proof {
            lemma_reverse_bits_permutes(i as nat, bits as nat);
        }
        let j = bit_reverse(i as u64, bits) as usize;
        output.push(input[j]);
    }
    proof {
        assert forall|i: int| 0 <= i < input@.len() implies {
            let j = #[trigger] reverse_bits(i as nat, exponent_of(input@.len()));
            &&& j < input@.len()
            &&& output@[j as int] == input@[i]
            &&& output@[i] == input@[j as int]
        } by {
            lemma_reverse_bits_permutes(i as nat, bits as nat);
        }
    }
    output
}

} // verus!
