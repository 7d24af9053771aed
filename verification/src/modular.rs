//! Arithmetic modulo the Mersenne prime 2^127 - 1.

use vstd::arithmetic::div_mod::*;
use vstd::arithmetic::mul::*;
use vstd::arithmetic::power::*;
use vstd::prelude::*;

verus! {

/// 2^127 - 1, the modulus of the key exchange.
pub const DH_PRIME: u128 = 0x7fff_ffff_ffff_ffff_ffff_ffff_ffff_ffff;

/// The base of the key exchange.
pub const DH_GENERATOR: u128 = 5;

/// The remainder of `value` modulo the prime.
pub open spec fn reduced(value: int) -> nat {
    (value % DH_PRIME as int) as nat
}

/// `base` to the `exponent`, modulo the prime.
pub open spec fn power(base: nat, exponent: nat) -> nat {
    reduced(pow(base as int, exponent))
}

/// The sum of two residues.
pub fn mod_add(left: u128, right: u128) -> (sum: u128)
    requires
        left < DH_PRIME,
        right < DH_PRIME,
    ensures
        sum == reduced(left + right),
{
    let sum: u128 = left + right;
    if sum >= DH_PRIME {
        sum - DH_PRIME
    } else {
        sum
    }
}

/// The product of a residue and any number.
pub fn mod_mul(left: u128, right: u128) -> (product: u128)
    requires
        left < DH_PRIME,
    ensures
        product == reduced(left * right),
{
    let ghost whole = left as int * right as int;
    let mut addend: u128 = left;
    let mut rest: u128 = right;
    let mut result: u128 = 0;
    while rest > 0
        invariant
            addend < DH_PRIME,
            result < DH_PRIME,
            reduced(result + addend * rest) == reduced(whole),
        decreases rest,
    {
        let ghost half = (rest / 2) as int;
        assert(rest & 1 == rest % 2) by (bit_vector);
        assert(rest >> 1 == rest / 2) by (bit_vector);
        let ghost result_before = result as int;
        if rest & 1 == 1 {
            result = mod_add(result, addend);
        }
        let ghost doubled = addend + addend;
        let ghost bit = (rest % 2) as int;
        let ghost picked = result_before + bit * addend;
        proof {
            assert(result == reduced(picked)) by {
                assert(bit == 0 || bit == 1);
                lemma_small_mod(result_before as nat, DH_PRIME as nat);
                assert(bit * addend == (if bit == 1 { addend as int } else { 0 }))
                    by (nonlinear_arith)
                    requires
                        bit == 0 || bit == 1,
                ;
            }
            assert(result_before + addend * rest == picked + doubled * half) by (nonlinear_arith)
                requires
                    picked == result_before + bit * addend,
                    doubled == addend + addend,
                    rest as int == 2 * half + bit,
            ;
            lemma_reduced_step(picked, doubled, half);
        }
        addend = mod_add(addend, addend);
        rest = rest >> 1;
    }
    proof {
        assert(addend * 0 == 0);
        lemma_small_mod(result as nat, DH_PRIME as nat);
    }
    result
}

/// Reducing a summand and a factor first changes nothing modulo the prime.
proof fn lemma_reduced_step(summand: int, factor: int, times: int)
    ensures
        reduced(reduced(summand) + reduced(factor) * times) == reduced(summand + factor * times),
{
    let m = DH_PRIME as int;
    lemma_mul_mod_noop_left(factor, times, m);
    lemma_add_mod_noop(summand % m, (factor % m) * times, m);
    lemma_add_mod_noop(summand, factor * times, m);
    lemma_mod_twice(summand, m);
}

/// Powers modulo the prime do not see whether the base was reduced first.
pub proof fn lemma_power_reduced_base(base: int, exponent: nat)
    ensures
        power(reduced(base), exponent) == reduced(pow(base, exponent)),
    decreases exponent,
{
    reveal(pow);
    if exponent > 0 {
        let below = (exponent - 1) as nat;
        lemma_power_reduced_base(base, below);
        let m = DH_PRIME as int;
        let small = base % m;
        lemma_mul_mod_noop(small, pow(small, below), m);
        lemma_mul_mod_noop(base, pow(base, below), m);
        lemma_mod_twice(base, m);
    }
}

/// `base` to the `exponent`, modulo the prime.
pub fn mod_pow(base: u128, exponent: u128) -> (result: u128)
    ensures
        result == power(base as nat, exponent as nat),
{
    let ghost whole = pow(base as int, exponent as nat);
    let mut result: u128 = 1;
    let mut square: u128 = base % DH_PRIME;
    let mut rest: u128 = exponent;
    proof {
        lemma_power_reduced_base(base as int, exponent as nat);
    }
    while rest > 0
        invariant
            result < DH_PRIME,
            square < DH_PRIME,
            reduced(result * pow(square as int, rest as nat)) == reduced(whole),
        decreases rest,
    {
        assert(rest & 1 == rest % 2) by (bit_vector);
        assert(rest >> 1 == rest / 2) by (bit_vector);
        let ghost result_before = result as int;
        let ghost square_before = square as int;
        let ghost half = (rest / 2) as nat;
        if rest & 1 == 1 {
            result = mod_mul(result, square);
        }
        proof {
            lemma_square_step(result_before, square_before, rest as nat);
        }
        square = mod_mul(square, square);
        proof {
            let factor = if rest % 2 == 1 {
                result_before * square_before
            } else {
                result_before
            };
            let m = DH_PRIME as int;
            lemma_small_mod(result_before as nat, DH_PRIME as nat);
            assert(result as int == factor % m);
            lemma_power_reduced_base(square_before * square_before, half);
            lemma_mul_mod_noop(factor % m, pow(square as int, half), m);
            lemma_mul_mod_noop(factor, pow(square_before * square_before, half), m);
            lemma_mod_twice(factor, m);
        }
        rest = rest >> 1;
    }
    proof {
        reveal(pow);
        lemma_small_mod(result as nat, DH_PRIME as nat);
    }
    result
}

/// One step of square and multiply, before any reduction.
proof fn lemma_square_step(result: int, square: int, exponent: nat)
    requires
        exponent > 0,
    ensures
        result * pow(square, exponent) == (if exponent % 2 == 1 {
            result * square
        } else {
            result
        }) * pow(square * square, exponent / 2),
{
    let half = exponent / 2;
    lemma_pow_multiplies(square, 2, half);
    lemma_square_is_pow2(square);
    reveal(pow);
    if exponent % 2 == 1 {
        assert(exponent == 2 * half + 1);
        assert(pow(square, exponent) == square * pow(square, 2 * half));
        lemma_mul_is_associative(result, square, pow(square, 2 * half));
    } else {
        assert(exponent == 2 * half);
    }
}

/// A number times itself is its second power.
proof fn lemma_square_is_pow2(value: int)
    ensures
        pow(value, 2) == value * value,
{
    reveal_with_fuel(pow, 3);
}

/// Raising to one exponent and then to another does not depend on their order: the two ends of a
/// key exchange reach the same number.
pub proof fn law_exchange_commutes(base: nat, first: nat, second: nat)
    ensures
        power(power(base, first), second) == power(power(base, second), first),
{
    lemma_power_reduced_base(pow(base as int, first), second);
    lemma_power_reduced_base(pow(base as int, second), first);
    lemma_pow_multiplies(base as int, first, second);
    lemma_pow_multiplies(base as int, second, first);
    assert(first * second == second * first) by (nonlinear_arith);
}

/// No power of the generator is a multiple of the prime.
pub proof fn law_generator_power_nonzero(exponent: nat)
    ensures
        power(DH_GENERATOR as nat, exponent) != 0,
    decreases exponent,
{
    reveal(pow);
    if exponent > 0 {
        let below = (exponent - 1) as nat;
        law_generator_power_nonzero(below);
        let m = DH_PRIME as int;
        let prior = pow(5, below);
        lemma_mul_mod_noop_right(5, prior, m);
        let small = prior % m;
        assert(0 < small < m);
        assert((5 * small) % m != 0);
    }
}

/// The public number of a private one.
pub fn dh_public(private: u128) -> (public: u128)
    ensures
        public == power(DH_GENERATOR as nat, private as nat),
{
    mod_pow(DH_GENERATOR, private)
}

/// The number that the holder of `private` shares with the holder of `public`'s private number.
pub fn dh_shared(public: u128, private: u128) -> (shared: u128)
    ensures
        shared == power(public as nat, private as nat),
{
    mod_pow(public, private)
}

/// The modulus is 2^127 - 1 and the base is 5: what is reduced differs from the number by a multiple
/// of the modulus, and a power is the repeated product.
pub proof fn law_arithmetic_is_modulo_the_mersenne_prime(value: int, base: nat, exponent: nat)
    ensures
        reduced(value) == value % 0x7fff_ffff_ffff_ffff_ffff_ffff_ffff_ffff,
        power(base, 0) == 1,
        power(base, exponent + 1) == (base * power(base, exponent))
            % 0x7fff_ffff_ffff_ffff_ffff_ffff_ffff_ffff,
        DH_GENERATOR == 5,
{
    reveal(pow);
    let m = DH_PRIME as int;
    assert(pow(base as int, exponent + 1) == base * pow(base as int, exponent));
    lemma_mul_mod_noop_right(base as int, pow(base as int, exponent), m);
}

} // verus!
