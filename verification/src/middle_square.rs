//! The middle-square method of von Neumann, on 32-bit seeds.
//!
//! The seed is squared, the square is written in base ten, and the digits in
//! its middle become the next seed, which is also the output. The method is
//! stated here once, for every width of seed; `middle_square_wide` runs it on
//! 64-bit seeds.

use vstd::prelude::*;
use crate::decimal::{
    dropped_digits,
    lemma_middle_digits_arithmetic,
    lemma_pow10_increases,
    lemma_pow10_positive,
    lemma_pow10_values,
    lemma_quotient_remainder,
    middle_digits,
    middle_digits_of,
    pow10,
};

verus! {

/// What a generator is, as mathematics: its current seed and the number of
/// digits that it takes from the middle of the square.
pub struct MiddleSquareModel {
    pub seed: nat,
    pub digits: nat,
}

impl MiddleSquareModel {
    /// The generator after one transition: the new seed is the middle of the
    /// square of the old one.
    pub open spec fn step(self) -> MiddleSquareModel {
        MiddleSquareModel { seed: middle_digits_of(self.seed * self.seed, self.digits), ..self }
    }

    /// The generator after `n` transitions.
    pub open spec fn run(self, n: nat) -> MiddleSquareModel
        decreases n,
    {
        if n == 0 {
            self
        } else {
            self.run((n - 1) as nat).step()
        }
    }

    /// The first `n` outputs: the seeds after one, two, ... `n` transitions.
    pub open spec fn outputs(self, n: nat) -> Seq<nat> {
        Seq::new(n, |i: int| self.run((i + 1) as nat).seed)
    }

    /// The transition as arithmetic: the low digits of the square are
    /// divided away, and of the quotient the low `digits` digits are kept.
    pub proof fn lemma_step_arithmetic(self)
        ensures
            self.step().seed == (self.seed * self.seed / pow10(dropped_digits(self.digits))) % pow10(
                self.digits,
            ),
            self.step().seed < pow10(self.digits),
            self.step().digits == self.digits,
    {
        lemma_middle_digits_arithmetic(self.seed * self.seed, self.digits);
        lemma_pow10_positive(self.digits);
    }

    /// Zero is a fixed point: once the seed is zero, every later seed and
    /// output is zero.
    pub proof fn lemma_zero_stays_zero(self, n: nat)
        requires
            self.seed == 0,
        ensures
            self.run(n) == self,
        decreases n,
    {
        if n > 0 {
            self.lemma_zero_stays_zero((n - 1) as nat);
            self.lemma_step_arithmetic();
            lemma_pow10_positive(dropped_digits(self.digits));
            lemma_pow10_positive(self.digits);
            vstd::arithmetic::div_mod::lemma_basic_div(0, pow10(dropped_digits(self.digits)) as int);
            vstd::arithmetic::div_mod::lemma_small_mod(0, pow10(self.digits));
        }
    }

    /// An output of zero is final: where the generator hands out zero, it
    /// hands out zero ever after.
    pub proof fn lemma_zero_output_is_final(self, k: nat, n: nat)
        requires
            self.run(k).seed == 0,
            n >= k,
        ensures
            self.run(n).seed == 0,
        decreases n,
    {
        if n > k {
            self.lemma_zero_output_is_final(k, (n - 1) as nat);
            self.run((n - 1) as nat).lemma_zero_stays_zero(1);
        }
    }

    /// The same seed and digit count give the same seeds and outputs, however
    /// long the generator runs.
    pub proof fn lemma_deterministic(self, other: MiddleSquareModel, n: nat)
        requires
            self == other,
        ensures
            self.run(n) == other.run(n),
            self.outputs(n) == other.outputs(n),
    {
    }
}

/// The digit counts that a 32-bit generator accepts: those for which every
/// 32-bit seed has a successor of 32 bits. Up to nine digits the window itself
/// is small enough. From nineteen digits on so many low digits are dropped
/// that what is left of a square of 64 bits is small enough. In between, the
/// largest seed has a successor that does not fit.
pub open spec fn is_supported_digits(digits: nat) -> bool {
    digits <= 9 || digits >= 19
}

/// For a supported digit count the successor of a 32-bit seed fits 32 bits.
pub proof fn lemma_supported_digits_fit(model: MiddleSquareModel)
    requires
        model.seed <= u32::MAX,
        is_supported_digits(model.digits),
    ensures
        model.step().seed <= u32::MAX,
{
    let square = model.seed * model.seed;
    let dropped = dropped_digits(model.digits);
    model.lemma_step_arithmetic();
    lemma_pow10_positive(dropped);
    lemma_pow10_positive(model.digits);
    lemma_pow10_values();
    if model.digits <= 9 {
        lemma_pow10_increases(model.digits, 9);
    } else {
        assert(square <= 0xffff_ffff * 0xffff_ffff) by (nonlinear_arith)
            requires
                square == model.seed * model.seed,
                model.seed <= 0xffff_ffff,
        ;
        lemma_pow10_increases(10, dropped);
        vstd::arithmetic::div_mod::lemma_div_is_ordered_by_denominator(
            square as int,
            pow10(10) as int,
            pow10(dropped) as int,
        );
        vstd::arithmetic::div_mod::lemma_mod_decreases(square / pow10(dropped), pow10(model.digits));
    }
}

/// For every other digit count the largest seed has a successor that does not
/// fit 32 bits: the supported digit counts are all there are.
pub proof fn lemma_unsupported_digits_overflow(digits: nat)
    requires
        !is_supported_digits(digits),
    ensures
        (MiddleSquareModel { seed: u32::MAX as nat, digits }).step().seed > u32::MAX,
{
    let model = MiddleSquareModel { seed: u32::MAX as nat, digits };
    let square: nat = 18446744065119617025;
    model.lemma_step_arithmetic();
    assert(model.seed * model.seed == square) by (nonlinear_arith)
        requires
            model.seed == 4294967295,
            square == 18446744065119617025,
    ;
    lemma_pow10_values();
    if digits == 10 {
        lemma_quotient_remainder(
            square,
            100000,
            10000000000,
            184467440651196,
            17025,
            18446,
            7440651196,
        );
    } else if digits == 11 {
        lemma_quotient_remainder(
            square,
            1000000,
            100000000000,
            18446744065119,
            617025,
            184,
            46744065119,
        );
    } else if digits == 12 {
        lemma_quotient_remainder(
            square,
            1000000,
            1000000000000,
            18446744065119,
            617025,
            18,
            446744065119,
        );
    } else if digits == 13 {
        lemma_quotient_remainder(
            square,
            10000000,
            10000000000000,
            1844674406511,
            9617025,
            0,
            1844674406511,
        );
    } else if digits == 14 {
        lemma_quotient_remainder(
            square,
            10000000,
            100000000000000,
            1844674406511,
            9617025,
            0,
            1844674406511,
        );
    } else if digits == 15 {
        lemma_quotient_remainder(
            square,
            100000000,
            1000000000000000,
            184467440651,
            19617025,
            0,
            184467440651,
        );
    } else if digits == 16 {
        lemma_quotient_remainder(
            square,
            100000000,
            10000000000000000,
            184467440651,
            19617025,
            0,
            184467440651,
        );
    } else if digits == 17 {
        lemma_quotient_remainder(
            square,
            1000000000,
            100000000000000000,
            18446744065,
            119617025,
            0,
            18446744065,
        );
    } else if digits == 18 {
        lemma_quotient_remainder(
            square,
            1000000000,
            1000000000000000000,
            18446744065,
            119617025,
            0,
            18446744065,
        );
    }
}

#[derive(Debug)]
pub struct MiddleSquareGenerator {
    seed: u32,
    digits: usize,
}

impl View for MiddleSquareGenerator {
    type V = MiddleSquareModel;

    closed spec fn view(&self) -> MiddleSquareModel {
        MiddleSquareModel { seed: self.seed as nat, digits: self.digits as nat }
    }
}

impl MiddleSquareGenerator {
    #[verifier::type_invariant]
    spec fn well_formed(&self) -> bool {
        is_supported_digits(self.digits as nat)
    }

    /// Whether a generator can be built with this digit count.
    pub fn supports(digits: usize) -> (r: bool)
        ensures
            r == is_supported_digits(digits as nat),
    {
        digits <= 9 || digits >= 19
    }

    /// Builds a generator that starts at `seed` and takes `digits` digits
    /// from the middle of each square.
    pub fn new(seed: u32, digits: usize) -> (g: MiddleSquareGenerator)
        requires
            is_supported_digits(digits as nat),
        ensures
            g@ == (MiddleSquareModel { seed: seed as nat, digits: digits as nat }),
    {
        MiddleSquareGenerator { seed, digits }
    }

    /// Advances the generator and returns its new seed.
    pub fn next(&mut self) -> (out: u32)
        ensures
            final(self)@ == old(self)@.step(),
            out == final(self)@.seed,
    {
        proof {
            use_type_invariant(&*self);
            assert(self.seed * self.seed <= 0xffff_ffff * 0xffff_ffff) by (nonlinear_arith)
                requires
                    self.seed <= 0xffff_ffff,
            ;
            lemma_supported_digits_fit(self@);
        }
        let square: u128 = (self.seed as u128) * (self.seed as u128);
        let middle: u128 = middle_digits(square, self.digits);
        self.seed = middle as u32;
        self.seed
    }
}

} // verus!
