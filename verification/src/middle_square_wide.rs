//! The middle-square method on 64-bit seeds.
//!
//! The method and its laws are those of `middle_square`; only the width of
//! the seed differs, and with it the largest digit count.

use vstd::prelude::*;
use crate::decimal::{
    dropped_digits,
    lemma_pow10_increases,
    lemma_pow10_positive,
    lemma_pow10_values,
    lemma_quotient_remainder,
    middle_digits,
    pow10,
};
use crate::middle_square::MiddleSquareModel;

verus! {

/// The digit counts that a 64-bit generator accepts: those for which every
/// 64-bit seed has a successor of 64 bits. Up to nineteen digits the window
/// itself is small enough. From thirty-nine digits on so many low digits are
/// dropped that what is left of a square of 128 bits is small enough. In
/// between, the largest seed has a successor that does not fit.
pub open spec fn is_supported_digits(digits: nat) -> bool {
    digits <= 19 || digits >= 39
}

/// For a supported digit count the successor of a 64-bit seed fits 64 bits.
pub proof fn lemma_supported_digits_fit(model: MiddleSquareModel)
    requires
        model.seed <= u64::MAX,
        is_supported_digits(model.digits),
    ensures
        model.step().seed <= u64::MAX,
{
    let square = model.seed * model.seed;
    let dropped = dropped_digits(model.digits);
    model.lemma_step_arithmetic();
    lemma_pow10_positive(dropped);
    lemma_pow10_positive(model.digits);
    lemma_pow10_values();
    if model.digits <= 19 {
        lemma_pow10_increases(model.digits, 19);
    } else {
        assert(square <= 0xffff_ffff_ffff_ffff * 0xffff_ffff_ffff_ffff) by (nonlinear_arith)
            requires
                square == model.seed * model.seed,
                model.seed <= 0xffff_ffff_ffff_ffff,
        ;
        lemma_pow10_increases(20, dropped);
        vstd::arithmetic::div_mod::lemma_div_is_ordered_by_denominator(
            square as int,
            pow10(20) as int,
            pow10(dropped) as int,
        );
        vstd::arithmetic::div_mod::lemma_mod_decreases(square / pow10(dropped), pow10(model.digits));
    }
}

/// For every other digit count the largest seed has a successor that does not
/// fit 64 bits: the supported digit counts are all there are.
pub proof fn lemma_unsupported_digits_overflow(digits: nat)
    requires
        !is_supported_digits(digits),
    ensures
        (MiddleSquareModel { seed: u64::MAX as nat, digits }).step().seed > u64::MAX,
{
    let model = MiddleSquareModel { seed: u64::MAX as nat, digits };
    let square: nat = 340282366920938463426481119284349108225;
    model.lemma_step_arithmetic();
    assert(model.seed * model.seed == square) by (nonlinear_arith)
        requires
            model.seed == 18446744073709551615,
            square == 340282366920938463426481119284349108225,
    ;
    lemma_pow10_values();
    if digits == 20 {
        lemma_quotient_remainder(
            square,
            10000000000,
            100000000000000000000,
            34028236692093846342648111928,
            4349108225,
            340282366,
            92093846342648111928,
        );
    } else if digits == 21 {
        lemma_quotient_remainder(
            square,
            100000000000,
            1000000000000000000000,
            3402823669209384634264811192,
            84349108225,
            3402823,
            669209384634264811192,
        );
    } else if digits == 22 {
        lemma_quotient_remainder(
            square,
            100000000000,
            10000000000000000000000,
            3402823669209384634264811192,
            84349108225,
            340282,
            3669209384634264811192,
        );
    } else if digits == 23 {
        lemma_quotient_remainder(
            square,
            1000000000000,
            100000000000000000000000,
            340282366920938463426481119,
            284349108225,
            3402,
            82366920938463426481119,
        );
    } else if digits == 24 {
        lemma_quotient_remainder(
            square,
            1000000000000,
            1000000000000000000000000,
            340282366920938463426481119,
            284349108225,
            340,
            282366920938463426481119,
        );
    } else if digits == 25 {
        lemma_quotient_remainder(
            square,
            10000000000000,
            10000000000000000000000000,
            34028236692093846342648111,
            9284349108225,
            3,
            4028236692093846342648111,
        );
    } else if digits == 26 {
        lemma_quotient_remainder(
            square,
            10000000000000,
            100000000000000000000000000,
            34028236692093846342648111,
            9284349108225,
            0,
            34028236692093846342648111,
        );
    } else if digits == 27 {
        lemma_quotient_remainder(
            square,
            100000000000000,
            1000000000000000000000000000,
            3402823669209384634264811,
            19284349108225,
            0,
            3402823669209384634264811,
        );
    } else if digits == 28 {
        lemma_quotient_remainder(
            square,
            100000000000000,
            10000000000000000000000000000,
            3402823669209384634264811,
            19284349108225,
            0,
            3402823669209384634264811,
        );
    } else if digits == 29 {
        lemma_quotient_remainder(
            square,
            1000000000000000,
            100000000000000000000000000000,
            340282366920938463426481,
            119284349108225,
            0,
            340282366920938463426481,
        );
    } else if digits == 30 {
        lemma_quotient_remainder(
            square,
            1000000000000000,
            1000000000000000000000000000000,
            340282366920938463426481,
            119284349108225,
            0,
            340282366920938463426481,
        );
    } else if digits == 31 {
        lemma_quotient_remainder(
            square,
            10000000000000000,
            10000000000000000000000000000000,
            34028236692093846342648,
            1119284349108225,
            0,
            34028236692093846342648,
        );
    } else if digits == 32 {
        lemma_quotient_remainder(
            square,
            10000000000000000,
            100000000000000000000000000000000,
            34028236692093846342648,
            1119284349108225,
            0,
            34028236692093846342648,
        );
    } else if digits == 33 {
        lemma_quotient_remainder(
            square,
            100000000000000000,
            1000000000000000000000000000000000,
            3402823669209384634264,
            81119284349108225,
            0,
            3402823669209384634264,
        );
    } else if digits == 34 {
        lemma_quotient_remainder(
            square,
            100000000000000000,
            10000000000000000000000000000000000,
            3402823669209384634264,
            81119284349108225,
            0,
            3402823669209384634264,
        );
    } else if digits == 35 {
        lemma_quotient_remainder(
            square,
            1000000000000000000,
            100000000000000000000000000000000000,
            340282366920938463426,
            481119284349108225,
            0,
            340282366920938463426,
        );
    } else if digits == 36 {
        lemma_quotient_remainder(
            square,
            1000000000000000000,
            1000000000000000000000000000000000000,
            340282366920938463426,
            481119284349108225,
            0,
            340282366920938463426,
        );
    } else if digits == 37 {
        lemma_quotient_remainder(
            square,
            10000000000000000000,
            10000000000000000000000000000000000000,
            34028236692093846342,
            6481119284349108225,
            0,
            34028236692093846342,
        );
    } else if digits == 38 {
        lemma_quotient_remainder(
            square,
            10000000000000000000,
            100000000000000000000000000000000000000,
            34028236692093846342,
            6481119284349108225,
            0,
            34028236692093846342,
        );
    }
}

#[derive(Debug)]
pub struct MiddleSquareGenerator {
    seed: u64,
    digits: usize,
}

impl View for MiddleSquareGenerator {
    type V = MiddleSquareModel;

    closed spec fn view(&self) -> MiddleSquareModel {
        MiddleSquareModel { seed: self.seed as nat, digits: self.digits as nat }
    }
}

impl MiddleSquareGenerator {
    #[verifier::type_invariant]
    spec fn well_formed(&self) -> bool {
        is_supported_digits(self.digits as nat)
    }

    /// Whether a generator can be built with this digit count.
    pub fn supports(digits: usize) -> (r: bool)
        ensures
            r == is_supported_digits(digits as nat),
    {
        digits <= 19 || digits >= 39
    }

    /// Builds a generator that starts at `seed` and takes `digits` digits
    /// from the middle of each square.
    pub fn new(seed: u64, digits: usize) -> (g: MiddleSquareGenerator)
        requires
            is_supported_digits(digits as nat),
        ensures
            g@ == (MiddleSquareModel { seed: seed as nat, digits: digits as nat }),
    {
        MiddleSquareGenerator { seed, digits }
    }

    /// Advances the generator and returns its new seed.
    pub fn next(&mut self) -> (out: u64)
        ensures
            final(self)@ == old(self)@.step(),
            out == final(self)@.seed,
    {
        proof {
            use_type_invariant(&*self);
            assert(self.seed * self.seed <= 0xffff_ffff_ffff_ffff * 0xffff_ffff_ffff_ffff)
                by (nonlinear_arith)
                requires
                    self.seed <= 0xffff_ffff_ffff_ffff,
            ;
            lemma_supported_digits_fit(self@);
        }
        let square: u128 = (self.seed as u128) * (self.seed as u128);
        let middle: u128 = middle_digits(square, self.digits);
        self.seed = middle as u64;
        self.seed
    }
}

} // verus!
