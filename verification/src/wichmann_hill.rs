//! The Wichmann-Hill generator, in exact arithmetic.
//!
//! Three small multiplicative generators run side by side. The output is the
//! fractional part of `s0/30269 + s1/30307 + s2/30323`, taken before the
//! registers advance. That fraction has the denominator
//! `30269 * 30307 * 30323` whatever the registers hold, so the generator
//! hands out its numerator: a caller that wants a floating-point number
//! divides by `OUTPUT_DENOMINATOR`, or forms the sum from `registers`.

use vstd::prelude::*;
use crate::error::ConfigError;

verus! {

/// The moduli of the three registers.
pub const MODULUS_0: u32 = 30269;

pub const MODULUS_1: u32 = 30307;

pub const MODULUS_2: u32 = 30323;

/// The multipliers of the three registers.
pub const MULTIPLIER_0: u32 = 171;

pub const MULTIPLIER_1: u32 = 172;

pub const MULTIPLIER_2: u32 = 170;

/// The smallest and the largest seed that a register accepts.
pub const MIN_SEED: i32 = 1;

pub const MAX_SEED: i32 = 30000;

/// The denominator of every output: the product of the three moduli.
pub const OUTPUT_DENOMINATOR: u64 = 27817185604309;

/// The weight of each register in the numerator of the output: the product
/// of the other two moduli.
pub const WEIGHT_0: u64 = 918999161;

pub const WEIGHT_1: u64 = 917846887;

pub const WEIGHT_2: u64 = 917362583;

/// A seed that a register accepts.
pub open spec fn is_valid_seed(seed: int) -> bool {
    MIN_SEED <= seed <= MAX_SEED
}

/// What a generator is, as mathematics: the content of its three registers.
pub struct WichmannHillModel {
    pub s0: nat,
    pub s1: nat,
    pub s2: nat,
}

impl WichmannHillModel {
    /// The rule that holds of every generator, at every step: each register
    /// is below its modulus.
    pub open spec fn is_valid(self) -> bool {
        &&& self.s0 < MODULUS_0
        &&& self.s1 < MODULUS_1
        &&& self.s2 < MODULUS_2
    }

    /// The generator after one transition: each register is multiplied and
    /// reduced on its own.
    pub open spec fn step(self) -> WichmannHillModel {
        WichmannHillModel {
            s0: (MULTIPLIER_0 as nat * self.s0) % (MODULUS_0 as nat),
            s1: (MULTIPLIER_1 as nat * self.s1) % (MODULUS_1 as nat),
            s2: (MULTIPLIER_2 as nat * self.s2) % (MODULUS_2 as nat),
        }
    }

    /// The generator after `n` transitions.
    pub open spec fn run(self, n: nat) -> WichmannHillModel
        decreases n,
    {
        if n == 0 {
            self
        } else {
            self.run((n - 1) as nat).step()
        }
    }

    /// The sum `s0/30269 + s1/30307 + s2/30323` over the common denominator:
    /// its numerator, before the whole part is taken away.
    pub open spec fn weighted_sum(self) -> nat {
        self.s0 * WEIGHT_0 as nat + self.s1 * WEIGHT_1 as nat + self.s2 * WEIGHT_2 as nat
    }

    /// The numerator of the output: the fractional part of the sum, over
    /// `OUTPUT_DENOMINATOR`.
    pub open spec fn output_numerator(self) -> nat {
        self.weighted_sum() % (OUTPUT_DENOMINATOR as nat)
    }

    /// The first `n` outputs, as numerators. Each is taken before its
    /// transition.
    pub open spec fn outputs(self, n: nat) -> Seq<nat> {
        Seq::new(n, |i: int| self.run(i as nat).output_numerator())
    }

    /// The weights are the products of the other two moduli, and the
    /// denominator is the product of all three: each term of the weighted
    /// sum over the denominator is one register over its own modulus.
    pub proof fn lemma_common_denominator()
        ensures
            WEIGHT_0 == MODULUS_1 * MODULUS_2,
            WEIGHT_1 == MODULUS_0 * MODULUS_2,
            WEIGHT_2 == MODULUS_0 * MODULUS_1,
            OUTPUT_DENOMINATOR == MODULUS_0 * WEIGHT_0,
            OUTPUT_DENOMINATOR == MODULUS_1 * WEIGHT_1,
            OUTPUT_DENOMINATOR == MODULUS_2 * WEIGHT_2,
    {
    }

    /// The output is a fraction of one: its numerator is below the
    /// denominator, and differs from the weighted sum by whole multiples of
    /// the denominator only, of which there are at most two.
    pub proof fn lemma_output_is_fraction(self)
        requires
            self.is_valid(),
        ensures
            self.output_numerator() < OUTPUT_DENOMINATOR,
            self.weighted_sum() == self.output_numerator() + (self.weighted_sum() / (
            OUTPUT_DENOMINATOR as nat)) * OUTPUT_DENOMINATOR,
            self.weighted_sum() / (OUTPUT_DENOMINATOR as nat) <= 2,
    {
        vstd::arithmetic::div_mod::lemma_fundamental_div_mod(
            self.weighted_sum() as int,
            OUTPUT_DENOMINATOR as int,
        );
    }

    /// A transition keeps every register below its modulus.
    pub proof fn lemma_step_preserves_validity(self)
        ensures
            self.step().is_valid(),
    {
    }

    /// The same registers give the same states and outputs, however long the
    /// generator runs.
    pub proof fn lemma_deterministic(self, other: WichmannHillModel, n: nat)
        requires
            self == other,
        ensures
            self.run(n) == other.run(n),
            self.outputs(n) == other.outputs(n),
    {
    }
}

#[derive(Debug)]
pub struct WichmannHillGenerator {
    seed0: u32,
    seed1: u32,
    seed2: u32,
}

impl View for WichmannHillGenerator {
    type V = WichmannHillModel;

    closed spec fn view(&self) -> WichmannHillModel {
        WichmannHillModel { s0: self.seed0 as nat, s1: self.seed1 as nat, s2: self.seed2 as nat }
    }
}

/// Whether `seed` lies in the range that a register accepts.
pub fn is_valid_wichmann_seed(seed: i32) -> (r: bool)
    ensures
        r == is_valid_seed(seed as int),
{
    seed >= MIN_SEED && seed <= MAX_SEED
}

impl WichmannHillGenerator {
    #[verifier::type_invariant]
    spec fn well_formed(&self) -> bool {
        self@.is_valid()
    }

    /// Builds a generator from three seeds. Nothing is built unless each of
    /// them lies in 1 to 30000.
    pub fn new(seed0: i32, seed1: i32, seed2: i32) -> (r: Result<WichmannHillGenerator, ConfigError>)
        ensures
            r.is_ok() <==> is_valid_seed(seed0 as int) && is_valid_seed(seed1 as int)
                && is_valid_seed(seed2 as int),
            r.is_err() ==> r == Err::<WichmannHillGenerator, ConfigError>(ConfigError::SeedOutOfRange),
            r.is_ok() ==> r.unwrap()@ == (WichmannHillModel {
                s0: seed0 as nat,
                s1: seed1 as nat,
                s2: seed2 as nat,
            }),
    {
        if !is_valid_wichmann_seed(seed0) || !is_valid_wichmann_seed(seed1)
            || !is_valid_wichmann_seed(seed2) {
            return Err(ConfigError::SeedOutOfRange);
        }
        Ok(WichmannHillGenerator { seed0: seed0 as u32, seed1: seed1 as u32, seed2: seed2 as u32 })
    }

    /// The content of the three registers.
    pub fn registers(&self) -> (r: (u32, u32, u32))
        ensures
            r.0 == self@.s0,
            r.1 == self@.s1,
            r.2 == self@.s2,
            self@.is_valid(),
    {
        proof {
            use_type_invariant(self);
        }
        (self.seed0, self.seed1, self.seed2)
    }

    /// Returns the numerator of the output of the current registers, over
    /// `OUTPUT_DENOMINATOR`, and then advances the generator.
    pub fn next(&mut self) -> (out: u64)
        ensures
            out == old(self)@.output_numerator(),
            out < OUTPUT_DENOMINATOR,
            final(self)@ == old(self)@.step(),
            final(self)@.is_valid(),
    {
        proof {
            use_type_invariant(&*self);
        }
        let sum: u64 = (self.seed0 as u64) * WEIGHT_0 + (self.seed1 as u64) * WEIGHT_1 + (
        self.seed2 as u64) * WEIGHT_2;
        let result: u64 = sum % OUTPUT_DENOMINATOR;
        self.seed0 = MULTIPLIER_0 * self.seed0 % MODULUS_0;
        self.seed1 = MULTIPLIER_1 * self.seed1 % MODULUS_1;
        self.seed2 = MULTIPLIER_2 * self.seed2 % MODULUS_2;
        result
    }
}

} // verus!
