//! The linear congruential generator and its historical presets.
//!
//! The state advances by `state' = (multiplier * state + increment) mod modulus`.
//! The product is formed in 128 bits, so no parameter set can overflow it.

use vstd::prelude::*;
use vstd::arithmetic::power2::pow2;
use vstd::std_specs::convert::TryFromSpec;
use crate::error::ConfigError;

verus! {

/// The parameters of a generator together with its seed.
#[derive(Debug, Clone, Copy, PartialEq, Eq)]
pub struct Config {
    pub modulus: u64,
    pub multiplier: u64,
    pub increment: u64,
    pub seed: u32,
    /// Where present, the output is the bits from the first number up to, but
    /// not including, the second.
    pub output_bits: Option<(u8, u8)>,
}

impl Config {
    /// The first rule that the configuration breaks, in the order in which
    /// the rules are checked, or `None` where it breaks none.
    pub open spec fn violation(&self) -> Option<ConfigError> {
        if self.multiplier >= self.modulus {
            Some(ConfigError::MultiplierNotBelowModulus)
        } else if self.increment >= self.modulus {
            Some(ConfigError::IncrementNotBelowModulus)
        } else if self.seed >= self.modulus {
            Some(ConfigError::SeedNotBelowModulus)
        } else {
            match self.output_bits {
                Some((start, end)) => if start >= end {
                    Some(ConfigError::OutputBitsEmpty)
                } else if start > 63 {
                    Some(ConfigError::OutputBitsOutOfRange)
                } else {
                    None
                },
                None => None,
            }
        }
    }

    /// Every rule holds: multiplier, increment and seed are below the
    /// modulus, and a bit range, where there is one, is not empty and starts
    /// at bit 63 or below.
    pub open spec fn is_valid(&self) -> bool {
        &&& self.multiplier < self.modulus
        &&& self.increment < self.modulus
        &&& self.seed < self.modulus
        &&& match self.output_bits {
            Some((start, end)) => start < end && start <= 63,
            None => true,
        }
    }

    /// Checks the configuration against every rule and reports the first one
    /// that it breaks.
    pub fn validate(&self) -> (r: Result<(), ConfigError>)
        ensures
            r.is_ok() <==> self.is_valid(),
            r == match self.violation() {
                Some(e) => Err::<(), ConfigError>(e),
                None => Ok::<(), ConfigError>(()),
            },
    {
        if self.multiplier >= self.modulus {
            return Err(ConfigError::MultiplierNotBelowModulus);
        } else if self.increment >= self.modulus {
            return Err(ConfigError::IncrementNotBelowModulus);
        } else if self.seed as u64 >= self.modulus {
            return Err(ConfigError::SeedNotBelowModulus);
        }
        match self.output_bits {
            Some(bits) => {
                if bits.0 >= bits.1 {
                    return Err(ConfigError::OutputBitsEmpty);
                } else if bits.0 > 63 {
                    return Err(ConfigError::OutputBitsOutOfRange);
                }
            },
            None => (),
        }
        Ok(())
    }
}

/// A named historical generator with its seed, or parameters of the caller's
/// own.
#[derive(Debug, Clone, Copy, PartialEq, Eq)]
pub enum LCGConfig {
    Custom(Config),
    Zx81(u32),
    Ranqd1(u32),
    Borland(u32),
    Glibc(u32),
    MinstdRand0(u32),
    MinstdRand(u32),
    Posix(u32),
    Randu(u32),
}

impl LCGConfig {
    /// The canonical parameters that the name stands for. This is a pure
    /// lookup: nothing is checked here.
    pub open spec fn canonical(self) -> Config {
        match self {
            LCGConfig::Custom(data) => data,
            LCGConfig::Zx81(seed) => Config {
                modulus: 65537,
                multiplier: 75,
                increment: 74,
                seed,
                output_bits: None,
            },
            LCGConfig::Ranqd1(seed) => Config {
                modulus: 4294967296,
                multiplier: 1664525,
                increment: 1013904223,
                seed,
                output_bits: None,
            },
            LCGConfig::Borland(seed) => Config {
                modulus: 2147483648,
                multiplier: 22695477,
                increment: 1,
                seed,
                output_bits: Some((16u8, 30u8)),
            },
            LCGConfig::Glibc(seed) => Config {
                modulus: 2147483648,
                multiplier: 1103515245,
                increment: 12345,
                seed,
                output_bits: Some((0u8, 30u8)),
            },
            LCGConfig::MinstdRand0(seed) => Config {
                modulus: 2147483647,
                multiplier: 16807,
                increment: 0,
                seed,
                output_bits: None,
            },
            LCGConfig::MinstdRand(seed) => Config {
                modulus: 2147483647,
                multiplier: 48271,
                increment: 0,
                seed,
                output_bits: None,
            },
            LCGConfig::Posix(seed) => Config {
                modulus: 281474976710656,
                multiplier: 25214903917,
                increment: 11,
                seed,
                output_bits: Some((16u8, 47u8)),
            },
            LCGConfig::Randu(seed) => Config {
                modulus: 2147483648,
                multiplier: 65539,
                increment: 0,
                seed,
                output_bits: None,
            },
        }
    }
}

impl LCGConfig {
    /// The seed that the preset carries.
    pub open spec fn seed(self) -> u32 {
        self.canonical().seed
    }

    /// Resolution is a function of the preset alone: the same preset always
    /// stands for the same parameters.
    pub proof fn lemma_resolution_is_stable(self, other: LCGConfig)
        requires
            self == other,
        ensures
            self.canonical() == other.canonical(),
            Config::try_from_spec(self) == Config::try_from_spec(other),
    {
    }

    /// Canonical parameters stand for themselves: handed back as custom
    /// parameters they resolve to what they are, and are accepted or refused
    /// as the preset was.
    pub proof fn lemma_resolution_is_idempotent(self)
        ensures
            LCGConfig::Custom(self.canonical()).canonical() == self.canonical(),
            Config::try_from_spec(LCGConfig::Custom(self.canonical())) == Config::try_from_spec(
                self,
            ),
    {
    }

    /// A named preset is refused for one reason only: a seed that is not
    /// below its modulus.
    pub proof fn lemma_named_preset_validity(self)
        requires
            !(self is Custom),
        ensures
            self.canonical().is_valid() <==> self.seed() < self.canonical().modulus,
            self.canonical().violation() == if self.seed() < self.canonical().modulus {
                None
            } else {
                Some(ConfigError::SeedNotBelowModulus)
            },
    {
    }
}

impl TryFrom<LCGConfig> for Config {
    type Error = ConfigError;

    /// Resolves a preset to its canonical parameters and validates them.
    fn try_from(item: LCGConfig) -> (r: Result<Config, ConfigError>)
        ensures
            r.is_ok() <==> item.canonical().is_valid(),
            r == match item.canonical().violation() {
                Some(e) => Err::<Config, ConfigError>(e),
                None => Ok::<Config, ConfigError>(item.canonical()),
            },
    {
        let config: Config = match item {
            LCGConfig::Custom(data) => data,
            LCGConfig::Zx81(seed) => Config {
                modulus: 65537,
                multiplier: 75,
                increment: 74,
                seed,
                output_bits: None,
            },
            LCGConfig::Ranqd1(seed) => Config {
                modulus: 4294967296,
                multiplier: 1664525,
                increment: 1013904223,
                seed,
                output_bits: None,
            },
            LCGConfig::Borland(seed) => Config {
                modulus: 2147483648,
                multiplier: 22695477,
                increment: 1,
                seed,
                output_bits: Some((16, 30)),
            },
            LCGConfig::Glibc(seed) => Config {
                modulus: 2147483648,
                multiplier: 1103515245,
                increment: 12345,
                seed,
                output_bits: Some((0, 30)),
            },
            LCGConfig::MinstdRand0(seed) => Config {
                modulus: 2147483647,
                multiplier: 16807,
                increment: 0,
                seed,
                output_bits: None,
            },
            LCGConfig::MinstdRand(seed) => Config {
                modulus: 2147483647,
                multiplier: 48271,
                increment: 0,
                seed,
                output_bits: None,
            },
            LCGConfig::Posix(seed) => Config {
                modulus: 281474976710656,
                multiplier: 25214903917,
                increment: 11,
                seed,
                output_bits: Some((16, 47)),
            },
            LCGConfig::Randu(seed) => Config {
                modulus: 2147483648,
                multiplier: 65539,
                increment: 0,
                seed,
                output_bits: None,
            },
        };
        match config.validate() {
            Err(err) => Err(err),
            Ok(()) => Ok(config),
        }
    }
}

impl vstd::std_specs::convert::TryFromSpecImpl<LCGConfig> for Config {
    open spec fn obeys_try_from_spec() -> bool {
        true
    }

    open spec fn try_from_spec(item: LCGConfig) -> Result<Config, ConfigError> {
        match item.canonical().violation() {
            Some(e) => Err(e),
            None => Ok(item.canonical()),
        }
    }
}

/// What a generator is, as mathematics: its three parameters, its current
/// state and the bit range of its output.
pub struct LcgModel {
    pub modulus: nat,
    pub multiplier: nat,
    pub increment: nat,
    pub state: nat,
    pub output_bits: Option<(nat, nat)>,
}

/// The bits of `value` from `start` up to, but not including, `end`, read as
/// a number: everything from bit `end` upwards is masked away, and what is
/// left is shifted down by `start`.
pub open spec fn select_bits(value: nat, start: nat, end: nat) -> nat {
    (value % pow2(end)) / pow2(start)
}

/// The end of a bit range does not belong to it: a range from `start` to
/// `end` holds `end - start` bits, so what it selects is below
/// `2^(end - start)`.
pub proof fn lemma_select_bits_bound(value: nat, start: nat, end: nat)
    requires
        start < end,
    ensures
        select_bits(value, start, end) < pow2((end - start) as nat),
{
    let low = pow2(start);
    let width = pow2((end - start) as nat);
    vstd::arithmetic::power2::lemma_pow2_pos(start);
    vstd::arithmetic::power2::lemma_pow2_pos(end);
    vstd::arithmetic::power2::lemma_pow2_adds(start, (end - start) as nat);
    vstd::arithmetic::div_mod::lemma_mod_bound(value as int, pow2(end) as int);
    vstd::arithmetic::div_mod::lemma_div_by_multiple_is_strongly_ordered(
        (value % pow2(end)) as int,
        (low * width) as int,
        width as int,
        low as int,
    );
    vstd::arithmetic::div_mod::lemma_div_by_multiple(width as int, low as int);
}

impl LcgModel {
    /// The model of a generator freshly built from `config`.
    pub open spec fn from_config(config: Config) -> LcgModel {
        LcgModel {
            modulus: config.modulus as nat,
            multiplier: config.multiplier as nat,
            increment: config.increment as nat,
            state: config.seed as nat,
            output_bits: match config.output_bits {
                Some((start, end)) => Some((start as nat, end as nat)),
                None => None,
            },
        }
    }

    /// The rules that hold of every generator, at every step.
    pub open spec fn is_valid(self) -> bool {
        &&& self.modulus <= u64::MAX
        &&& self.multiplier < self.modulus
        &&& self.increment < self.modulus
        &&& self.state < self.modulus
        &&& match self.output_bits {
            Some((start, end)) => start < end && start <= 63 && end <= u8::MAX,
            None => true,
        }
    }

    /// The generator after one transition.
    pub open spec fn step(self) -> LcgModel {
        LcgModel {
            state: (self.multiplier * self.state + self.increment) % self.modulus,
            ..self
        }
    }

    /// The generator after `n` transitions.
    pub open spec fn run(self, n: nat) -> LcgModel
        decreases n,
    {
        if n == 0 {
            self
        } else {
            self.run((n - 1) as nat).step()
        }
    }

    /// What the generator hands out for its current state: the selected bit
    /// field, or the whole state where none is selected; of either, the low
    /// 32 bits.
    pub open spec fn output(self) -> nat {
        let field = match self.output_bits {
            Some((start, end)) => select_bits(self.state, start, end),
            None => self.state,
        };
        field % 0x1_0000_0000
    }

    /// The first `n` outputs: those of the states after one, two, ... `n`
    /// transitions.
    pub open spec fn outputs(self, n: nat) -> Seq<nat> {
        Seq::new(n, |i: int| self.run((i + 1) as nat).output())
    }

    /// A valid configuration makes a valid generator.
    pub proof fn lemma_valid_config_is_valid_model(config: Config)
        requires
            config.is_valid(),
        ensures
            LcgModel::from_config(config).is_valid(),
    {
    }

    /// A transition keeps the state below the modulus and changes nothing
    /// else.
    pub proof fn lemma_step_preserves_validity(self)
        requires
            self.is_valid(),
        ensures
            self.step().is_valid(),
            self.step().modulus == self.modulus,
            self.step().multiplier == self.multiplier,
            self.step().increment == self.increment,
            self.step().output_bits == self.output_bits,
    {
        vstd::arithmetic::div_mod::lemma_mod_bound(
            (self.multiplier * self.state + self.increment) as int,
            self.modulus as int,
        );
    }

    /// Every output fits 32 bits. Where no bit range is selected and the
    /// modulus is at most 2^32, the output is the state itself.
    pub proof fn lemma_output_bound(self)
        requires
            self.is_valid(),
        ensures
            self.output() <= u32::MAX,
            self.output_bits is None && self.modulus <= 0x1_0000_0000 ==> self.output()
                == self.state,
    {
    }

    /// The same parameters and state give the same states and outputs,
    /// however long the generator runs.
    pub proof fn lemma_deterministic(self, other: LcgModel, n: nat)
        requires
            self == other,
        ensures
            self.run(n) == other.run(n),
            self.outputs(n) == other.outputs(n),
    {
    }
}

#[derive(Debug)]
pub struct LinearCongruentialGenerator {
    modulus: u64,
    multiplier: u64,
    increment: u64,
    state: u64,
    output_bits: Option<(u8, u8)>,
}

impl View for LinearCongruentialGenerator {
    type V = LcgModel;

    closed spec fn view(&self) -> LcgModel {
        LcgModel {
            modulus: self.modulus as nat,
            multiplier: self.multiplier as nat,
            increment: self.increment as nat,
            state: self.state as nat,
            output_bits: match self.output_bits {
                Some((start, end)) => Some((start as nat, end as nat)),
                None => None,
            },
        }
    }
}

impl LinearCongruentialGenerator {
    #[verifier::type_invariant]
    spec fn well_formed(&self) -> bool {
        self@.is_valid()
    }

    /// Builds a generator from a preset or from custom parameters. Nothing is
    /// built unless every rule of `Config::is_valid` holds.
    pub fn new(lcg_config: LCGConfig) -> (r: Result<LinearCongruentialGenerator, ConfigError>)
        ensures
            r.is_ok() <==> lcg_config.canonical().is_valid(),
            match lcg_config.canonical().violation() {
                Some(e) => r == Err::<LinearCongruentialGenerator, ConfigError>(e),
                None => r.is_ok() && r.unwrap()@ == LcgModel::from_config(lcg_config.canonical())
                    && r.unwrap()@.is_valid(),
            },
    {
        match Config::try_from(lcg_config) {
            Ok(config) => Ok(
                LinearCongruentialGenerator {
                    modulus: config.modulus,
                    multiplier: config.multiplier,
                    increment: config.increment,
                    state: config.seed as u64,
                    output_bits: config.output_bits,
                },
            ),
            Err(err) => Err(err),
        }
    }

    /// The current state, before any bit range is applied.
    pub fn state(&self) -> (s: u64)
        ensures
            s == self@.state,
    {
        self.state
    }

    /// Advances the generator and returns the output of its new state.
    pub fn next(&mut self) -> (out: u32)
        ensures
            final(self)@ == old(self)@.step(),
            final(self)@.is_valid(),
            out == final(self)@.output(),
    {
        proof {
            use_type_invariant(&*self);
        }
        let wide: u128 = wide_product(self.multiplier, self.state, self.increment);
        let next_state: u64 = (wide % (self.modulus as u128)) as u64;
        self.state = next_state;
        match self.output_bits {
            Some((start, end)) => {
                let clipped: u64 = low_bits(next_state, end);
                proof {
                    vstd::bits::lemma_u64_shr_is_div(clipped, start as u64);
                }
                let field: u64 = clipped >> (start as u64);
                low_word(field)
            },
            None => low_word(next_state),
        }
    }
}

/// `multiplier * state + increment`, formed in 128 bits.
fn wide_product(multiplier: u64, state: u64, increment: u64) -> (r: u128)
    ensures
        r == multiplier * state + increment,
{
    assert(multiplier * state <= 0xffff_ffff_ffff_ffff * 0xffff_ffff_ffff_ffff) by (nonlinear_arith)
        requires
            multiplier <= 0xffff_ffff_ffff_ffff,
            state <= 0xffff_ffff_ffff_ffff,
    ;
    (multiplier as u128) * (state as u128) + (increment as u128)
}

/// The bits of `value` below bit `end`.
fn low_bits(value: u64, end: u8) -> (r: u64)
    requires
        end >= 1,
    ensures
        r == value as nat % pow2(end as nat),
{
    if end >= 64 {
        proof {
            vstd::arithmetic::power2::lemma2_to64_rest();
            if end > 64 {
                vstd::arithmetic::power2::lemma_pow2_strictly_increases(64, end as nat);
            }
            vstd::arithmetic::div_mod::lemma_small_mod(value as nat, pow2(end as nat));
        }
        value
    } else {
        let shift: u64 = (64 - end) as u64;
        let wide_end: u64 = end as u64;
        let mask: u64 = u64::MAX >> shift;
        proof {
            assert((0xffff_ffff_ffff_ffffu64 >> shift) + 1 == (1u64 << wide_end)) by (bit_vector)
                requires
                    1 <= wide_end < 64,
                    shift == 64 - wide_end,
            ;
            vstd::bits::lemma_u64_pow2_no_overflow(wide_end as nat);
            vstd::bits::lemma_u64_shl_is_mul(1u64, wide_end);
            vstd::bits::lemma_u64_low_bits_mask_is_mod(value, wide_end as nat);
        }
        value & mask
    }
}

/// The low 32 bits of `value`.
fn low_word(value: u64) -> (r: u32)
    ensures
        r == value as nat % 0x1_0000_0000,
{
    assert((value & 0xffff_ffffu64) == value % 0x1_0000_0000u64) by (bit_vector);
    (value & 0xffff_ffffu64) as u32
}

} // verus!
