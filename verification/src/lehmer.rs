//! The Lehmer generator: a congruential generator without increment.
//!
//! The state advances by `state' = (multiplier * state) mod modulus` and the
//! new state is the output. A modulus above 2^32 is refused at construction,
//! so that every state fits the 32-bit output and the product fits 64 bits.

use vstd::prelude::*;
use crate::error::ConfigError;
use crate::linear_congruential::LcgModel;

verus! {

/// The "minimal standard" generator of Park and Miller.
#[derive(Debug, Clone, Copy, PartialEq, Eq, Structural)]
pub struct MINSTDConfig {
    pub seed: u32,
}

/// The generator of the Sinclair ZX81.
#[derive(Debug, Clone, Copy, PartialEq, Eq, Structural)]
pub struct ZX81Config {
    pub seed: u32,
}

/// IBM's RANDU.
#[derive(Debug, Clone, Copy, PartialEq, Eq, Structural)]
pub struct RANDUConfig {
    pub seed: u32,
}

/// The parameters of a generator together with its seed.
#[derive(Debug, Clone, Copy, PartialEq, Eq, Structural)]
pub struct BaseConfig {
    pub modulus: u64,
    pub multiplier: u64,
    pub seed: u32,
}

/// A named historical generator with its seed, or parameters of the caller's
/// own.
#[derive(Debug, Clone, Copy, PartialEq, Eq, Structural)]
pub enum Config {
    MINSTDConfig(MINSTDConfig),
    ZX81Config(ZX81Config),
    RANDUConfig(RANDUConfig),
    CustomConfig(BaseConfig),
}

/// The largest modulus that a generator accepts: 2^32.
pub const MAX_MODULUS: u64 = 0x1_0000_0000;

impl Config {
    /// The canonical parameters that the name stands for. This is a pure
    /// lookup: nothing is checked here.
    pub open spec fn canonical(self) -> BaseConfig {
        match self {
            Config::MINSTDConfig(data) => BaseConfig {
                multiplier: 16807,
                modulus: 2147483647,
                seed: data.seed,
            },
            Config::ZX81Config(data) => BaseConfig { multiplier: 75, modulus: 65537, seed: data.seed },
            Config::RANDUConfig(data) => BaseConfig {
                multiplier: 65539,
                modulus: 2147483648,
                seed: data.seed,
            },
            Config::CustomConfig(data) => data,
        }
    }
}

impl Config {
    /// The seed that the preset carries.
    pub open spec fn seed(self) -> u32 {
        self.canonical().seed
    }

    /// Resolution is a function of the preset alone: the same preset always
    /// stands for the same parameters.
    pub proof fn lemma_resolution_is_stable(self, other: Config)
        requires
            self == other,
        ensures
            self.canonical() == other.canonical(),
    {
    }

    /// Canonical parameters stand for themselves: handed back as custom
    /// parameters they resolve to what they are.
    pub proof fn lemma_resolution_is_idempotent(self)
        ensures
            Config::CustomConfig(self.canonical()).canonical() == self.canonical(),
    {
    }

    /// A named preset is refused for one reason only: a seed that is not
    /// below its modulus.
    pub proof fn lemma_named_preset_validity(self)
        requires
            !(self is CustomConfig),
        ensures
            self.canonical().is_valid() <==> self.seed() < self.canonical().modulus,
            self.canonical().violation() == if self.seed() < self.canonical().modulus {
                None
            } else {
                Some(ConfigError::SeedNotBelowModulus)
            },
    {
    }
}

impl From<Config> for BaseConfig {
    /// Resolves a preset to its canonical parameters.
    fn from(item: Config) -> (r: BaseConfig)
        ensures
            r == item.canonical(),
    {
        match item {
            Config::MINSTDConfig(data) => BaseConfig {
                multiplier: 16807,
                modulus: 2147483647,
                seed: data.seed,
            },
            Config::ZX81Config(data) => BaseConfig { multiplier: 75, modulus: 65537, seed: data.seed },
            Config::RANDUConfig(data) => BaseConfig {
                multiplier: 65539,
                modulus: 2147483648,
                seed: data.seed,
            },
            Config::CustomConfig(data) => data,
        }
    }
}

impl vstd::std_specs::convert::FromSpecImpl<Config> for BaseConfig {
    open spec fn obeys_from_spec() -> bool {
        true
    }

    open spec fn from_spec(item: Config) -> BaseConfig {
        item.canonical()
    }
}

impl BaseConfig {
    /// The first rule that the configuration breaks, in the order in which
    /// the rules are checked, or `None` where it breaks none.
    pub open spec fn violation(&self) -> Option<ConfigError> {
        if self.multiplier >= self.modulus {
            Some(ConfigError::MultiplierNotBelowModulus)
        } else if self.seed >= self.modulus {
            Some(ConfigError::SeedNotBelowModulus)
        } else if self.modulus > MAX_MODULUS {
            Some(ConfigError::ModulusTooWide)
        } else {
            None
        }
    }

    /// Every rule holds: multiplier and seed are below the modulus, and the
    /// modulus is at most 2^32.
    pub open spec fn is_valid(&self) -> bool {
        &&& self.multiplier < self.modulus
        &&& self.seed < self.modulus
        &&& self.modulus <= MAX_MODULUS
    }

    /// Checks the configuration against every rule and reports the first one
    /// that it breaks.
    pub fn validate(&self) -> (r: Result<(), ConfigError>)
        ensures
            r.is_ok() <==> self.is_valid(),
            r == match self.violation() {
                Some(e) => Err::<(), ConfigError>(e),
                None => Ok::<(), ConfigError>(()),
            },
    {
        if self.multiplier >= self.modulus {
            Err(ConfigError::MultiplierNotBelowModulus)
        } else if self.seed as u64 >= self.modulus {
            Err(ConfigError::SeedNotBelowModulus)
        } else if self.modulus > MAX_MODULUS {
            Err(ConfigError::ModulusTooWide)
        } else {
            Ok(())
        }
    }
}

/// What a generator is, as mathematics: its two parameters and its current
/// state.
pub struct LehmerModel {
    pub modulus: nat,
    pub multiplier: nat,
    pub state: nat,
}

impl LehmerModel {
    /// The model of a generator freshly built from `config`.
    pub open spec fn from_config(config: BaseConfig) -> LehmerModel {
        LehmerModel {
            modulus: config.modulus as nat,
            multiplier: config.multiplier as nat,
            state: config.seed as nat,
        }
    }

    /// The rules that hold of every generator, at every step.
    pub open spec fn is_valid(self) -> bool {
        &&& self.multiplier < self.modulus
        &&& self.state < self.modulus
        &&& self.modulus <= MAX_MODULUS
    }

    /// The generator after one transition.
    pub open spec fn step(self) -> LehmerModel {
        LehmerModel { state: (self.multiplier * self.state) % self.modulus, ..self }
    }

    /// The generator after `n` transitions.
    pub open spec fn run(self, n: nat) -> LehmerModel
        decreases n,
    {
        if n == 0 {
            self
        } else {
            self.run((n - 1) as nat).step()
        }
    }

    /// The first `n` outputs: the states after one, two, ... `n`
    /// transitions.
    pub open spec fn outputs(self, n: nat) -> Seq<nat> {
        Seq::new(n, |i: int| self.run((i + 1) as nat).state)
    }

    /// The congruential generator with the same modulus, multiplier and
    /// state, no increment and no bit range.
    pub open spec fn as_congruential(self) -> LcgModel {
        LcgModel {
            modulus: self.modulus,
            multiplier: self.multiplier,
            increment: 0,
            state: self.state,
            output_bits: None,
        }
    }

    /// A valid configuration makes a valid generator.
    pub proof fn lemma_valid_config_is_valid_model(config: BaseConfig)
        requires
            config.is_valid(),
        ensures
            LehmerModel::from_config(config).is_valid(),
    {
    }

    /// A transition keeps the state below the modulus, and so within 32
    /// bits, and changes nothing else.
    pub proof fn lemma_step_preserves_validity(self)
        requires
            self.is_valid(),
        ensures
            self.step().is_valid(),
            self.step().state <= u32::MAX,
            self.step().modulus == self.modulus,
            self.step().multiplier == self.multiplier,
    {
        vstd::arithmetic::div_mod::lemma_mod_bound(
            (self.multiplier * self.state) as int,
            self.modulus as int,
        );
    }

    /// The generator is the congruential generator without increment: the
    /// two make the same transitions and hand out the same outputs.
    pub proof fn lemma_is_congruential(self, n: nat)
        requires
            self.is_valid(),
        ensures
            self.as_congruential().is_valid(),
            self.run(n).as_congruential() == self.as_congruential().run(n),
            self.run(n).is_valid(),
            self.run(n).state == self.as_congruential().run(n).output(),
        decreases n,
    {
        if n > 0 {
            let before = self.run((n - 1) as nat);
            self.lemma_is_congruential((n - 1) as nat);
            before.lemma_step_preserves_validity();
        }
    }

    /// The same parameters and state give the same states and outputs,
    /// however long the generator runs.
    pub proof fn lemma_deterministic(self, other: LehmerModel, n: nat)
        requires
            self == other,
        ensures
            self.run(n) == other.run(n),
            self.outputs(n) == other.outputs(n),
    {
    }
}

#[derive(Debug)]
pub struct LehmerGenerator {
    multiplier: u64,
    modulus: u64,
    state: u64,
}

impl View for LehmerGenerator {
    type V = LehmerModel;

    closed spec fn view(&self) -> LehmerModel {
        LehmerModel {
            modulus: self.modulus as nat,
            multiplier: self.multiplier as nat,
            state: self.state as nat,
        }
    }
}

impl LehmerGenerator {
    #[verifier::type_invariant]
    spec fn well_formed(&self) -> bool {
        self@.is_valid()
    }

    /// Builds a generator from a preset or from custom parameters. Nothing is
    /// built unless every rule of `BaseConfig::is_valid` holds.
    pub fn new(config: Config) -> (r: Result<LehmerGenerator, ConfigError>)
        ensures
            r.is_ok() <==> config.canonical().is_valid(),
            match config.canonical().violation() {
                Some(e) => r == Err::<LehmerGenerator, ConfigError>(e),
                None => r.is_ok() && r.unwrap()@ == LehmerModel::from_config(config.canonical())
                    && r.unwrap()@.is_valid(),
            },
    {
        let data: BaseConfig = BaseConfig::from(config);
        match data.validate() {
            Ok(()) => Ok(
                LehmerGenerator {
                    multiplier: data.multiplier,
                    modulus: data.modulus,
                    state: data.seed as u64,
                },
            ),
            Err(err) => Err(err),
        }
    }

    /// Advances the generator and returns its new state.
    pub fn next(&mut self) -> (out: u32)
        ensures
            final(self)@ == old(self)@.step(),
            final(self)@.is_valid(),
            out == final(self)@.state,
    {
        proof {
            use_type_invariant(&*self);
            assert(self.multiplier * self.state <= 0xffff_ffff * 0xffff_ffff) by (nonlinear_arith)
                requires
                    self.multiplier <= 0xffff_ffff,
                    self.state <= 0xffff_ffff,
            ;
        }
        self.state = self.multiplier * self.state % self.modulus;
        self.state as u32
    }
}

} // verus!
