//! The single error kind of the library: a configuration that a generator
//! refuses at construction.

use vstd::prelude::*;

verus! {

/// Why a configuration was refused. No generator fails once it has been built,
/// so every variant names a property of the configuration alone.
#[derive(Debug, Clone, Copy, PartialEq, Eq, Structural, Hash)]
pub enum ConfigError {
    /// The multiplier of a congruential generator is not below its modulus.
    MultiplierNotBelowModulus,
    /// The increment of a congruential generator is not below its modulus.
    IncrementNotBelowModulus,
    /// The seed of a congruential generator is not below its modulus.
    SeedNotBelowModulus,
    /// The modulus of a multiplicative generator is above 2^32, so that its
    /// states would not all fit the 32-bit output.
    ModulusTooWide,
    /// The output bit range is empty: its first bit is not below its end.
    OutputBitsEmpty,
    /// The output bit range starts above bit 63.
    OutputBitsOutOfRange,
    /// The short lag of a lagged Fibonacci generator is not below the long one.
    LagNotBelowWindow,
    /// The seed history of a lagged Fibonacci generator does not hold exactly
    /// as many values as the long lag says.
    SeedLengthMismatch,
    /// The short lag of a lagged Fibonacci generator is zero; lags count from
    /// one.
    ZeroLag,
    /// The modulus of a lagged Fibonacci generator is zero.
    ZeroModulus,
    /// The seed of a shift register is zero.
    ZeroSeed,
    /// A seed of a Wichmann-Hill generator is outside 1 to 30000.
    SeedOutOfRange,
}

impl ConfigError {
    /// The text that describes the error.
    pub open spec fn message_text(self) -> Seq<char> {
        match self {
            ConfigError::MultiplierNotBelowModulus => "multiplier must be less than modulus"@,
            ConfigError::IncrementNotBelowModulus => "increment must be less than modulus"@,
            ConfigError::SeedNotBelowModulus => "seed must be less than modulus"@,
            ConfigError::ModulusTooWide => "modulus must be at most 4294967296"@,
            ConfigError::OutputBitsEmpty => "output bit 0 must be less than output bit 1"@,
            ConfigError::OutputBitsOutOfRange => "output bit 0 must be less than or equal to 63"@,
            ConfigError::LagNotBelowWindow => "j must be less than k"@,
            ConfigError::SeedLengthMismatch => "seed length should equal k"@,
            ConfigError::ZeroLag => "j must be greater than 0"@,
            ConfigError::ZeroModulus => "modulus must be greater than 0"@,
            ConfigError::ZeroSeed => "seed must be greater than 0"@,
            ConfigError::SeedOutOfRange => "seeds must be between 1 and 30,000 inclusive"@,
        }
    }

    /// A description of the error for a reader.
    pub fn message(&self) -> (s: String)
        ensures
            s@ == self.message_text(),
    {
        match self {
            ConfigError::MultiplierNotBelowModulus => "multiplier must be less than modulus".to_owned(),
            ConfigError::IncrementNotBelowModulus => "increment must be less than modulus".to_owned(),
            ConfigError::SeedNotBelowModulus => "seed must be less than modulus".to_owned(),
            ConfigError::ModulusTooWide => "modulus must be at most 4294967296".to_owned(),
            ConfigError::OutputBitsEmpty => "output bit 0 must be less than output bit 1".to_owned(),
            ConfigError::OutputBitsOutOfRange => "output bit 0 must be less than or equal to 63".to_owned(),
            ConfigError::LagNotBelowWindow => "j must be less than k".to_owned(),
            ConfigError::SeedLengthMismatch => "seed length should equal k".to_owned(),
            ConfigError::ZeroLag => "j must be greater than 0".to_owned(),
            ConfigError::ZeroModulus => "modulus must be greater than 0".to_owned(),
            ConfigError::ZeroSeed => "seed must be greater than 0".to_owned(),
            ConfigError::SeedOutOfRange => "seeds must be between 1 and 30,000 inclusive".to_owned(),
        }
    }
}

} // verus!
