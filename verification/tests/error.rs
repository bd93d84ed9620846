use classic_prng::error::ConfigError;

#[test]
fn error_messages() {
    assert_eq!(
        ConfigError::MultiplierNotBelowModulus.message(),
        "multiplier must be less than modulus"
    );
    assert_eq!(
        ConfigError::IncrementNotBelowModulus.message(),
        "increment must be less than modulus"
    );
    assert_eq!(ConfigError::SeedNotBelowModulus.message(), "seed must be less than modulus");
    assert_eq!(ConfigError::ModulusTooWide.message(), "modulus must be at most 4294967296");
    assert_eq!(
        ConfigError::OutputBitsEmpty.message(),
        "output bit 0 must be less than output bit 1"
    );
    assert_eq!(
        ConfigError::OutputBitsOutOfRange.message(),
        "output bit 0 must be less than or equal to 63"
    );
    assert_eq!(ConfigError::LagNotBelowWindow.message(), "j must be less than k");
    assert_eq!(ConfigError::SeedLengthMismatch.message(), "seed length should equal k");
    assert_eq!(ConfigError::ZeroLag.message(), "j must be greater than 0");
    assert_eq!(ConfigError::ZeroModulus.message(), "modulus must be greater than 0");
    assert_eq!(ConfigError::ZeroSeed.message(), "seed must be greater than 0");
    assert_eq!(
        ConfigError::SeedOutOfRange.message(),
        "seeds must be between 1 and 30,000 inclusive"
    );
}

#[test]
fn errors_compare_by_variant() {
    assert_eq!(ConfigError::ZeroSeed, ConfigError::ZeroSeed);
    assert_ne!(ConfigError::ZeroSeed, ConfigError::ZeroLag);
}
