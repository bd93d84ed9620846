use classic_prng::error::ConfigError;
use classic_prng::lehmer;
use classic_prng::linear_congruential::{Config, LCGConfig, LinearCongruentialGenerator};

#[test]
fn minstdrand0() {
    const EXPECTED: [u32; 5] = [16807, 282475249, 1622650073, 984943658, 1144108930];
    let mut generator = LinearCongruentialGenerator::new(LCGConfig::MinstdRand0(1)).unwrap();
    for val in &EXPECTED {
        assert_eq!(
            generator.next(),
            *val,
            "generated value should match expected value"
        );
    }
}

#[test]
fn lib_randu() {
    // https://oeis.org/A096555
    const EXPECTED: [u32; 20] = [
        65539, 393225, 1769499, 7077969, 26542323, 95552217, 334432395, 1146624417, 1722371299,
        14608041, 1766175739, 1875647473, 1800754131, 366148473, 1022489195, 692115265,
        1392739779, 2127401289, 229749723, 1559239569,
    ];
    let mut generator = LinearCongruentialGenerator::new(LCGConfig::Randu(1)).unwrap();
    for val in &EXPECTED {
        assert_eq!(
            generator.next(),
            *val,
            "generated value should match expected value"
        );
    }
}

#[test]
fn borland() {
    const EXPECTED: [u32; 5] = [346, 130, 10982, 1090, 11656];
    let mut generator = LinearCongruentialGenerator::new(LCGConfig::Borland(1)).unwrap();
    for val in &EXPECTED {
        assert_eq!(
            generator.next(),
            *val,
            "generated value should match expected value"
        );
    }
}

#[test]
fn lcg_glibc_sequence() {
    let mut generator = LinearCongruentialGenerator::new(LCGConfig::Glibc(1)).unwrap();
    let produced: Vec<u32> = (0..5).map(|_| generator.next()).collect();
    assert_eq!(produced, vec![29785766, 377401575, 662824084, 74160957, 961273650]);
}

#[test]
fn lcg_posix_keeps_its_whole_state() {
    let mut generator = LinearCongruentialGenerator::new(LCGConfig::Posix(1)).unwrap();
    let produced: Vec<u32> = (0..5).map(|_| generator.next()).collect();
    assert_eq!(produced, vec![384748, 996231309, 1598099801, 1612966641, 1264029606]);
}

#[test]
fn lcg_ranqd1_sequence() {
    let mut generator = LinearCongruentialGenerator::new(LCGConfig::Ranqd1(1)).unwrap();
    let produced: Vec<u32> = (0..5).map(|_| generator.next()).collect();
    assert_eq!(produced, vec![1015568748, 1586005467, 2165703038, 3027450565, 217083232]);
}

#[test]
fn lcg_zx81_sequence() {
    let mut generator = LinearCongruentialGenerator::new(LCGConfig::Zx81(1)).unwrap();
    let produced: Vec<u32> = (0..5).map(|_| generator.next()).collect();
    assert_eq!(produced, vec![149, 11249, 57305, 38044, 35283]);
}

#[test]
fn lcg_minstd_rand_sequence() {
    let mut generator = LinearCongruentialGenerator::new(LCGConfig::MinstdRand(1)).unwrap();
    let produced: Vec<u32> = (0..5).map(|_| generator.next()).collect();
    assert_eq!(produced, vec![48271, 182605794, 1291394886, 1914720637, 2078669041]);
}

#[test]
fn lcg_presets_resolve_to_canonical_parameters() {
    let table: [(LCGConfig, u64, u64, u64, Option<(u8, u8)>); 8] = [
        (LCGConfig::MinstdRand0(5), 2147483647, 16807, 0, None),
        (LCGConfig::MinstdRand(5), 2147483647, 48271, 0, None),
        (LCGConfig::Randu(5), 2147483648, 65539, 0, None),
        (LCGConfig::Zx81(5), 65537, 75, 74, None),
        (LCGConfig::Borland(5), 2147483648, 22695477, 1, Some((16, 30))),
        (LCGConfig::Glibc(5), 2147483648, 1103515245, 12345, Some((0, 30))),
        (LCGConfig::Posix(5), 281474976710656, 25214903917, 11, Some((16, 47))),
        (LCGConfig::Ranqd1(5), 4294967296, 1664525, 1013904223, None),
    ];
    for (preset, modulus, multiplier, increment, output_bits) in table {
        let config = Config::try_from(preset).unwrap();
        assert_eq!(
            config,
            Config { modulus, multiplier, increment, seed: 5, output_bits }
        );
    }
}

#[test]
fn lcg_resolution_is_repeatable() {
    let first = Config::try_from(LCGConfig::Glibc(77)).unwrap();
    let second = Config::try_from(LCGConfig::Glibc(77)).unwrap();
    assert_eq!(first, second);
    assert_eq!(Config::try_from(LCGConfig::Custom(first)), Ok(first));
}

#[test]
fn lcg_custom_passes_through_resolution() {
    let custom = Config {
        modulus: 1000,
        multiplier: 21,
        increment: 7,
        seed: 5,
        output_bits: None,
    };
    assert_eq!(Config::try_from(LCGConfig::Custom(custom)), Ok(custom));
    let mut generator = LinearCongruentialGenerator::new(LCGConfig::Custom(custom)).unwrap();
    let produced: Vec<u32> = (0..6).map(|_| generator.next()).collect();
    assert_eq!(produced, vec![112, 359, 546, 473, 940, 747]);
}

#[test]
fn lcg_bit_range_end_is_exclusive() {
    // States 112, 359, 546, ...: bits 4 up to, but not including, 8.
    let custom = Config {
        modulus: 1000,
        multiplier: 21,
        increment: 7,
        seed: 5,
        output_bits: Some((4, 8)),
    };
    let mut generator = LinearCongruentialGenerator::new(LCGConfig::Custom(custom)).unwrap();
    let produced: Vec<u32> = (0..6).map(|_| generator.next()).collect();
    assert_eq!(produced, vec![7, 6, 2, 13, 10, 14]);
    assert_eq!(generator.state(), 747);
}

#[test]
fn lcg_wide_modulus_uses_wide_product() {
    let custom = Config {
        modulus: 18446744073709551557,
        multiplier: 6364136223846793005,
        increment: 1442695040888963407,
        seed: 12345,
        output_bits: Some((32, 64)),
    };
    let mut generator = LinearCongruentialGenerator::new(LCGConfig::Custom(custom)).unwrap();
    let produced: Vec<u32> = (0..4).map(|_| generator.next()).collect();
    assert_eq!(produced, vec![470636529, 2450367964, 2437774479, 2754677676]);
}

#[test]
fn lcg_bit_range_end_above_the_state_width_selects_every_high_bit() {
    let custom = Config {
        modulus: 18446744073709551557,
        multiplier: 6364136223846793005,
        increment: 1442695040888963407,
        seed: 12345,
        output_bits: Some((32, 200)),
    };
    let mut generator = LinearCongruentialGenerator::new(LCGConfig::Custom(custom)).unwrap();
    let produced: Vec<u32> = (0..4).map(|_| generator.next()).collect();
    assert_eq!(produced, vec![470636529, 2450367964, 2437774479, 2754677676]);
}

#[test]
fn lcg_output_is_the_low_word_of_a_wide_state() {
    let custom = Config {
        modulus: 18446744073709551557,
        multiplier: 6364136223846793005,
        increment: 1442695040888963407,
        seed: 12345,
        output_bits: None,
    };
    let mut generator = LinearCongruentialGenerator::new(LCGConfig::Custom(custom)).unwrap();
    let produced: Vec<u32> = (0..4).map(|_| generator.next()).collect();
    assert_eq!(produced, vec![210573285, 3248861702, 1785121397, 2332912548]);
}

#[test]
fn lcg_rejects_multiplier_not_below_modulus() {
    let config = Config { modulus: 10, multiplier: 10, increment: 1, seed: 1, output_bits: None };
    assert_eq!(config.validate(), Err(ConfigError::MultiplierNotBelowModulus));
    assert_eq!(
        LinearCongruentialGenerator::new(LCGConfig::Custom(config)).err(),
        Some(ConfigError::MultiplierNotBelowModulus)
    );
}

#[test]
fn lcg_rejects_increment_not_below_modulus() {
    let config = Config { modulus: 10, multiplier: 9, increment: 10, seed: 1, output_bits: None };
    assert_eq!(config.validate(), Err(ConfigError::IncrementNotBelowModulus));
    assert_eq!(
        LinearCongruentialGenerator::new(LCGConfig::Custom(config)).err(),
        Some(ConfigError::IncrementNotBelowModulus)
    );
}

#[test]
fn lcg_rejects_seed_not_below_modulus() {
    let config = Config { modulus: 10, multiplier: 9, increment: 9, seed: 10, output_bits: None };
    assert_eq!(config.validate(), Err(ConfigError::SeedNotBelowModulus));
    assert_eq!(
        LinearCongruentialGenerator::new(LCGConfig::Zx81(65537)).err(),
        Some(ConfigError::SeedNotBelowModulus)
    );
    assert!(LinearCongruentialGenerator::new(LCGConfig::Zx81(65536)).is_ok());
    assert_eq!(
        Config::try_from(LCGConfig::Randu(2147483648)),
        Err(ConfigError::SeedNotBelowModulus)
    );
}

#[test]
fn lcg_rejects_empty_bit_range() {
    let config =
        Config { modulus: 10, multiplier: 9, increment: 9, seed: 9, output_bits: Some((5, 5)) };
    assert_eq!(config.validate(), Err(ConfigError::OutputBitsEmpty));
    let reversed =
        Config { modulus: 10, multiplier: 9, increment: 9, seed: 9, output_bits: Some((70, 5)) };
    assert_eq!(reversed.validate(), Err(ConfigError::OutputBitsEmpty));
    assert_eq!(
        LinearCongruentialGenerator::new(LCGConfig::Custom(config)).err(),
        Some(ConfigError::OutputBitsEmpty)
    );
}

#[test]
fn lcg_rejects_bit_range_starting_above_63() {
    let config =
        Config { modulus: 10, multiplier: 9, increment: 9, seed: 9, output_bits: Some((64, 65)) };
    assert_eq!(config.validate(), Err(ConfigError::OutputBitsOutOfRange));
    assert_eq!(
        LinearCongruentialGenerator::new(LCGConfig::Custom(config)).err(),
        Some(ConfigError::OutputBitsOutOfRange)
    );
    let highest =
        Config { modulus: 10, multiplier: 9, increment: 9, seed: 9, output_bits: Some((63, 64)) };
    assert_eq!(highest.validate(), Ok(()));
}

#[test]
fn lcg_reports_the_first_broken_rule() {
    let config =
        Config { modulus: 10, multiplier: 11, increment: 12, seed: 13, output_bits: Some((9, 1)) };
    assert_eq!(config.validate(), Err(ConfigError::MultiplierNotBelowModulus));
}

#[test]
fn lcg_is_deterministic() {
    let mut first = LinearCongruentialGenerator::new(LCGConfig::Posix(99)).unwrap();
    let mut second = LinearCongruentialGenerator::new(LCGConfig::Posix(99)).unwrap();
    for _ in 0..100 {
        assert_eq!(first.next(), second.next());
        assert_eq!(first.state(), second.state());
    }
}

#[test]
fn lcg_without_increment_is_the_lehmer_generator() {
    let mut congruential = LinearCongruentialGenerator::new(LCGConfig::MinstdRand0(2024)).unwrap();
    let mut multiplicative = lehmer::LehmerGenerator::new(lehmer::Config::MINSTDConfig(
        lehmer::MINSTDConfig { seed: 2024 },
    ))
    .unwrap();
    for _ in 0..50 {
        assert_eq!(congruential.next(), multiplicative.next());
    }
}
