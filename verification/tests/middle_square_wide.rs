use classic_prng::middle_square_wide::MiddleSquareGenerator;

#[test]
fn lib_wikipedia_sequence_a() {
    // seq from https://en.wikipedia.org/wiki/Middle-square_method#/media/File:Middle_square_method_2_digits.svg
    let mut generator = MiddleSquareGenerator::new(07, 2);
    assert_eq!(generator.next(), 4_u64,);
    assert_eq!(generator.next(), 1_u64);
    assert_eq!(generator.next(), 0_u64);
}

#[test]
fn lib_wikipedia_sequence_b() {
    // seq from https://en.wikipedia.org/wiki/Middle-square_method#/media/File:Middle_square_method_2_digits.svg
    let mut generator = MiddleSquareGenerator::new(42, 2);
    assert_eq!(generator.next(), 76_u64,);
    assert_eq!(generator.next(), 77_u64);
    assert_eq!(generator.next(), 92_u64);
    assert_eq!(generator.next(), 46_u64);
    assert_eq!(generator.next(), 11_u64);
    assert_eq!(generator.next(), 12_u64);
    assert_eq!(generator.next(), 14_u64);
    assert_eq!(generator.next(), 19_u64);
    assert_eq!(generator.next(), 36_u64);
    assert_eq!(generator.next(), 29_u64);
    assert_eq!(generator.next(), 84_u64);
    assert_eq!(generator.next(), 5_u64);
    assert_eq!(generator.next(), 2_u64);
    assert_eq!(generator.next(), 0_u64);
}

#[test]
fn lib_wikipedia_sequence_c() {
    // seq from https://en.wikipedia.org/wiki/Middle-square_method#/media/File:Middle_square_method_2_digits.svg
    let mut generator = MiddleSquareGenerator::new(81, 2);
    assert_eq!(generator.next(), 56_u64);
    assert_eq!(generator.next(), 13_u64);
    assert_eq!(generator.next(), 16_u64);
    assert_eq!(generator.next(), 25_u64);
    assert_eq!(generator.next(), 62_u64);
    assert_eq!(generator.next(), 84_u64);
    assert_eq!(generator.next(), 5_u64);
    assert_eq!(generator.next(), 2_u64);
    assert_eq!(generator.next(), 0_u64);
}

#[test]
fn lib_wikipedia_sequence_d() {
    // seq from https://en.wikipedia.org/wiki/Middle-square_method#/media/File:Middle_square_method_2_digits.svg
    let mut generator = MiddleSquareGenerator::new(31, 2);
    assert_eq!(generator.next(), 96_u64);
    assert_eq!(generator.next(), 21_u64);
    assert_eq!(generator.next(), 44_u64);
    assert_eq!(generator.next(), 93_u64);
    assert_eq!(generator.next(), 64_u64);
    assert_eq!(generator.next(), 9_u64);
    assert_eq!(generator.next(), 8_u64);
    assert_eq!(generator.next(), 6_u64);
    assert_eq!(generator.next(), 3_u64);
    assert_eq!(generator.next(), 0_u64);
}

#[test]
fn lib_wikipedia_sequence_e() {
    // seq from https://en.wikipedia.org/wiki/Middle-square_method#/media/File:Middle_square_method_2_digits.svg
    let mut generator = MiddleSquareGenerator::new(94, 2);
    assert_eq!(generator.next(), 83_u64);
    assert_eq!(generator.next(), 88_u64);
    assert_eq!(generator.next(), 74_u64);
    assert_eq!(generator.next(), 47_u64);
    assert_eq!(generator.next(), 20_u64);
    assert_eq!(generator.next(), 40_u64);
    assert_eq!(generator.next(), 60_u64);
    assert_eq!(generator.next(), 60_u64);
}

#[test]
fn wide_middle_square_ten_digits() {
    let mut generator = MiddleSquareGenerator::new(1234567890, 10);
    let produced: Vec<u64> = (0..6).map(|_| generator.next()).collect();
    assert_eq!(
        produced,
        vec![1578750190, 4521624250, 858581880, 1628446643, 8384690979, 428133239]
    );
}

#[test]
fn wide_middle_square_largest_seed_does_not_overflow() {
    let mut generator = MiddleSquareGenerator::new(18446744073709551615, 19);
    let produced: Vec<u64> = (0..4).map(|_| generator.next()).collect();
    assert_eq!(
        produced,
        vec![
            2093846342648111928,
            662087454371878382,
            9723663413841033238,
            8567065682062237949
        ]
    );
}

#[test]
fn wide_middle_square_window_wider_than_the_square() {
    let mut generator = MiddleSquareGenerator::new(18446744073709551615, 39);
    let produced: Vec<u64> = (0..3).map(|_| generator.next()).collect();
    assert_eq!(
        produced,
        vec![3402823669209384634, 115792089237316195, 134078079299425]
    );
}

#[test]
fn wide_middle_square_zero_is_a_fixed_point() {
    let mut generator = MiddleSquareGenerator::new(42, 2);
    for _ in 0..13 {
        assert_ne!(generator.next(), 0);
    }
    for _ in 0..100 {
        assert_eq!(generator.next(), 0);
    }
}

#[test]
fn wide_middle_square_agrees_with_the_narrow_one() {
    let mut narrow = classic_prng::middle_square::MiddleSquareGenerator::new(675248, 6);
    let mut wide = MiddleSquareGenerator::new(675248, 6);
    for _ in 0..100 {
        assert_eq!(u64::from(narrow.next()), wide.next());
    }
}

#[test]
fn wide_middle_square_supported_digit_counts() {
    for digits in 0usize..=19 {
        assert!(MiddleSquareGenerator::supports(digits));
    }
    for digits in 20usize..=38 {
        assert!(!MiddleSquareGenerator::supports(digits));
    }
    assert!(MiddleSquareGenerator::supports(39));
    assert!(MiddleSquareGenerator::supports(usize::MAX));
}

#[test]
fn wide_middle_square_is_deterministic() {
    let mut first = MiddleSquareGenerator::new(1234567890, 10);
    let mut second = MiddleSquareGenerator::new(1234567890, 10);
    for _ in 0..100 {
        assert_eq!(first.next(), second.next());
    }
}
