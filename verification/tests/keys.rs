use squares_rng::keys::{count_set_bits, is_balanced, BALANCED_MAX_BITS, BALANCED_MIN_BITS};
use squares_rng::{lookup_key, RngError, SquaresRNG};

const KEY: u64 = 0x2467cb532b5ce8d1;

#[test]
fn lookup_key_goes_round_the_table() {
    let table: [u64; 3] = [11, 22, 33];
    assert_eq!(lookup_key(&table, 0), Ok(11));
    assert_eq!(lookup_key(&table, 1), Ok(22));
    assert_eq!(lookup_key(&table, 2), Ok(33));
    assert_eq!(lookup_key(&table, 3), Ok(11));
    assert_eq!(lookup_key(&table, 4), Ok(22));
    assert_eq!(lookup_key(&table, u64::MAX), Ok(11));
}

#[test]
fn lookup_key_in_empty_table_is_configuration_error() {
    let table: [u64; 0] = [];
    assert_eq!(lookup_key(&table, 0), Err(RngError::ConfigurationError));
    assert_eq!(lookup_key(&table, 7), Err(RngError::ConfigurationError));
}

#[test]
fn new_takes_its_key_from_the_table() {
    let table: [u64; 2] = [0xc8e4fd154ce32f6d, KEY];
    let mut rng = SquaresRNG::new(0, 1, &table).unwrap();
    assert_eq!(rng.key, KEY);
    assert_eq!(rng.counter, 0);
    assert_eq!(rng.rand_u64(), 0x87053a45);

    let wrapped = SquaresRNG::new(9, 5, &table).unwrap();
    assert_eq!(wrapped.key, KEY);
    assert_eq!(wrapped.counter, 9);

    let even = SquaresRNG::new(9, 4, &table).unwrap();
    assert_eq!(even.key, 0xc8e4fd154ce32f6d);
}

#[test]
fn new_with_empty_table_is_configuration_error() {
    let table: Vec<u64> = Vec::new();
    match SquaresRNG::new(0, 0, &table) {
        Err(e) => assert_eq!(e, RngError::ConfigurationError),
        Ok(_) => panic!("an empty table holds no key"),
    }
}

#[test]
fn count_set_bits_counts() {
    assert_eq!(count_set_bits(0), 0);
    assert_eq!(count_set_bits(1), 1);
    assert_eq!(count_set_bits(0x8000_0000_0000_0000), 1);
    assert_eq!(count_set_bits(0xF0F0), 8);
    assert_eq!(count_set_bits(u64::MAX), 64);
    assert_eq!(count_set_bits(KEY), 32);
    for word in [3u64, 0xdead_beef, 0x0123_4567_89ab_cdef, u64::MAX - 1] {
        assert_eq!(count_set_bits(word), word.count_ones());
    }
}

#[test]
fn is_balanced_accepts_28_to_36_set_bits() {
    assert_eq!(BALANCED_MIN_BITS, 28);
    assert_eq!(BALANCED_MAX_BITS, 36);
    assert!(is_balanced(KEY));
    assert!(is_balanced((1u64 << 28) - 1));
    assert!(is_balanced((1u64 << 36) - 1));
    assert!(!is_balanced((1u64 << 27) - 1));
    assert!(!is_balanced((1u64 << 37) - 1));
    assert!(!is_balanced(0));
    assert!(!is_balanced(u64::MAX));
}
