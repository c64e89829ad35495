use fox::engine::number::{canonical, is_nan, same_number, NAN};

#[test]
fn every_nan_is_one_number() {
    let quiet = f64::NAN.to_bits();
    let negative = (-f64::NAN).to_bits();
    let payload = 0x7ff0_0000_0000_0001u64;
    assert!(f64::from_bits(payload).is_nan());
    for bits in [quiet, negative, payload] {
        assert!(is_nan(bits));
        assert_eq!(canonical(bits), NAN);
    }
    assert!(same_number(quiet, payload));
    assert!(same_number(negative, quiet));
    assert!(f64::from_bits(NAN).is_nan());
}

#[test]
fn other_numbers_are_compared_by_their_bits() {
    for x in [0.0f64, -0.0, 1.5, -3.14, f64::INFINITY, f64::NEG_INFINITY, f64::MAX] {
        let bits = x.to_bits();
        assert!(!is_nan(bits));
        assert_eq!(canonical(bits), bits);
        assert!(same_number(bits, bits));
        assert!(!same_number(bits, f64::NAN.to_bits()));
    }
    assert!(!same_number(0.0f64.to_bits(), (-0.0f64).to_bits()));
    assert!(!same_number(1.0f64.to_bits(), 2.0f64.to_bits()));
}
