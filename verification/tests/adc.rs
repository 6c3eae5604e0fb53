use slonk::adc::{request_bits, sample_of};

#[test]
fn a_request_names_its_channel() {
    assert_eq!(request_bits(0), Some(vec![true, true, false, false, false]));
    assert_eq!(request_bits(1), Some(vec![true, true, false, false, true]));
    assert_eq!(request_bits(2), Some(vec![true, true, false, true, false]));
    assert_eq!(request_bits(5), Some(vec![true, true, true, false, true]));
    assert_eq!(request_bits(7), Some(vec![true, true, true, true, true]));
}

#[test]
fn a_missing_channel_has_no_request() {
    assert_eq!(request_bits(8), None);
    assert_eq!(request_bits(255), None);
}

#[test]
fn twelve_bits_spell_a_sample() {
    assert_eq!(sample_of(&[false; 12]), Some(0));
    assert_eq!(sample_of(&[true; 12]), Some(4095));
    let mut bits = [false; 12];
    bits[11] = true;
    assert_eq!(sample_of(&bits), Some(1));
    bits[0] = true;
    assert_eq!(sample_of(&bits), Some(2049));
    // 3456 is 1101 1000 0000.
    let bits = [true, true, false, true, true, false, false, false, false, false, false, false];
    assert_eq!(sample_of(&bits), Some(3456));
}

#[test]
fn another_length_spells_no_sample() {
    assert_eq!(sample_of(&[]), None);
    assert_eq!(sample_of(&[true; 11]), None);
    assert_eq!(sample_of(&[true; 13]), None);
}
