use ananas::{bytes_to_nan, from_f32, nan_to_bytes};

#[test]
fn test_nanvec() {
    let a = "hello world!";
    let mut b = bytes_to_nan(a.as_bytes());
    assert!(f32::from_bits(b[0]).is_nan());

    b.insert(3, 3303.3f32.to_bits());
    let c = nan_to_bytes(&b);
    let c = String::from_utf8(c).unwrap();
    assert_eq!(c, a);
}

#[test]
fn empty_input_gives_empty_output() {
    assert_eq!(bytes_to_nan(&[]), Vec::<u32>::new());
    assert_eq!(nan_to_bytes(&[]), Vec::<u8>::new());
}

#[test]
fn one_byte_gives_one_unit() {
    let units = bytes_to_nan(&[0x41]);
    assert_eq!(units, vec![0x7FA2_4100]);
    assert_eq!(nan_to_bytes(&units), vec![0x41]);
}

#[test]
fn three_bytes_give_a_pair_and_a_single() {
    let units = bytes_to_nan(&[0x41, 0x42, 0x43]);
    assert_eq!(units.len(), 2);
    assert_eq!(units, vec![0x7FB2_4142, 0x7FA2_4300]);
    assert_eq!(from_f32(units[0]), (Some(0x41), Some(0x42)));
    assert_eq!(from_f32(units[1]), (Some(0x43), None));
    assert_eq!(nan_to_bytes(&units), vec![0x41, 0x42, 0x43]);
}

#[test]
fn even_length_gives_pairs_only() {
    let units = bytes_to_nan(&[1, 2, 3, 4]);
    assert_eq!(units, vec![0x7FB2_0102, 0x7FB2_0304]);
    assert_eq!(nan_to_bytes(&units), vec![1, 2, 3, 4]);
}

#[test]
fn unit_count_is_half_rounded_up() {
    for len in 0..40usize {
        let bytes = vec![0xA5u8; len];
        assert_eq!(bytes_to_nan(&bytes).len(), (len + 1) / 2);
    }
}

#[test]
fn every_unit_of_an_encoding_is_a_nan() {
    let bytes: Vec<u8> = (0..=255u8).collect();
    for u in bytes_to_nan(&bytes) {
        assert!(f32::from_bits(u).is_nan());
    }
}

#[test]
fn batch_round_trip() {
    let mut bytes: Vec<u8> = Vec::new();
    for len in 0..300usize {
        assert_eq!(nan_to_bytes(&bytes_to_nan(&bytes)), bytes);
        bytes.push((len * 37 % 256) as u8);
    }
    let all: Vec<u8> = (0..=255u8).rev().collect();
    assert_eq!(nan_to_bytes(&bytes_to_nan(&all)), all);
}

#[test]
fn a_stranger_anywhere_changes_nothing() {
    let strangers: [u32; 7] = [
        3303.3f32.to_bits(),
        0.0f32.to_bits(),
        f32::NAN.to_bits(),
        f32::INFINITY.to_bits(),
        f32::NEG_INFINITY.to_bits(),
        0x7F92_4142,
        0xFFC0_0001,
    ];
    for bytes in [&b""[..], &b"A"[..], &b"AB"[..], &b"hello"[..], &b"hello world!"[..]] {
        let units = bytes_to_nan(bytes);
        for v in strangers {
            for at in 0..=units.len() {
                let mut with = units.clone();
                with.insert(at, v);
                assert_eq!(nan_to_bytes(&with), bytes);
            }
        }
    }
}

#[test]
fn strangers_alone_carry_nothing() {
    let units = [1.5f32.to_bits(), f32::NAN.to_bits(), 0, u32::MAX & !0x0020_0000];
    assert_eq!(nan_to_bytes(&units), Vec::<u8>::new());
}

#[test]
fn decoding_takes_any_conforming_unit() {
    let units = [0x7FB2_0102, 0x7FA2_0300, 0xFFF0_0405, 0x7FE0_0600, 0x7FC0_0000];
    assert_eq!(nan_to_bytes(&units), vec![1, 2, 3, 4, 5, 6]);
}

#[test]
fn a_single_in_the_middle_keeps_its_place() {
    let units = [0x7FA2_4100, 0x7FB2_4243, 0x7FA2_4400];
    assert_eq!(nan_to_bytes(&units), b"ABCD".to_vec());
}
