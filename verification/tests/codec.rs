use slmodem_asterisk_bridge::codec::{
    align_slin_buffer, decode_ulaw, encode_ulaw, linear_to_ulaw, ulaw_to_linear,
};

#[test]
fn known_codes() {
    assert_eq!(linear_to_ulaw(0), 0xff);
    assert_eq!(linear_to_ulaw(-1), 0x7f);
    assert_eq!(linear_to_ulaw(1000), 0xce);
    assert_eq!(linear_to_ulaw(-1000), 0x4e);
    assert_eq!(linear_to_ulaw(32767), 0x80);
    assert_eq!(linear_to_ulaw(-32768), 0x00);
}

#[test]
fn known_samples() {
    assert_eq!(ulaw_to_linear(0xff), 0);
    assert_eq!(ulaw_to_linear(0x7f), 0);
    assert_eq!(ulaw_to_linear(0xfe), 8);
    assert_eq!(ulaw_to_linear(0x80), 32124);
    assert_eq!(ulaw_to_linear(0x00), -32124);
    assert_eq!(ulaw_to_linear(0xce), 988);
}

#[test]
fn every_code_but_the_second_zero_survives() {
    for code in 0..=255u8 {
        let back = linear_to_ulaw(ulaw_to_linear(code));
        if code == 0x7f {
            assert_eq!(back, 0xff);
        } else {
            assert_eq!(back, code);
        }
    }
}

#[test]
fn decoding_is_close_to_the_sample() {
    for sample in -32635..=32635i16 {
        let decoded = ulaw_to_linear(linear_to_ulaw(sample));
        let biased = (sample as i32).abs() + 132;
        let mut scale = 1;
        while biased >= 256 * scale {
            scale *= 2;
        }
        assert!((decoded as i32 - sample as i32).abs() <= 4 * scale);
    }
}

#[test]
fn buffers_are_little_endian() {
    // 1000 = 0x03e8, -1000 = 0xfc18, 988 = 0x03dc.
    assert_eq!(encode_ulaw(&[0xe8, 0x03, 0x18, 0xfc]), vec![0xce, 0x4e]);
    assert_eq!(decode_ulaw(&[0xce, 0x4e]), vec![0xdc, 0x03, 0x24, 0xfc]);
}

#[test]
fn lone_trailing_byte_is_no_sample() {
    assert_eq!(encode_ulaw(&[0xe8, 0x03, 0x18]), vec![0xce]);
    assert_eq!(encode_ulaw(&[0x18]), Vec::<u8>::new());
}

#[test]
fn silence_converts_to_silence() {
    assert_eq!(encode_ulaw(&[0u8; 320]), vec![0xff; 160]);
    assert_eq!(decode_ulaw(&[0xff; 160]), vec![0u8; 320]);
}

#[test]
fn ulaw_buffer_round_trip() {
    let ulaw: Vec<u8> = (0..=255u8).filter(|code| *code != 0x7f).collect();
    assert_eq!(encode_ulaw(&decode_ulaw(&ulaw)), ulaw);
}

#[test]
fn alignment_holds_back_a_split_sample() {
    let mut residual = None;
    assert_eq!(align_slin_buffer(&mut residual, &[1, 2, 3]), vec![1, 2]);
    assert_eq!(residual, Some(3));
    assert_eq!(align_slin_buffer(&mut residual, &[4]), vec![3, 4]);
    assert_eq!(residual, None);
    assert_eq!(align_slin_buffer(&mut residual, &[5]), Vec::<u8>::new());
    assert_eq!(residual, Some(5));
    assert_eq!(align_slin_buffer(&mut residual, &[6, 7]), vec![5, 6]);
    assert_eq!(residual, Some(7));
    assert_eq!(align_slin_buffer(&mut residual, &[]), Vec::<u8>::new());
    assert_eq!(residual, Some(7));
}
