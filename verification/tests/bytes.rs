use social_ledger::bytes::{decode_le, encode_le};

#[test]
fn encode_le_puts_the_low_byte_first() {
    assert_eq!(encode_le(0x0102, 2), vec![0x02, 0x01]);
    assert_eq!(encode_le(1, 4), vec![1, 0, 0, 0]);
    assert_eq!(encode_le(200, 2), vec![200, 0]);
    assert_eq!(encode_le(256, 2), vec![0, 1]);
    assert_eq!(
        encode_le(0x0102_0304_0506_0708, 8),
        vec![0x08, 0x07, 0x06, 0x05, 0x04, 0x03, 0x02, 0x01]
    );
    assert_eq!(encode_le(u64::MAX, 8), vec![0xff; 8]);
}

#[test]
fn encode_le_keeps_only_the_low_bytes() {
    assert_eq!(encode_le(0x0001_0203, 2), vec![0x03, 0x02]);
    assert_eq!(encode_le(0x1234, 0), Vec::<u8>::new());
    assert_eq!(encode_le(0x1234, 1), vec![0x34]);
}

#[test]
fn encode_le_agrees_with_std() {
    for value in [0u64, 1, 255, 256, 65535, 65536, 0xdead_beef, u64::MAX - 1] {
        assert_eq!(encode_le(value, 8), value.to_le_bytes().to_vec());
        assert_eq!(encode_le(value, 4), (value as u32).to_le_bytes().to_vec());
        assert_eq!(encode_le(value, 2), (value as u16).to_le_bytes().to_vec());
    }
}

#[test]
fn decode_le_reads_the_low_byte_first() {
    assert_eq!(decode_le(&[]), 0);
    assert_eq!(decode_le(&[1, 0]), 1);
    assert_eq!(decode_le(&[0, 1]), 256);
    assert_eq!(decode_le(&[0x02, 0x01]), 0x0102);
    assert_eq!(decode_le(&[0xff; 8]), u64::MAX);
    assert_eq!(decode_le(&[0x08, 0x07, 0x06, 0x05, 0x04, 0x03, 0x02, 0x01]), 0x0102_0304_0506_0708);
}

#[test]
fn decode_le_undoes_encode_le() {
    for value in [0u64, 1, 200, 255, 256, 65535, 0xdead_beef, u64::MAX] {
        assert_eq!(decode_le(&encode_le(value, 8)), value);
    }
    for value in [0u64, 1, 200, 255, 256, 65535] {
        assert_eq!(decode_le(&encode_le(value, 2)), value);
    }
}
