use llmcache::embedding::{decode_words, encode_words};

#[test]
fn words_encode_little_endian() {
    assert_eq!(
        encode_words(&[0x0403_0201, 0x8000_00ff]),
        vec![0x01, 0x02, 0x03, 0x04, 0xff, 0x00, 0x00, 0x80]
    );
    assert_eq!(encode_words(&[]), Vec::<u8>::new());
}

#[test]
fn floats_roundtrip_through_stored_form() {
    let floats = [1.0f32, -2.5, 0.0, f32::MAX, 1.0e-30];
    let words: Vec<u32> = floats.iter().map(|f| f.to_bits()).collect();
    let bytes = encode_words(&words);
    let expected: Vec<u8> = floats.iter().flat_map(|f| f.to_le_bytes()).collect();
    assert_eq!(bytes, expected);
    let back: Vec<f32> = decode_words(&bytes).iter().map(|w| f32::from_bits(*w)).collect();
    assert_eq!(back, floats.to_vec());
}

#[test]
fn bytes_roundtrip_through_words() {
    let bytes: Vec<u8> = (0u8..16).collect();
    assert_eq!(encode_words(&decode_words(&bytes)), bytes);
}
