use pontifex::wire::{u32_from_be, u32_to_be, u64_from_be, u64_to_be, MAX_PAYLOAD_LEN};
use pontifex::CodingKey;

#[test]
fn u32_is_written_most_significant_byte_first() {
    assert_eq!(u32_to_be(0x0102_0304), vec![1, 2, 3, 4]);
    assert_ne!(u32_to_be(0x0102_0304), 0x0102_0304u32.to_le_bytes().to_vec());
}

#[test]
fn u64_is_written_most_significant_byte_first() {
    assert_eq!(u64_to_be(0x0102_0304_0506_0708), vec![1, 2, 3, 4, 5, 6, 7, 8]);
    assert_eq!(u64_to_be(15), vec![0, 0, 0, 0, 0, 0, 0, 15]);
    assert_eq!(u64_to_be(1 << 63), vec![0x80, 0, 0, 0, 0, 0, 0, 0]);
}

#[test]
fn big_endian_fields_read_back() {
    assert_eq!(u32_from_be(&[0xde, 0xad, 0xbe, 0xef]), 0xdead_beef);
    assert_eq!(u64_from_be(&[0, 0, 0, 0, 0, 0, 1, 0]), 256);
    for x in [0u32, 1, 255, 256, 0xffff_ffff, 0x1234_5678] {
        assert_eq!(u32_from_be(&u32_to_be(x)), x);
        assert_eq!(u32_to_be(x), x.to_be_bytes().to_vec());
    }
    for x in [0u64, 1, 0x100, u64::MAX, 1 << 63, 0x0123_4567_89ab_cdef] {
        assert_eq!(u64_from_be(&u64_to_be(x)), x);
        assert_eq!(u64_to_be(x), x.to_be_bytes().to_vec());
    }
}

#[test]
fn little_endian_length_is_misread() {
    let le = 5u64.to_le_bytes();
    assert_ne!(u64_from_be(&le), 5);
    assert_eq!(u64_from_be(&le), 5 << 56);
}

#[test]
fn coding_key_names() {
    assert_eq!(CodingKey::Length.as_str(), "length");
    assert_eq!(CodingKey::Payload.as_str(), "payload");
}

#[test]
fn payload_limit_is_sixty_four_mebibytes() {
    assert_eq!(MAX_PAYLOAD_LEN, 64 * 1024 * 1024);
}
