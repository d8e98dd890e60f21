use pngme::chunk_type::{ChunkType, ChunkTypeError};
use std::convert::TryFrom;
use std::str::FromStr;

#[test]
pub fn test_chunk_type_from_bytes() {
    let expected = [82, 117, 83, 116];
    let actual = ChunkType::try_from([82, 117, 83, 116]).unwrap();

    assert_eq!(expected, actual.bytes());
}

#[test]
pub fn test_chunk_type_from_str() {
    let expected = ChunkType::try_from([82, 117, 83, 116]).unwrap();
    let actual = ChunkType::from_str("RuSt").unwrap();
    assert_eq!(expected, actual);
}

#[test]
pub fn test_chunk_type_is_critical() {
    let chunk = ChunkType::from_str("RuSt").unwrap();
    assert!(chunk.is_critical());
}

#[test]
pub fn test_chunk_type_is_not_critical() {
    let chunk = ChunkType::from_str("ruSt").unwrap();
    assert!(!chunk.is_critical());
}

#[test]
pub fn test_chunk_type_is_public() {
    let chunk = ChunkType::from_str("RUSt").unwrap();
    assert!(chunk.is_public());
}

#[test]
pub fn test_chunk_type_is_not_public() {
    let chunk = ChunkType::from_str("RuSt").unwrap();
    assert!(!chunk.is_public());
}

#[test]
pub fn test_chunk_type_is_reserved_bit_valid() {
    let chunk = ChunkType::from_str("RuSt").unwrap();
    assert!(chunk.is_reserved_bit_valid());
}

#[test]
pub fn test_chunk_type_is_reserved_bit_invalid() {
    let chunk = ChunkType::from_str("Rust").unwrap();
    assert!(!chunk.is_reserved_bit_valid());
}

#[test]
pub fn test_chunk_type_is_safe_to_copy() {
    let chunk = ChunkType::from_str("RuSt").unwrap();
    assert!(chunk.is_safe_to_copy());
}

#[test]
pub fn test_chunk_type_is_unsafe_to_copy() {
    let chunk = ChunkType::from_str("RuST").unwrap();
    assert!(!chunk.is_safe_to_copy());
}

#[test]
pub fn test_valid_chunk_is_valid() {
    let chunk = ChunkType::from_str("RuSt").unwrap();
    assert!(chunk.is_valid());
}

#[test]
pub fn test_invalid_chunk_is_valid() {
    let chunk = ChunkType::from_str("Rust").unwrap();
    assert!(!chunk.is_valid());

    let chunk = ChunkType::from_str("Ru1t");
    assert!(chunk.is_err());
}

#[test]
pub fn test_chunk_type_string() {
    let chunk = ChunkType::from_str("RuSt").unwrap();
    assert_eq!(&chunk.to_string(), "RuSt");
}

#[test]
pub fn test_chunk_type_trait_impls() {
    let chunk_type_1: ChunkType = TryFrom::try_from([82, 117, 83, 116]).unwrap();
    let chunk_type_2: ChunkType = FromStr::from_str("RuSt").unwrap();
    let _chunk_string = chunk_type_1.to_string();
    let _are_chunks_equal = chunk_type_1 == chunk_type_2;
}

#[test]
fn rust_tag_properties() {
    let tag = ChunkType::from_str("RuSt").unwrap();
    assert!(tag.is_critical());
    assert!(!tag.is_public());
    assert!(tag.is_reserved_bit_valid());
    // The fourth byte is a lower-case letter, so bit 5 is set.
    assert!(tag.is_safe_to_copy());
    let lower = ChunkType::from_str("ruSt").unwrap();
    assert!(!lower.is_critical());
}

#[test]
fn from_str_rejects_three_and_five_bytes() {
    assert_eq!(ChunkType::from_str("RuS").unwrap_err(), ChunkTypeError::InvalidLength(3));
    assert_eq!(ChunkType::from_str("RuStt").unwrap_err(), ChunkTypeError::InvalidLength(5));
    assert_eq!(ChunkType::from_str("").unwrap_err(), ChunkTypeError::InvalidLength(0));
}

#[test]
fn from_str_reports_first_bad_byte() {
    assert_eq!(ChunkType::from_str("Ru1t").unwrap_err(), ChunkTypeError::InvalidCharacter(b'1'));
    assert_eq!(ChunkType::from_str("R1!t").unwrap_err(), ChunkTypeError::InvalidCharacter(b'1'));
    assert_eq!(ChunkType::from_str("Ru[t").unwrap_err(), ChunkTypeError::InvalidCharacter(b'['));
    assert_eq!(ChunkType::from_str("@uSt").unwrap_err(), ChunkTypeError::InvalidCharacter(b'@'));
}

#[test]
fn from_str_counts_bytes_not_characters() {
    // "é" takes two bytes, so this text is five bytes long.
    assert_eq!(ChunkType::from_str("Ruté").unwrap_err(), ChunkTypeError::InvalidLength(5));
}

#[test]
fn from_str_accepts_letter_range_ends() {
    let tag = ChunkType::from_str("AZaz").unwrap();
    assert_eq!(tag.bytes(), [65, 90, 97, 122]);
}

#[test]
fn reserved_bit_makes_letters_invalid() {
    let tag = ChunkType::from_str("Rust").unwrap();
    assert!(!tag.is_reserved_bit_valid());
    assert!(!tag.is_valid());
}

#[test]
fn unchecked_bytes_are_kept_and_judged() {
    let tag = ChunkType::from_bytes([0x31, 0x75, 0x53, 0x74]);
    assert_eq!(tag.bytes(), [0x31, 0x75, 0x53, 0x74]);
    assert!(!tag.is_valid());
    assert!(!ChunkType::is_valid_byte(b'1'));
    assert!(ChunkType::is_valid_byte(b'q'));
}

#[test]
fn lossy_text_replaces_bad_bytes() {
    let tag = ChunkType::from_bytes([0xff, b'u', b'S', b't']);
    assert_eq!(tag.to_string(), "\u{FFFD}uSt");
}

#[test]
fn tags_compare_by_bytes() {
    let a = ChunkType::from_str("RuSt").unwrap();
    let b = ChunkType::from_str("RuST").unwrap();
    assert!(a != b);
    assert!(a == ChunkType::from_bytes([82, 117, 83, 116]));
}

#[test]
fn chunk_type_error_messages() {
    assert_eq!(ChunkTypeError::InvalidCharacter(49).to_string(), "invalid character: 49");
    assert_eq!(
        ChunkTypeError::InvalidLength(17).to_string(),
        "length must be 4, right now: 17"
    );
}

#[test]
fn try_from_keeps_any_bytes() {
    let tag = ChunkType::try_from([82, 0, 83, 116]).unwrap();
    assert_eq!(tag.bytes(), [82, 0, 83, 116]);
    assert!(!tag.is_valid());
}
