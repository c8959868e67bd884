use secretpng::PngError;
use secretpng::chunk::Chunk;
use secretpng::chunk_type::ChunkType;

fn testing_chunk() -> Chunk {
    let data_length: u32 = 42;
    let chunk_type = "RuSt".as_bytes();
    let message_bytes = "This is where your secret message will be!".as_bytes();
    let crc: u32 = 2882656334;

    let chunk_data: Vec<u8> = data_length
        .to_be_bytes()
        .iter()
        .chain(chunk_type.iter())
        .chain(message_bytes.iter())
        .chain(crc.to_be_bytes().iter())
        .copied()
        .collect();

    Chunk::parse(chunk_data.as_ref()).unwrap().0
}

#[test]
fn test_chunk_length() {
    let chunk = testing_chunk();
    assert_eq!(chunk.length(), 42);
}

#[test]
fn test_chunk_type() {
    let chunk = testing_chunk();
    assert_eq!(chunk.chunk_type().to_text(), String::from("RuSt"));
}

#[test]
fn test_chunk_string() {
    let chunk = testing_chunk();
    let chunk_string = chunk.data_as_string().unwrap();
    let expected_chunk_string = String::from("This is where your secret message will be!");
    assert_eq!(chunk_string, expected_chunk_string);
}

#[test]
fn test_chunk_crc() {
    let chunk = testing_chunk();
    assert_eq!(chunk.crc(), 2882656334);
}

#[test]
fn test_valid_chunk_from_bytes() {
    let data_length: u32 = 42;
    let chunk_type = "RuSt".as_bytes();
    let message_bytes = "This is where your secret message will be!".as_bytes();
    let crc: u32 = 2882656334;

    let chunk_data: Vec<u8> = data_length
        .to_be_bytes()
        .iter()
        .chain(chunk_type.iter())
        .chain(message_bytes.iter())
        .chain(crc.to_be_bytes().iter())
        .copied()
        .collect();

    let (chunk, consumed) = Chunk::parse(chunk_data.as_ref()).unwrap();

    let chunk_string = chunk.data_as_string().unwrap();
    let expected_chunk_string = String::from("This is where your secret message will be!");

    assert_eq!(chunk.length(), 42);
    assert_eq!(chunk.chunk_type().to_text(), String::from("RuSt"));
    assert_eq!(chunk_string, expected_chunk_string);
    assert_eq!(chunk.crc(), 2882656334);
    assert_eq!(consumed, chunk_data.len());
}

#[test]
fn test_invalid_chunk_from_bytes() {
    let data_length: u32 = 42;
    let chunk_type = "RuSt".as_bytes();
    let message_bytes = "This is where your secret message will be!".as_bytes();
    let crc: u32 = 2882656333;

    let chunk_data: Vec<u8> = data_length
        .to_be_bytes()
        .iter()
        .chain(chunk_type.iter())
        .chain(message_bytes.iter())
        .chain(crc.to_be_bytes().iter())
        .copied()
        .collect();

    let chunk = Chunk::parse(chunk_data.as_ref());

    assert!(chunk.is_err());
}

#[test]
pub fn test_chunk_trait_impls() {
    let data_length: u32 = 42;
    let chunk_type = "RuSt".as_bytes();
    let message_bytes = "This is where your secret message will be!".as_bytes();
    let crc: u32 = 2882656334;

    let chunk_data: Vec<u8> = data_length
        .to_be_bytes()
        .iter()
        .chain(chunk_type.iter())
        .chain(message_bytes.iter())
        .chain(crc.to_be_bytes().iter())
        .copied()
        .collect();

    let (chunk, _) = Chunk::parse(chunk_data.as_ref()).unwrap();

    let _chunk_string = format!("{:?}", chunk);
}

#[test]
fn test_chunk_round_trip() {
    let chunk_type = ChunkType::from_text("RuSt").unwrap();
    let data = b"This is where your secret message will be!".to_vec();
    let original = Chunk::new(chunk_type, data.clone());

    let (reparsed, consumed) = Chunk::parse(original.as_bytes().as_ref()).unwrap();
    assert_eq!(consumed, 12 + data.len());
    assert_eq!(reparsed.length(), original.length());
    assert_eq!(reparsed.chunk_type().bytes(), original.chunk_type().bytes());
    assert_eq!(reparsed.data(), original.data());
    assert_eq!(reparsed.crc(), original.crc());
}

#[test]
fn test_chunk_crc_known_value() {
    let chunk_type = ChunkType::from_text("RuSt").unwrap();
    let data = b"This is where your secret message will be!".to_vec();
    let chunk = Chunk::new(chunk_type, data);
    assert_eq!(chunk.crc(), 2882656334);
}

#[test]
fn test_checksum_sensitivity_bit_flips() {
    let chunk_type = ChunkType::from_text("ruSt").unwrap();
    let data = b"payload".to_vec();
    let chunk = Chunk::new(chunk_type, data.clone());
    let serialized = chunk.as_bytes();

    // Flip every bit of the type and payload region in turn, skipping flips
    // that leave the type region non-alphabetic (those are rejected earlier,
    // as an invalid type code).
    for byte_index in 4..8 + data.len() {
        for bit in 0..8 {
            let mut corrupted = serialized.clone();
            corrupted[byte_index] ^= 1u8 << bit;
            if byte_index < 8 && !corrupted[byte_index].is_ascii_alphabetic() {
                assert_eq!(
                    Chunk::parse(corrupted.as_ref()).unwrap_err(),
                    PngError::InvalidTypeCode,
                    "flip at byte {byte_index} bit {bit}"
                );
            } else {
                assert!(
                    matches!(
                        Chunk::parse(corrupted.as_ref()),
                        Err(PngError::ChecksumMismatch { .. })
                    ),
                    "flip at byte {byte_index} bit {bit}"
                );
            }
        }
    }
}

#[test]
fn test_truncated_record() {
    assert_eq!(Chunk::parse(&[0, 0, 0, 1]).unwrap_err(), PngError::TruncatedRecord);
    // Declares a 5-byte payload but carries only 2 bytes before the checksum
    // would start.
    let short = [0u8, 0, 0, 5, 82, 117, 83, 116, 1, 2];
    assert_eq!(Chunk::parse(&short).unwrap_err(), PngError::TruncatedRecord);
}

#[test]
fn test_record_with_invalid_type_code() {
    let buf = [0u8, 0, 0, 0, 82, 117, 49, 116, 0, 0, 0, 0];
    assert_eq!(Chunk::parse(&buf).unwrap_err(), PngError::InvalidTypeCode);
}

#[test]
fn test_data_as_string_invalid_encoding() {
    let chunk_type = ChunkType::from_text("RuSt").unwrap();
    let chunk = Chunk::new(chunk_type, vec![0xff, 0xfe, 0x00]);
    assert_eq!(chunk.data_as_string(), Err(PngError::InvalidEncoding));
}

#[test]
fn test_empty_payload() {
    let chunk_type = ChunkType::from_text("RuSt").unwrap();
    let chunk = Chunk::new(chunk_type, Vec::new());
    assert_eq!(chunk.length(), 0);
    assert_eq!(chunk.data_as_string().unwrap(), String::new());
    let (reparsed, consumed) = Chunk::parse(chunk.as_bytes().as_ref()).unwrap();
    assert_eq!(consumed, 12);
    assert_eq!(reparsed.crc(), chunk.crc());
}
