use pngme::chunk::Chunk;
use pngme::chunk_type::ChunkType;
use pngme::error::PngError;

fn testing_chunk() -> Chunk {
    let data_length: u32 = 42;
    let chunk_type = "RuSt".as_bytes();
    let message_bytes = "This is where your secret message will be!".as_bytes();
    let crc: u32 = 2882656334;

    let chunk_data: Vec<u8> = data_length
        .to_be_bytes()
        .iter()
        .chain(chunk_type.iter())
        .chain(message_bytes.iter())
        .chain(crc.to_be_bytes().iter())
        .copied()
        .collect();

    Chunk::try_from(chunk_data.as_ref()).unwrap()
}

#[test]
fn test_new_chunk() {
    let chunk_type = ChunkType::from_str("RuSt").unwrap();
    let data = "This is where your secret message will be!"
        .as_bytes()
        .to_vec();
    let chunk = Chunk::new(chunk_type, data);
    assert_eq!(chunk.length(), 42);
    assert_eq!(chunk.crc(), 2882656334);
}

#[test]
fn test_chunk_length() {
    let chunk = testing_chunk();
    assert_eq!(chunk.length(), 42);
}

#[test]
fn test_chunk_type() {
    let chunk = testing_chunk();
    assert_eq!(chunk.chunk_type().to_text(), String::from("RuSt"));
}

#[test]
fn test_chunk_string() {
    let chunk = testing_chunk();
    let chunk_string = chunk.data_as_string().unwrap();
    let expected_chunk_string = String::from("This is where your secret message will be!");
    assert_eq!(chunk_string, expected_chunk_string);
}

#[test]
fn test_chunk_crc() {
    let chunk = testing_chunk();
    assert_eq!(chunk.crc(), 2882656334);
}

#[test]
fn test_valid_chunk_from_bytes() {
    let data_length: u32 = 42;
    let chunk_type = "RuSt".as_bytes();
    let message_bytes = "This is where your secret message will be!".as_bytes();
    let crc: u32 = 2882656334;

    let chunk_data: Vec<u8> = data_length
        .to_be_bytes()
        .iter()
        .chain(chunk_type.iter())
        .chain(message_bytes.iter())
        .chain(crc.to_be_bytes().iter())
        .copied()
        .collect();

    let chunk = Chunk::try_from(chunk_data.as_ref()).unwrap();

    let chunk_string = chunk.data_as_string().unwrap();
    let expected_chunk_string = String::from("This is where your secret message will be!");

    assert_eq!(chunk.length(), 42);
    assert_eq!(chunk.chunk_type().to_text(), String::from("RuSt"));
    assert_eq!(chunk_string, expected_chunk_string);
    assert_eq!(chunk.crc(), 2882656334);
}

#[test]
fn test_invalid_chunk_from_bytes() {
    let data_length: u32 = 42;
    let chunk_type = "RuSt".as_bytes();
    let message_bytes = "This is where your secret message will be!".as_bytes();
    let crc: u32 = 2882656333;

    let chunk_data: Vec<u8> = data_length
        .to_be_bytes()
        .iter()
        .chain(chunk_type.iter())
        .chain(message_bytes.iter())
        .chain(crc.to_be_bytes().iter())
        .copied()
        .collect();

    let chunk = Chunk::try_from(chunk_data.as_ref());

    assert!(chunk.is_err());
}

#[test]
pub fn test_chunk_trait_impls() {
    let data_length: u32 = 42;
    let chunk_type = "RuSt".as_bytes();
    let message_bytes = "This is where your secret message will be!".as_bytes();
    let crc: u32 = 2882656334;

    let chunk_data: Vec<u8> = data_length
        .to_be_bytes()
        .iter()
        .chain(chunk_type.iter())
        .chain(message_bytes.iter())
        .chain(crc.to_be_bytes().iter())
        .copied()
        .collect();

    let chunk: Chunk = Chunk::try_from(chunk_data.as_ref()).unwrap();

    let _chunk_string = format!(
        "length {} type {} crc {:#010x}",
        chunk.length(),
        chunk.chunk_type().to_text(),
        chunk.crc()
    );
}

#[test]
fn test_chunk_round_trip() {
    let chunk_type = ChunkType::from_str("TeSt").unwrap();
    let data = vec![1u8, 2, 3, 4, 5];
    let chunk = Chunk::new(chunk_type, data.clone());
    let encoded = chunk.as_bytes();
    assert_eq!(encoded.len(), 12 + data.len());

    let reparsed = Chunk::try_from(encoded.as_ref()).unwrap();
    assert_eq!(reparsed.length(), chunk.length());
    assert_eq!(reparsed.chunk_type().bytes(), chunk.chunk_type().bytes());
    assert_eq!(reparsed.chunk_data(), chunk.chunk_data());
    assert_eq!(reparsed.crc(), chunk.crc());
}

#[test]
fn test_chunk_truncated() {
    let short = [0u8; 11];
    let result = Chunk::try_from(&short[..]);
    assert_eq!(result.unwrap_err(), PngError::TruncatedChunk);

    let empty: [u8; 0] = [];
    let result = Chunk::try_from(&empty[..]);
    assert_eq!(result.unwrap_err(), PngError::TruncatedChunk);
}

#[test]
fn test_chunk_checksum_mismatch_error_kind() {
    let mut buffer: Vec<u8> = Vec::new();
    buffer.extend_from_slice(&3u32.to_be_bytes());
    buffer.extend_from_slice("TeSt".as_bytes());
    buffer.extend_from_slice(&[9, 9, 9]);
    buffer.extend_from_slice(&[0, 0, 0, 0]);
    let result = Chunk::try_from(buffer.as_ref());
    assert_eq!(result.unwrap_err(), PngError::ChecksumMismatch);
}

#[test]
fn test_chunk_checksum_changes_with_data() {
    let base = "The quick brown fox jumps over the lazy dog".as_bytes().to_vec();
    let base_crc = Chunk::new(ChunkType::from_str("RuSt").unwrap(), base.clone()).crc();
    for position in [0usize, 7, 21, 42] {
        let mut mutated = base.clone();
        let index = position % mutated.len();
        mutated[index] ^= 0x01;
        let crc = Chunk::new(ChunkType::from_str("RuSt").unwrap(), mutated).crc();
        assert_ne!(crc, base_crc);
    }
}

#[test]
fn test_chunk_checksum_deterministic() {
    let data = "same payload".as_bytes().to_vec();
    let a = Chunk::new(ChunkType::from_str("RuSt").unwrap(), data.clone());
    let b = Chunk::new(ChunkType::from_str("RuSt").unwrap(), data);
    assert_eq!(a.crc(), b.crc());
}

#[test]
fn test_chunk_non_utf8_payload() {
    let chunk = Chunk::new(ChunkType::from_str("RuSt").unwrap(), vec![0xff, 0xfe, 0x00]);
    assert_eq!(chunk.data_as_string().unwrap_err(), PngError::NonUtf8Payload);
}

#[test]
fn test_chunk_ignores_declared_length_field() {
    // The length field up front says 7, but only 3 payload bytes are present;
    // the parsed length comes from the slice bounds, not the field.
    let crc_input: Vec<u8> = "TeSt".bytes().chain([1u8, 2, 3]).collect();
    let crc = crc32_of(&crc_input);
    let mut buffer: Vec<u8> = Vec::new();
    buffer.extend_from_slice(&7u32.to_be_bytes());
    buffer.extend_from_slice("TeSt".as_bytes());
    buffer.extend_from_slice(&[1, 2, 3]);
    buffer.extend_from_slice(&crc.to_be_bytes());
    let chunk = Chunk::try_from(buffer.as_ref()).unwrap();
    assert_eq!(chunk.length(), 3);
    assert_eq!(chunk.chunk_data(), &[1, 2, 3]);
}

fn crc32_of(bytes: &[u8]) -> u32 {
    crc::Crc::<u32>::new(&crc::CRC_32_ISO_HDLC).checksum(bytes)
}
