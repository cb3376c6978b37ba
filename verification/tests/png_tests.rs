use pngme::chunk::Chunk;
use pngme::chunk_type::ChunkType;
use pngme::error::PngError;
use pngme::png::Png;
use pngme::png::signature;

fn chunk_from(type_text: &str, message: &str) -> Chunk {
    let chunk_type = ChunkType::from_str(type_text).unwrap();
    Chunk::new(chunk_type, message.as_bytes().to_vec())
}

fn buffer_of(chunks: &[Chunk]) -> Vec<u8> {
    let mut buffer = signature();
    for chunk in chunks {
        buffer.extend_from_slice(&chunk.as_bytes());
    }
    buffer
}

#[test]
fn test_png_parse_and_serialize_round_trip() {
    let buffer = buffer_of(&[
        chunk_from("FrSt", "I am the first chunk"),
        chunk_from("miDl", "I am another chunk"),
        chunk_from("LASt", "I am the last chunk"),
    ]);
    let png = Png::try_from(buffer.as_ref()).unwrap();
    assert_eq!(png.chunks().len(), 3);
    assert_eq!(png.as_bytes(), buffer);
}

#[test]
fn test_png_parse_empty_chunk_stream() {
    let buffer = signature();
    let png = Png::try_from(buffer.as_ref()).unwrap();
    assert_eq!(png.chunks().len(), 0);
    assert_eq!(png.as_bytes(), buffer);
}

#[test]
fn test_png_bad_signature() {
    let mut buffer = signature();
    buffer[0] = 0;
    let result = Png::try_from(buffer.as_ref());
    assert_eq!(result.unwrap_err(), PngError::BadSignature);

    let short = [137u8, 80, 78];
    let result = Png::try_from(&short[..]);
    assert_eq!(result.unwrap_err(), PngError::BadSignature);
}

#[test]
fn test_png_truncated_chunk_stream() {
    let mut buffer = signature();
    buffer.extend_from_slice(&[0, 0, 0]);
    let result = Png::try_from(buffer.as_ref());
    assert_eq!(result.unwrap_err(), PngError::TruncatedChunk);

    let mut buffer = signature();
    // A frame that promises 100 payload bytes but carries none.
    buffer.extend_from_slice(&100u32.to_be_bytes());
    buffer.extend_from_slice("TeSt".as_bytes());
    buffer.extend_from_slice(&[0, 0, 0, 0]);
    let result = Png::try_from(buffer.as_ref());
    assert_eq!(result.unwrap_err(), PngError::TruncatedChunk);
}

#[test]
fn test_png_propagates_checksum_mismatch() {
    let mut buffer = buffer_of(&[chunk_from("FrSt", "payload")]);
    let last = buffer.len() - 1;
    buffer[last] ^= 0xff;
    let result = Png::try_from(buffer.as_ref());
    assert_eq!(result.unwrap_err(), PngError::ChecksumMismatch);
}

#[test]
fn test_png_remove_first_of_two_same_type() {
    let buffer = buffer_of(&[
        chunk_from("RuSt", "the first occurrence"),
        chunk_from("RuSt", "the second occurrence"),
        chunk_from("oThr", "unrelated"),
    ]);
    let mut png = Png::try_from(buffer.as_ref()).unwrap();

    let removed = png.remove_first_chunk("RuSt").unwrap();
    assert_eq!(removed.data_as_string().unwrap(), "the first occurrence");

    let chunks = png.chunks();
    assert_eq!(chunks.len(), 2);
    assert_eq!(chunks[0].chunk_type().to_text(), "RuSt");
    assert_eq!(chunks[0].data_as_string().unwrap(), "the second occurrence");
    assert_eq!(chunks[1].chunk_type().to_text(), "oThr");
}

#[test]
fn test_png_remove_not_found_leaves_container_unchanged() {
    let buffer = buffer_of(&[chunk_from("FrSt", "only chunk")]);
    let mut png = Png::try_from(buffer.as_ref()).unwrap();

    let result = png.remove_first_chunk("NoNe");
    assert_eq!(result.unwrap_err(), PngError::ChunkNotFound);
    assert_eq!(png.chunks().len(), 1);
    assert_eq!(png.as_bytes(), buffer);
}

#[test]
fn test_png_append_chunk() {
    let buffer = buffer_of(&[chunk_from("FrSt", "already here")]);
    let mut png = Png::try_from(buffer.as_ref()).unwrap();

    png.append_chunk(chunk_from("TeSt", "newly appended"));
    assert_eq!(png.chunks().len(), 2);
    let found = png.chunk_by_type("TeSt").unwrap();
    assert_eq!(found.data_as_string().unwrap(), "newly appended");
}

#[test]
fn test_png_chunk_by_type_finds_first() {
    let chunks = vec![
        chunk_from("RuSt", "first"),
        chunk_from("RuSt", "second"),
    ];
    let png = Png::from_chunks(chunks);
    let found = png.chunk_by_type("RuSt").unwrap();
    assert_eq!(found.data_as_string().unwrap(), "first");
    assert!(png.chunk_by_type("NoNe").is_none());
}

#[test]
fn test_png_secret_message_scenario() {
    let message = "This is where your secret message will be!";
    let buffer = buffer_of(&[chunk_from("oThr", "noise")]);
    let mut png = Png::try_from(buffer.as_ref()).unwrap();

    png.append_chunk(chunk_from("RuSt", message));
    let serialized = png.as_bytes();

    let reread = Png::try_from(serialized.as_ref()).unwrap();
    let secret = reread.chunk_by_type("RuSt").unwrap();
    assert_eq!(secret.length(), 42);
    assert_eq!(secret.crc(), 2882656334);
    assert_eq!(secret.data_as_string().unwrap(), message);
}
