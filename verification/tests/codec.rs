use png_codec::chunk::PNGChunk;
use png_codec::chunk_header::ChunkHeader;
use png_codec::chunk_type::ChunkType;
use png_codec::crc::{crc, ChunkCRC};
use png_codec::error::PNGError;

#[test]
fn chunk_info_test() {
    let chunk = PNGChunk::new("teST", &[0, 1, 2, 3, 4, 5]).unwrap();

    let info = chunk.as_chunk_refs();

    assert_eq!("teST", info.get_chunk_type())
}

#[test]
fn crc_check_vector() {
    assert_eq!(crc(b"123456789"), 0xCBF43926);
}

#[test]
fn crc_empty_and_known_type() {
    assert_eq!(crc(&[]), 0);
    assert_eq!(crc(b"IEND"), 0xAE426082);
}

#[test]
fn crc_field_roundtrip() {
    let field = ChunkCRC::new(b"IEND");
    assert_eq!(field.get_crc(), 0xAE426082);
    assert!(field.is_valid_crc(b"IEND"));
    assert!(!field.is_valid_crc(b"IDAT"));
    let mut field = field;
    field.set_crc(b"123456789");
    assert_eq!(field.get_crc(), 0xCBF43926);
}

#[test]
fn property_bits_ancillary_private() {
    let text = ChunkType::new("tEXt").unwrap();
    assert!(text.is_ancillary());
    assert!(!text.is_private());
    assert!(!text.is_reserved());
    assert!(text.is_safe_to_copy());

    let ihdr = ChunkType::new("IHDR").unwrap();
    assert!(!ihdr.is_ancillary());
    assert!(!ihdr.is_private());
    assert!(!ihdr.is_reserved());
    assert!(!ihdr.is_safe_to_copy());
}

#[test]
fn chunk_type_validation() {
    assert!(ChunkType::validate_chunk_type("IDAT").is_ok());
    assert_eq!(
        ChunkType::validate_chunk_type("IDA").unwrap_err(),
        PNGError::InvalidChunkType
    );
    assert_eq!(
        ChunkType::validate_chunk_type("IDATX").unwrap_err(),
        PNGError::InvalidChunkType
    );
    assert_eq!(
        ChunkType::new("te1T").unwrap_err(),
        PNGError::InvalidChunkType
    );
    let mut t = ChunkType::new("IDAT").unwrap();
    assert_eq!(t.set_chunk_type("a!cd").unwrap_err(), PNGError::InvalidChunkType);
    assert_eq!(t.get_chunk_type(), *b"IDAT");
    t.set_chunk_type("abcd").unwrap();
    assert_eq!(t.get_chunk_type(), *b"abcd");
    assert!(t.validate().is_ok());
}

#[test]
fn chunk_header_basics() {
    let header = ChunkHeader::new(5, "IDAT").unwrap();
    assert_eq!(header.get_length(), 5);
    assert_eq!(header.get_chunk_type(), *b"IDAT");
    assert_eq!("IDAT", header.get_chunk_type_as_str());
    assert!(header.validate_chunk_type().is_ok());
    assert_eq!(
        ChunkHeader::new(5, "ID~T").unwrap_err(),
        PNGError::InvalidChunkType
    );
}

#[test]
fn chunk_header_length_boundary() {
    let mut header = ChunkHeader::new(0, "IDAT").unwrap();
    assert!(header.set_length(0x8000_0000));
    assert_eq!(header.get_length(), 0x8000_0000);
    assert!(!header.set_length(0x8000_0001));
    assert_eq!(header.get_length(), 0x8000_0000);
}

#[test]
fn png_chunk_construction() {
    let chunk = PNGChunk::new("teST", &[9, 8, 7]).unwrap();
    assert_eq!(chunk.get_length(), 3);
    assert_eq!("teST", chunk.get_chunk_type());
    assert_eq!(chunk.get_chunk_data(), &[9, 8, 7]);
    assert!(chunk.is_valid_crc());
    assert_eq!(chunk.get_crc(), chunk.calculate_crc());
    assert_eq!(
        PNGChunk::new("te1T", &[]).unwrap_err(),
        PNGError::InvalidChunkType
    );
}

#[test]
fn png_chunk_serialised_bytes() {
    let chunk = PNGChunk::new("IEND", &[]).unwrap();
    let bytes = chunk.as_slice();
    assert_eq!(
        bytes,
        vec![0, 0, 0, 0, 0x49, 0x45, 0x4E, 0x44, 0xAE, 0x42, 0x60, 0x82]
    );
}

#[test]
fn png_chunk_mutation_and_recompute() {
    let mut chunk = PNGChunk::new("IDAT", &[1, 2, 3, 4]).unwrap();
    {
        let data = chunk.get_chunk_data_mut();
        data[0] = 99;
    }
    assert!(!chunk.is_valid_crc());
    chunk.calculate_and_set_crc();
    assert!(chunk.is_valid_crc());
    assert_eq!(chunk.get_chunk_data(), &[99, 2, 3, 4]);
}

#[test]
fn png_chunk_set_length_and_type() {
    let mut chunk = PNGChunk::new("IDAT", &[1, 2]).unwrap();
    assert!(chunk.set_length(2));
    assert!(!chunk.set_length(0x8000_0001));
    assert_eq!(chunk.get_length(), 2);
    chunk.set_chunk_type("tIME").unwrap();
    assert_eq!("tIME", chunk.get_chunk_type());
    assert_eq!(
        chunk.set_chunk_type("t me").unwrap_err(),
        PNGError::InvalidChunkType
    );
}

#[test]
fn chunk_refs_view() {
    let chunk = PNGChunk::new("IDAT", &[5, 6]).unwrap();
    let refs = chunk.as_chunk_refs();
    assert_eq!(refs.get_length(), 2);
    assert_eq!(refs.get_chunk_data(), &[5, 6]);
    assert!(refs.validate_crc());
    assert_eq!(refs.get_crc(), refs.calculate_crc());
    assert_eq!(refs.get_crc(), chunk.get_crc());
}
