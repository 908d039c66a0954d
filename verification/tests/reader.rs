use png_codec::builder::PNGBuilder;
use png_codec::chunk::PNGChunk;
use png_codec::error::PNGError;
use png_codec::PNGReader;

fn sample_png() -> Vec<u8> {
    let ihdr_data: [u8; 13] = [0, 0, 0, 1, 0, 0, 0, 1, 8, 2, 0, 0, 0];
    PNGBuilder::new()
        .with_chunk(PNGChunk::new("IHDR", &ihdr_data).unwrap())
        .with_chunk(PNGChunk::new("IDAT", &[10, 20, 30]).unwrap())
        .build()
        .unwrap()
}

#[test]
fn reader_accepts_built_file() {
    let file = sample_png();
    let png = PNGReader::new(&file[..]).unwrap();
    assert!(png.validate_header().is_ok());
    assert!(png.validate_chunks().is_ok());
    let chunks = png.get_all_chunk_info();
    assert_eq!(chunks.len(), 3);
    assert_eq!("IHDR", chunks[0].get_chunk_type());
    assert_eq!("IDAT", chunks[1].get_chunk_type());
    assert_eq!("IEND", chunks[2].get_chunk_type());
}

#[test]
fn reader_round_trip() {
    let file = sample_png();
    let png = PNGReader::new(&file[..]).unwrap();
    let rebuilt = PNGBuilder::new().with_png(&png).build().unwrap();
    assert_eq!(file, rebuilt);
    let reparsed = PNGReader::new(&rebuilt[..]).unwrap();
    assert!(reparsed.validate_chunks().is_ok());
}

#[test]
fn reader_queries() {
    let ihdr_data: [u8; 13] = [0, 0, 0, 1, 0, 0, 0, 1, 8, 2, 0, 0, 0];
    let file = PNGBuilder::new()
        .with_chunk(PNGChunk::new("IHDR", &ihdr_data).unwrap())
        .with_chunk(PNGChunk::new("IDAT", &[1]).unwrap())
        .with_chunk(PNGChunk::new("IDAT", &[2]).unwrap())
        .build()
        .unwrap();
    let png = PNGReader::new(&file[..]).unwrap();
    let first = png.get_chunk_of_type("IDAT").unwrap();
    assert_eq!(first.get_chunk_data(), &[1]);
    let all = png.get_chunks_of_type("IDAT");
    assert_eq!(all.len(), 2);
    assert_eq!(all[0].get_chunk_data(), &[1]);
    assert_eq!(all[1].get_chunk_data(), &[2]);
    assert!(png.get_chunk_of_type("tIME").is_none());
}

#[test]
fn signature_corruption_rejected() {
    let mut file = sample_png();
    file[5] ^= 0xFF;
    assert_eq!(
        PNGReader::new(&file[..]).unwrap_err(),
        PNGError::MalformedSignature
    );
}

#[test]
fn short_buffer_rejected() {
    let file = [0x89u8, 0x50, 0x4E];
    assert_eq!(
        PNGReader::new(&file[..]).unwrap_err(),
        PNGError::MalformedSignature
    );
}

#[test]
fn truncation_is_explicit() {
    // Signature, then a chunk header declaring 1000 payload bytes while
    // only two bytes follow: strict reading reports the truncation.
    let file: Vec<u8> = vec![
        0x89, 0x50, 0x4E, 0x47, 0x0D, 0x0A, 0x1A, 0x0A, 0x00, 0x00, 0x03, 0xE8, b'I', b'D',
        b'A', b'T', 1, 2,
    ];
    assert_eq!(
        PNGReader::new(&file[..]).unwrap_err(),
        PNGError::TruncatedBuffer
    );
}

#[test]
fn missing_terminal_chunk_is_truncation() {
    let mut file = sample_png();
    // Cut off the terminal chunk entirely.
    file.truncate(file.len() - 12);
    assert_eq!(
        PNGReader::new(&file[..]).unwrap_err(),
        PNGError::TruncatedBuffer
    );
}

#[test]
fn invalid_type_in_stream_rejected() {
    let mut file = sample_png();
    // The second type byte of the first chunk sits at offset 13.  Type
    // validation precedes checksum validation, so the type error wins.
    file[13] = b'1';
    let err = PNGReader::new(&file[..]).unwrap_err();
    assert_eq!(err, PNGError::InvalidChunkType);
}

#[test]
fn crc_mismatch_is_aggregated() {
    let mut file = sample_png();
    // Corrupt the stored checksum of both the first and the second chunk:
    // IHDR occupies bytes 8..33, IDAT bytes 33..48, each ending in its
    // four checksum bytes.
    file[32] ^= 0xFF;
    file[47] ^= 0xFF;
    match PNGReader::new(&file[..]).unwrap_err() {
        PNGError::CrcMismatch(report) => {
            assert_eq!(report.len(), 2);
            assert_eq!(report[0].index, 0);
            assert_eq!(report[0].chunk_type, *b"IHDR");
            assert_eq!(report[0].length, 13);
            assert_ne!(report[0].stored_crc, report[0].computed_crc);
            assert_eq!(report[1].index, 1);
            assert_eq!(report[1].chunk_type, *b"IDAT");
            assert_eq!(report[1].length, 3);
        },
        other => panic!("expected an aggregated checksum report, got {:?}", other),
    }
}

#[test]
fn crc_mismatch_from_corrupt_payload() {
    let mut file = sample_png();
    // First payload byte of the IDAT chunk.
    file[41] ^= 0xFF;
    match PNGReader::new(&file[..]).unwrap_err() {
        PNGError::CrcMismatch(report) => {
            assert_eq!(report.len(), 1);
            assert_eq!(report[0].index, 1);
            assert_eq!(report[0].chunk_type, *b"IDAT");
        },
        other => panic!("expected an aggregated checksum report, got {:?}", other),
    }
}

#[test]
fn trailing_bytes_after_terminal_chunk_ignored() {
    let mut file = sample_png();
    file.extend_from_slice(&[0xDE, 0xAD, 0xBE, 0xEF]);
    let png = PNGReader::new(&file[..]).unwrap();
    assert_eq!(png.get_all_chunk_info().len(), 3);
}
