use png_codec::builder::PNGBuilder;
use png_codec::chunk::PNGChunk;
use png_codec::error::PNGError;
use png_codec::ihdr::{IHDRDetails, IHDR};
use png_codec::PNGReader;

fn ihdr_chunk() -> PNGChunk {
    let ihdr_data: [u8; 13] = [0, 0, 1, 0xCC, 0, 0, 1, 0x33, 8, 2, 0, 0, 0];
    PNGChunk::new("IHDR", &ihdr_data).unwrap()
}

#[test]
fn builder_drops_iend() {
    let file = PNGBuilder::new()
        .with_chunk(ihdr_chunk())
        .with_chunk(PNGChunk::new("IEND", &[]).unwrap())
        .with_chunk(PNGChunk::new("IDAT", &[1, 2]).unwrap())
        .build()
        .unwrap();
    let png = PNGReader::new(&file[..]).unwrap();
    let chunks = png.get_all_chunk_info();
    // The appended IEND never shows up in the middle; only the builder's
    // own terminal one remains.
    assert_eq!(chunks.len(), 3);
    assert_eq!("IHDR", chunks[0].get_chunk_type());
    assert_eq!("IDAT", chunks[1].get_chunk_type());
    assert_eq!("IEND", chunks[2].get_chunk_type());
    assert_eq!(png.get_chunks_of_type("IEND").len(), 1);
}

#[test]
fn missing_header_on_empty_builder() {
    assert_eq!(
        PNGBuilder::new().build().unwrap_err(),
        PNGError::MissingHeader
    );
}

#[test]
fn missing_header_on_wrong_first_chunk() {
    let r = PNGBuilder::new()
        .with_chunk(PNGChunk::new("tEXt", &[1, 2, 3]).unwrap())
        .build();
    assert_eq!(r.unwrap_err(), PNGError::MissingHeader);
}

#[test]
fn failed_build_leaves_builder_usable() {
    let builder = PNGBuilder::new().with_chunk(PNGChunk::new("tEXt", &[7]).unwrap());
    assert_eq!(builder.build().unwrap_err(), PNGError::MissingHeader);
    // The failed attempt changed nothing; a later fix still works on a
    // fresh builder carrying the header first.
    let fixed = PNGBuilder::new()
        .with_chunk(ihdr_chunk())
        .with_chunk(PNGChunk::new("tEXt", &[7]).unwrap());
    assert!(fixed.build().is_ok());
}

#[test]
fn builder_with_chunks_keeps_order() {
    let chunks = vec![
        ihdr_chunk(),
        PNGChunk::new("IEND", &[]).unwrap(),
        PNGChunk::new("IDAT", &[5]).unwrap(),
        PNGChunk::new("IDAT", &[6]).unwrap(),
    ];
    let file = PNGBuilder::new().with_chunks(chunks).build().unwrap();
    let png = PNGReader::new(&file[..]).unwrap();
    let all = png.get_chunks_of_type("IDAT");
    assert_eq!(all.len(), 2);
    assert_eq!(all[0].get_chunk_data(), &[5]);
    assert_eq!(all[1].get_chunk_data(), &[6]);
    assert_eq!(png.get_chunks_of_type("IEND").len(), 1);
}

#[test]
fn ihdr_table_enforcement() {
    // Palette images cannot be 16 bits deep.
    assert_eq!(
        IHDRDetails::new(16, 3, 0, 0, 0).unwrap_err(),
        PNGError::IncompatibleBitDepthForColorType
    );
    // Truecolor at 16 bits is fine.
    let details = IHDRDetails::new(16, 2, 0, 0, 0).unwrap();
    // A zero width is rejected.
    assert_eq!(
        IHDR::new(0, 100, details).unwrap_err(),
        PNGError::InvalidDimension
    );
    assert!(IHDR::new(100, 100, details).is_ok());
}

#[test]
fn ihdr_detail_errors() {
    assert_eq!(
        IHDRDetails::new(3, 0, 0, 0, 0).unwrap_err(),
        PNGError::InvalidBitDepth
    );
    assert_eq!(
        IHDRDetails::new(8, 1, 0, 0, 0).unwrap_err(),
        PNGError::InvalidColorType
    );
    assert_eq!(
        IHDRDetails::new(8, 0, 1, 0, 0).unwrap_err(),
        PNGError::InvalidCompressionMethod
    );
    assert_eq!(
        IHDRDetails::new(8, 0, 0, 1, 0).unwrap_err(),
        PNGError::InvalidFilterMethod
    );
    assert_eq!(
        IHDRDetails::new(8, 0, 0, 0, 2).unwrap_err(),
        PNGError::InvalidInterlaceMethod
    );
    assert!(IHDRDetails::new(8, 0, 0, 0, 1).is_ok());
}

#[test]
fn ihdr_decode_from_chunk() {
    let chunk = ihdr_chunk();
    let header = IHDR::from_chunk_refs(chunk.as_chunk_refs()).unwrap();
    assert_eq!(header.get_width(), 460);
    assert_eq!(header.get_height(), 307);
    assert!(header.validate().is_ok());
    assert!(header.validate_dimensions().is_ok());

    let not_ihdr = PNGChunk::new("IDAT", &[0; 13]).unwrap();
    assert!(IHDR::from_chunk_refs(not_ihdr.as_chunk_refs()).is_none());
    let wrong_len = PNGChunk::new("IHDR", &[0; 12]).unwrap();
    assert!(IHDR::from_chunk_refs(wrong_len.as_chunk_refs()).is_none());
}

#[test]
fn ihdr_dimension_setters() {
    let details = IHDRDetails::new(8, 2, 0, 0, 0).unwrap();
    let mut header = IHDR::new(10, 20, details).unwrap();
    assert!(header.set_width(77));
    assert!(!header.set_width(0));
    assert_eq!(header.get_width(), 77);
    assert!(header.set_height(88));
    assert!(!header.set_height(-3));
    assert_eq!(header.get_height(), 88);
}

#[test]
fn ihdr_detail_setters() {
    let mut details = IHDRDetails::new(8, 2, 0, 0, 0).unwrap();
    assert_eq!(details.get_bit_depth(), 8);
    assert_eq!(details.get_color_type(), 2);
    assert_eq!(details.get_compression_method(), 0);
    assert_eq!(details.get_filter_method(), 0);
    assert_eq!(details.get_interlace_method(), 0);

    details.set_bit_depth(16).unwrap();
    assert_eq!(details.get_bit_depth(), 16);
    assert_eq!(
        details.set_bit_depth(4).unwrap_err(),
        PNGError::IncompatibleBitDepthForColorType
    );
    details.set_color_type(0).unwrap();
    assert_eq!(details.get_color_type(), 0);
    details.set_bit_depth_and_color_type(3, 4).unwrap();
    assert_eq!(details.get_color_type(), 3);
    assert_eq!(details.get_bit_depth(), 4);
    assert!(details.set_compression_method(0));
    assert!(!details.set_compression_method(5));
    assert!(details.set_filter_method(0));
    assert!(!details.set_filter_method(5));
    details.set_interlace_method(1).unwrap();
    assert_eq!(details.get_interlace_method(), 1);
    assert_eq!(
        details.set_interlace_method(7).unwrap_err(),
        PNGError::InvalidInterlaceMethod
    );
    assert!(details.validate().is_ok());
}

#[test]
fn ihdr_sample_depth() {
    let palette = IHDRDetails::new(4, 3, 0, 0, 0).unwrap();
    assert_eq!(palette.get_sample_depth(), 8);
    let gray = IHDRDetails::new(4, 0, 0, 0, 0).unwrap();
    assert_eq!(gray.get_sample_depth(), 4);
}
