use qmunlock::cover::{embed_cover, EmbedError};
use qmunlock::flac::{read_blocks, write_blocks, FlacError, MetadataBlock, BLOCK_PICTURE, BLOCK_VORBIS_COMMENT};
use qmunlock::picture::{build_picture_block, jpeg_dimensions, png_dimensions, read_picture_type};
use qmunlock::stream_info::{flac_stream_info, parse_stream_info, quality_markers};

/// A minimal FLAC: STREAMINFO + VORBIS_COMMENT + PADDING + fake audio.
fn sample() -> Vec<u8> {
    let mut data = Vec::new();
    data.extend_from_slice(b"fLaC");
    data.push(0x00);
    data.extend_from_slice(&[0x00, 0x00, 34]);
    data.extend_from_slice(&[0u8; 34]);
    data.push(BLOCK_VORBIS_COMMENT);
    data.extend_from_slice(&[0x00, 0x00, 4]);
    data.extend_from_slice(b"a=bc");
    data.push(0x81);
    data.extend_from_slice(&[0x00, 0x00, 2]);
    data.extend_from_slice(&[0u8, 0u8]);
    data.extend_from_slice(b"AUDIODATA");
    data
}

fn tiny_jpeg() -> Vec<u8> {
    let mut data = vec![0xFF, 0xD8];
    data.extend_from_slice(&[
        0xFF, 0xC0, 0x00, 0x11, 0x08, 0x00, 0x10, 0x00, 0x20, 0x03, 0x01, 0x11, 0x00, 0x02, 0x11,
        0x00, 0x03, 0x11, 0x00,
    ]);
    data.extend_from_slice(&[0xFF, 0xD9]);
    data
}

fn picture_block(kind: u32) -> Vec<u8> {
    let mut data = Vec::new();
    data.extend_from_slice(&kind.to_be_bytes());
    let mime = b"image/jpeg";
    data.extend_from_slice(&(mime.len() as u32).to_be_bytes());
    data.extend_from_slice(mime);
    let desc = b"cover";
    data.extend_from_slice(&(desc.len() as u32).to_be_bytes());
    data.extend_from_slice(desc);
    data.extend_from_slice(&[0u8; 16]);
    let body = tiny_jpeg();
    data.extend_from_slice(&(body.len() as u32).to_be_bytes());
    data.extend_from_slice(&body);
    data
}

/// A FLAC with Vorbis tags, a back cover and a front cover.
fn tagged_sample() -> Vec<u8> {
    let comments = ["TITLE=GLORIA", "ARTIST=G.E.M.邓紫棋", "ALBUM=启示录"];
    let mut comment = Vec::new();
    let vendor = b"test";
    comment.extend_from_slice(&(vendor.len() as u32).to_le_bytes());
    comment.extend_from_slice(vendor);
    comment.extend_from_slice(&(comments.len() as u32).to_le_bytes());
    for entry in comments {
        comment.extend_from_slice(&(entry.len() as u32).to_le_bytes());
        comment.extend_from_slice(entry.as_bytes());
    }
    let mut data = Vec::new();
    data.extend_from_slice(b"fLaC");
    data.push(0x00);
    data.extend_from_slice(&[0x00, 0x00, 34]);
    data.extend_from_slice(&[0u8; 34]);
    data.push(BLOCK_VORBIS_COMMENT);
    data.extend_from_slice(&((comment.len() as u32).to_be_bytes()[1..]));
    data.extend_from_slice(&comment);
    data.push(BLOCK_PICTURE);
    let back = picture_block(4);
    data.extend_from_slice(&((back.len() as u32).to_be_bytes()[1..]));
    data.extend_from_slice(&back);
    data.push(0x80 | BLOCK_PICTURE);
    let front = picture_block(3);
    data.extend_from_slice(&((front.len() as u32).to_be_bytes()[1..]));
    data.extend_from_slice(&front);
    data.extend_from_slice(b"AUDIODATA");
    data
}

fn is_front(block: &MetadataBlock) -> bool {
    block.kind == BLOCK_PICTURE && read_picture_type(&block.data) == 3
}

#[test]
fn jpeg_size_parsing() {
    assert_eq!(jpeg_dimensions(&tiny_jpeg()), (32, 16));
}

#[test]
fn parses_stream_info_fields() {
    let bits: u64 = (192_000u64 << 44) | (1u64 << 41) | (23u64 << 36) | 480_000;
    let mut data = vec![0u8; 34];
    data[10..18].copy_from_slice(&bits.to_be_bytes());
    assert_eq!(parse_stream_info(&data), Some((192_000, 24)));
    assert_eq!(parse_stream_info(&[0u8; 8]), None);
}

#[test]
fn embeds_cover_and_keeps_audio() {
    let file = sample();
    let jpeg = tiny_jpeg();
    let out = embed_cover(&file, &jpeg, "专辑").unwrap();

    let meta = read_blocks(&out).unwrap();
    let pictures: Vec<_> = meta.blocks.iter().filter(|b| b.kind == BLOCK_PICTURE).collect();
    assert_eq!(pictures.len(), 1, "应当只有一张封面");
    assert!(pictures[0].data.len() > jpeg.len(), "PICTURE 块应包含图片与头部字段");
    let audio_length = out.len() - meta.audio_offset;
    assert_eq!(audio_length, b"AUDIODATA".len(), "音频区不能变动");

    let again = embed_cover(&out, &jpeg, "专辑").unwrap();
    let meta = read_blocks(&again).unwrap();
    assert_eq!(meta.blocks.iter().filter(|b| b.kind == BLOCK_PICTURE).count(), 1);
}

#[test]
fn replaces_only_front_cover_and_keeps_others() {
    let file = tagged_sample();
    let out = embed_cover(&file, &tiny_jpeg(), "新封面").unwrap();
    let meta = read_blocks(&out).unwrap();
    let fronts = meta.blocks.iter().filter(|b| is_front(b)).count();
    let others = meta.blocks.iter().filter(|b| b.kind == BLOCK_PICTURE && !is_front(b)).count();
    assert_eq!(fronts, 1, "正面封面应只有一张");
    assert_eq!(others, 1, "封底等其他内嵌图片必须保留");
    assert_eq!(out.len() - meta.audio_offset, b"AUDIODATA".len(), "音频区不能变动");
}

#[test]
fn embedding_the_same_cover_twice_changes_nothing() {
    for file in [sample(), tagged_sample()] {
        let once = embed_cover(&file, &tiny_jpeg(), "专辑").unwrap();
        let twice = embed_cover(&once, &tiny_jpeg(), "专辑").unwrap();
        assert_eq!(once, twice);
    }
}

#[test]
fn cover_goes_after_vorbis_comment() {
    let out = embed_cover(&sample(), &tiny_jpeg(), "d").unwrap();
    let kinds: Vec<u8> = read_blocks(&out).unwrap().blocks.iter().map(|b| b.kind).collect();
    assert_eq!(kinds, vec![0, BLOCK_VORBIS_COMMENT, BLOCK_PICTURE, 1]);
    assert!(out.ends_with(b"AUDIODATA"));
}

#[test]
fn cover_goes_after_first_block_without_comment() {
    let mut file = Vec::new();
    file.extend_from_slice(b"fLaC");
    file.push(0x80);
    file.extend_from_slice(&[0, 0, 2, 7, 7]);
    file.extend_from_slice(b"xyz");
    let out = embed_cover(&file, &tiny_jpeg(), "d").unwrap();
    let meta = read_blocks(&out).unwrap();
    let kinds: Vec<u8> = meta.blocks.iter().map(|b| b.kind).collect();
    assert_eq!(kinds, vec![0, BLOCK_PICTURE]);
    assert_eq!(&out[meta.audio_offset..], b"xyz");
}

#[test]
fn embed_rejects_non_flac_and_truncated() {
    assert_eq!(embed_cover(b"ID3\x03rest", &tiny_jpeg(), "d"), Err(EmbedError::NotFlac));
    assert_eq!(embed_cover(b"fL", &tiny_jpeg(), "d"), Err(EmbedError::Truncated));
    assert_eq!(embed_cover(b"fLaC\x80\x00\x00\x09ab", &tiny_jpeg(), "d"), Err(EmbedError::Truncated));
}

#[test]
fn blocks_round_trip() {
    let blocks = vec![
        MetadataBlock { kind: 0, data: vec![1, 2, 3] },
        MetadataBlock { kind: 4, data: vec![] },
        MetadataBlock { kind: 6, data: vec![9; 300] },
    ];
    let mut bytes = write_blocks(&blocks);
    assert_eq!(&bytes[..8], &[0x66, 0x4C, 0x61, 0x43, 0x00, 0x00, 0x00, 0x03]);
    bytes.extend_from_slice(b"tail");
    let meta = read_blocks(&bytes).unwrap();
    assert_eq!(meta.blocks.len(), 3);
    for (a, b) in meta.blocks.iter().zip(blocks.iter()) {
        assert_eq!(a.kind, b.kind);
        assert_eq!(a.data, b.data);
    }
    assert_eq!(&bytes[meta.audio_offset..], b"tail");
    assert_eq!(bytes[4 + 7], 4);
    assert_eq!(bytes[4 + 7 + 4], 0x86);
}

#[test]
fn read_blocks_errors() {
    assert_eq!(read_blocks(b"abc").err(), Some(FlacError::Truncated));
    assert_eq!(read_blocks(b"OggS....").err(), Some(FlacError::NotFlac));
    assert_eq!(read_blocks(b"fLaC\x00\x00\x00\x00").err(), Some(FlacError::Truncated));
}

#[test]
fn picture_block_layout() {
    let jpeg = tiny_jpeg();
    let block = build_picture_block(&jpeg, "ab");
    let mut expected = Vec::new();
    expected.extend_from_slice(&3u32.to_be_bytes());
    expected.extend_from_slice(&10u32.to_be_bytes());
    expected.extend_from_slice(b"image/jpeg");
    expected.extend_from_slice(&2u32.to_be_bytes());
    expected.extend_from_slice(b"ab");
    expected.extend_from_slice(&32u32.to_be_bytes());
    expected.extend_from_slice(&16u32.to_be_bytes());
    expected.extend_from_slice(&24u32.to_be_bytes());
    expected.extend_from_slice(&0u32.to_be_bytes());
    expected.extend_from_slice(&(jpeg.len() as u32).to_be_bytes());
    expected.extend_from_slice(&jpeg);
    assert_eq!(block, expected);
}

#[test]
fn png_picture_uses_ihdr_size() {
    let mut png = vec![0x89, b'P', b'N', b'G', 0x0D, 0x0A, 0x1A, 0x0A, 0, 0, 0, 13];
    png.extend_from_slice(b"IHDR");
    png.extend_from_slice(&640u32.to_be_bytes());
    png.extend_from_slice(&480u32.to_be_bytes());
    assert_eq!(png_dimensions(&png), (640, 480));
    let block = build_picture_block(&png, "");
    assert_eq!(&block[8..17], b"image/png");
    assert_eq!(&block[21..25], &640u32.to_be_bytes());
    assert_eq!(png_dimensions(&png[..20]), (0, 0));
}

#[test]
fn jpeg_without_frame_header_has_no_size() {
    assert_eq!(jpeg_dimensions(&[0xFF, 0xD8, 0xFF, 0xD9]), (0, 0));
    let mut data = vec![0xFF, 0xD8, 0xFF, 0xE0, 0x00, 0x04, 0xAA, 0xBB];
    data.extend_from_slice(&[0xFF, 0xC2, 0x00, 0x11, 0x08, 0x01, 0x00, 0x02, 0x00, 0x03, 0, 0]);
    assert_eq!(jpeg_dimensions(&data), (512, 256));
}

#[test]
fn stream_info_of_file_and_quality() {
    let bits: u64 = (44_100u64 << 44) | (1u64 << 41) | (15u64 << 36);
    let mut info = vec![0u8; 34];
    info[10..18].copy_from_slice(&bits.to_be_bytes());
    let mut file = b"fLaC".to_vec();
    file.push(0x80);
    file.extend_from_slice(&[0, 0, 34]);
    file.extend_from_slice(&info);
    assert_eq!(flac_stream_info(&file), Some((44_100, 16)));
    assert_eq!(quality_markers(44_100, 16), Some((2, 7)));
    assert_eq!(quality_markers(192_000, 24), Some((7, 204)));
    assert_eq!(quality_markers(176_400, 24), Some((7, 204)));
    assert_eq!(quality_markers(48_000, 24), None);
    assert_eq!(quality_markers(44_100, 24), None);
    assert_eq!(flac_stream_info(b"nope"), None);
}
