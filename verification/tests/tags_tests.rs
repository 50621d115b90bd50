use qmunlock::matching::{matches_embedded_tags, normalize_for_match, pick_matching_meta, same_song_name, SongMeta};
use qmunlock::tags::{has_readable_tags, id3_text, id3v2_tags, read_embedded_tags, synchsafe, vorbis_tags, EmbeddedTags};

fn vorbis(comments: &[&str]) -> Vec<u8> {
    let mut comment = Vec::new();
    let vendor = b"test";
    comment.extend_from_slice(&(vendor.len() as u32).to_le_bytes());
    comment.extend_from_slice(vendor);
    comment.extend_from_slice(&(comments.len() as u32).to_le_bytes());
    for entry in comments {
        comment.extend_from_slice(&(entry.len() as u32).to_le_bytes());
        comment.extend_from_slice(entry.as_bytes());
    }
    comment
}

fn tagged_flac() -> Vec<u8> {
    let comment = vorbis(&["TITLE=GLORIA", "ARTIST=G.E.M.邓紫棋", "ALBUM=启示录"]);
    let mut data = Vec::new();
    data.extend_from_slice(b"fLaC");
    data.push(0x00);
    data.extend_from_slice(&[0x00, 0x00, 34]);
    data.extend_from_slice(&[0u8; 34]);
    data.push(0x84);
    data.extend_from_slice(&((comment.len() as u32).to_be_bytes()[1..]));
    data.extend_from_slice(&comment);
    data.extend_from_slice(b"AUDIODATA");
    data
}

fn meta(title: &str, singers: &str) -> SongMeta {
    SongMeta {
        album_mid: "mid".into(),
        album: "启示录".into(),
        title: title.into(),
        singers: singers.into(),
        song_id: 1,
        song_mid: "mid".into(),
    }
}

#[test]
fn reads_flac_tags_and_validates_search_result() {
    let file = tagged_flac();
    let found = read_embedded_tags(Some("flac"), &file).expect("应读到 Vorbis 标签");
    assert_eq!(found.title, "GLORIA");
    assert_eq!(found.artist, "G.E.M.邓紫棋");
    assert_eq!(found.album, "启示录");

    let base = meta("GLORIA", "G.E.M.邓紫棋");
    assert!(matches_embedded_tags(&base, &found), "同名同歌手应匹配");
    let live = meta("GLORIA (Live)", "G.E.M.邓紫棋");
    assert!(matches_embedded_tags(&live, &found), "后缀差异应容忍");
    let wrong_title = meta("泡沫", "G.E.M.邓紫棋");
    assert!(!matches_embedded_tags(&wrong_title, &found), "标题不同应不匹配");
    let wrong_singer = meta("GLORIA", "其他人");
    assert!(!matches_embedded_tags(&wrong_singer, &found), "歌手不同应不匹配");
    assert!(
        matches_embedded_tags(&wrong_title, &EmbeddedTags::default()),
        "文件没有标签时维持原有按文件名检索的行为"
    );
}

#[test]
fn extension_case_and_other_types() {
    let file = tagged_flac();
    assert!(read_embedded_tags(Some("FLAC"), &file).is_some());
    assert!(read_embedded_tags(Some("ogg"), &file).is_none());
    assert!(read_embedded_tags(None, &file).is_none());
}

#[test]
fn vorbis_rules() {
    let t = vorbis_tags(&vorbis(&["title=a", "ALBUMARTIST=x", "ARTIST=y", "junk", "Album=b"])).unwrap();
    assert_eq!((t.title.as_str(), t.artist.as_str(), t.album.as_str()), ("a", "x", "b"));
    assert!(vorbis_tags(&vorbis(&["COMMENT=z"])).is_none());
    let mut truncated = vorbis(&["TITLE=abc"]);
    truncated.pop();
    assert!(vorbis_tags(&truncated).is_none());
    assert!(vorbis_tags(&[1, 0]).is_none());
    let t = vorbis_tags(&vorbis(&["TITLE=a=b"])).unwrap();
    assert_eq!(t.title, "a=b");
}

fn frame(id: &[u8; 4], body: &[u8]) -> Vec<u8> {
    let mut f = id.to_vec();
    f.extend_from_slice(&(body.len() as u32).to_be_bytes());
    f.extend_from_slice(&[0, 0]);
    f.extend_from_slice(body);
    f
}

#[test]
fn id3v2_frames() {
    let mut frames = Vec::new();
    frames.extend(frame(b"TIT2", b"\x03Song\0"));
    frames.extend(frame(b"TPE1", b"\x01\xFF\xFEA\0B\0"));
    frames.extend(frame(b"TPE1", b"\x03Other"));
    frames.extend(frame(b"TALB", b"\x02\0X\0Y"));
    frames.extend(frame(b"APIC", b"\x00junk"));
    frames.extend(frame(b"TALB", b"\x03ignored"));
    let mut data = b"ID3\x03\x00\x00".to_vec();
    let size = frames.len() as u32;
    data.extend_from_slice(&[(size >> 21) as u8 & 0x7F, (size >> 14) as u8 & 0x7F, (size >> 7) as u8 & 0x7F, size as u8 & 0x7F]);
    data.extend_from_slice(&frames);
    let t = id3v2_tags(&data).unwrap();
    assert_eq!(t.title, "Song");
    assert_eq!(t.artist, "AB");
    assert_eq!(t.album, "XY");
    assert!(read_embedded_tags(Some("mp3"), &data).is_some());
    assert!(id3v2_tags(b"ID2\x03\x00\x00\x00\x00\x00\x00").is_none());
}

#[test]
fn id3_text_encodings() {
    assert_eq!(id3_text(&[]), "");
    assert_eq!(id3_text(b"\x00  hi \0"), "hi");
    assert_eq!(id3_text(b"\x01\xFE\xFF\x00H\x00i"), "Hi");
    assert_eq!(id3_text(b"\x01H\x00i\x00"), "Hi");
    assert_eq!(id3_text(b"\x02\x00Z"), "Z");
    assert_eq!(id3_text(&[0u8, 0xE9]), "é");
    // UTF-16BE: a surrogate pair, then an unpaired high surrogate before 'A'.
    assert_eq!(id3_text(&[2u8, 0xD8, 0x3D, 0xDE, 0x00, 0xD8, 0x00, 0x00, 0x41]), "😀\u{FFFD}A");
    assert_eq!(id3_text(&[1u8, 0xFF, 0xFE, 0x00, 0xDC, 0x42, 0x00]), "\u{FFFD}B");
    assert_eq!(id3_text(&[3u8, 0xC3, 0xA9]), "é");
}

#[test]
fn matching_normal_form() {
    assert_eq!(normalize_for_match(" GLORIA (Live) "), "glorialive");
    assert_eq!(normalize_for_match("A-B_C，D"), "abcd");
    assert!(same_song_name("Gloria", "GLORIA (Live)"));
    assert!(same_song_name("GLORIA (Live)", "Gloria"));
    assert!(!same_song_name("()", "()"));
    assert!(!same_song_name("泡沫", "GLORIA"));
}

#[test]
fn matching_singers() {
    let mut tags = EmbeddedTags::default();
    tags.title = "GLORIA".into();
    tags.artist = "某某, G.E.M.邓紫棋".into();
    assert!(matches_embedded_tags(&meta("GLORIA", "G.E.M.邓紫棋、某某"), &tags));
    assert!(!matches_embedded_tags(&meta("GLORIA", "G.E.M.邓紫棋"), &tags));
    assert!(matches_embedded_tags(&meta("GLORIA", ""), &tags));
    tags.artist = "、x".into();
    assert!(matches_embedded_tags(&meta("GLORIA", "y"), &tags));
}

#[test]
fn picks_first_candidate_matching_the_tags() {
    let tags = EmbeddedTags { title: "GLORIA".into(), artist: "G.E.M.邓紫棋".into(), album: String::new() };
    let candidates = vec![meta("其他歌", "G.E.M.邓紫棋"), meta("GLORIA", "其他人"), meta("GLORIA (Live)", "G.E.M.邓紫棋"), meta("GLORIA", "G.E.M.邓紫棋")];
    let picked = pick_matching_meta(candidates.clone(), Some(&tags)).unwrap();
    assert_eq!(picked.title, "GLORIA (Live)");
    assert_eq!(pick_matching_meta(candidates.clone(), None).unwrap().title, "其他歌");
    assert!(pick_matching_meta(vec![meta("别的", "某人")], Some(&tags)).is_none());
    assert!(pick_matching_meta(Vec::new(), None).is_none());
}

#[test]
fn synchsafe_sizes() {
    assert_eq!(synchsafe(&[0x00, 0x00, 0x02, 0x01]), Some(257));
    assert_eq!(synchsafe(&[0xFF, 0xFF, 0xFF, 0xFF]), Some(0x0FFF_FFFF));
    assert_eq!(synchsafe(&[1, 2, 3]), None);
    assert_eq!(synchsafe(&[1, 2, 3, 4, 5]), None);
}

#[test]
fn readable_tag_formats() {
    assert!(has_readable_tags(Some("FLAC")));
    assert!(has_readable_tags(Some("mp3")));
    assert!(!has_readable_tags(Some("m4a")));
    assert!(!has_readable_tags(None));
}
