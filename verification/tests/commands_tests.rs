use qmunlock::commands::{
    after_decryption, succeeded_result, classify, cover_description, failed_result, join_notes, key_source, lyric_file_name,
    lyric_file_text, lyrics_directory, lyrics_note, needs_credentials, search_query,
    short_library_note, unique_copy_name, KeySource, LyricsOutcome,
};
use qmunlock::matching::SongMeta;
use qmunlock::media::{enc_path, plain_audio_path, supported_path, MusicExFooter};
use qmunlock::tags::EmbeddedTags;

#[test]
fn copy_target_avoids_source_and_existing_files() {
    let mut existing = vec!["song.flac".to_string()];
    let first = unique_copy_name("song.flac", "song", ".flac", true, &existing);
    assert_ne!(first, "song.flac");
    assert_eq!(first, "song 副本.flac");
    existing.push(first);
    let second = unique_copy_name("song.flac", "song", ".flac", true, &existing);
    assert_eq!(second, "song 副本 2.flac");
    assert_eq!(unique_copy_name("song.flac", "song", ".flac", false, &vec![]), "song.flac");
}

#[test]
fn copy_target_counts_on() {
    let existing = vec!["a".to_string(), "a 副本".to_string(), "a 副本 2".to_string()];
    assert_eq!(unique_copy_name("a", "a", "", false, &existing), "a 副本 3");
}

#[test]
fn file_kinds() {
    assert!(enc_path(Some("MFLAC")));
    assert!(enc_path(Some("mgg")));
    assert!(!enc_path(Some("flac")));
    assert!(plain_audio_path(Some("Opus")));
    assert!(!plain_audio_path(None));
    assert!(supported_path(Some("mmp4")));
    assert!(!supported_path(Some("txt")));
}

#[test]
fn classify_files() {
    let footer = MusicExFooter { audio_length: 9, song_mid: "mid".into(), filename: "x.flac".into() };
    let info = classify("/a.mflac", Some("mflac"), Some(Ok(footer)));
    assert!(info.supported);
    assert_eq!(info.kind, "enc");
    assert_eq!(info.format.as_deref(), Some("musicex/QMC2"));
    assert_eq!(info.song_mid.as_deref(), Some("mid"));
    let bad = classify("/a.mgg", Some("mgg"), Some(Err("坏".into())));
    assert!(!bad.supported);
    assert_eq!(bad.error.as_deref(), Some("坏"));
    let plain = classify("/a.FLAC", Some("FLAC"), None);
    assert_eq!((plain.kind.as_str(), plain.format.as_deref()), ("plain", Some("flac")));
    let other = classify("/a.txt", Some("txt"), None);
    assert_eq!(other.kind, "unknown");
    assert_eq!(other.error.as_deref(), Some("不支持的文件类型"));
}

#[test]
fn short_notes() {
    assert_eq!(short_library_note("已记下，稍后补做 QQ 音乐链接（x）"), "曲库待补做");
    assert_eq!(short_library_note("QQ 音乐链接未完成：x"), "曲库失败");
    assert_eq!(short_library_note("写入失败"), "曲库失败");
    assert_eq!(short_library_note("已链接到 QQ 音乐库"), "曲库");
}

#[test]
fn query_and_description() {
    let mut tags = EmbeddedTags::default();
    assert_eq!(search_query(Some(&tags), "stem"), "stem");
    tags.title = "T".into();
    assert_eq!(search_query(Some(&tags), "stem"), "T");
    tags.artist = "A".into();
    assert_eq!(search_query(Some(&tags), "stem"), "T A");
    assert_eq!(search_query(None, "stem"), "stem");
    let mut meta = SongMeta {
        album_mid: "m".into(), album: "al".into(), title: "T".into(), singers: "".into(), song_id: 1, song_mid: "s".into(),
    };
    assert_eq!(cover_description(&meta), "T");
    meta.singers = "A、B".into();
    assert_eq!(cover_description(&meta), "T - A、B");
    assert_eq!(join_notes(&vec![]), None);
    assert_eq!(join_notes(&vec!["a".into(), "b".into()]), Some("a · b".to_string()));
}

#[test]
fn lyric_files() {
    assert_eq!(lyric_file_name(Some("song")), "song.lrc");
    assert_eq!(lyric_file_name(None), "lyric.lrc");
    assert_eq!(lyric_file_text("a\r\nb\r\n\r\n  "), "a\nb\n");
    assert_eq!(lyric_file_text(""), "\n");
    assert_eq!(lyrics_directory(Some("  /lrc ")), Some("/lrc".to_string()));
    assert_eq!(lyrics_directory(Some("  ")), None);
    assert_eq!(lyrics_directory(None), None);
    let r = failed_result("in".into(), "err".into());
    assert!(!r.ok);
    assert_eq!(r.error.as_deref(), Some("err"));
}

#[test]
fn key_sources() {
    assert!(matches!(key_source(Some(" abc "), false), KeySource::Manual(k) if k == " abc "));
    assert!(matches!(key_source(Some("  "), true), KeySource::Fetch));
    assert!(matches!(key_source(None, true), KeySource::Fetch));
    assert!(matches!(
        key_source(None, false),
        KeySource::Missing(m) if m == "无法自动获取 ekey：请登录 QQ 音乐，或粘贴手动 ekey"
    ));
    assert!(needs_credentials(None));
    assert!(needs_credentials(Some(" \t")));
    assert!(!needs_credentials(Some("k")));
}

#[test]
fn lyrics_notes() {
    assert_eq!(lyrics_note(&LyricsOutcome::Written("a.lrc".into())), "歌词 a.lrc");
    assert_eq!(lyrics_note(&LyricsOutcome::NotFetched("超时".into())), "未获取歌词：超时");
    assert_eq!(lyrics_note(&LyricsOutcome::NotWritten("只读".into())), "未写入歌词：只读");
}

#[test]
fn results_after_decryption() {
    let r = succeeded_result("in".into(), "out".into(), "flac".into(), Some("c".into()), None, Some("曲库".into()));
    assert!(r.ok);
    assert_eq!(r.output.as_deref(), Some("out"));
    assert_eq!(r.format.as_deref(), Some("flac"));
    assert_eq!(r.error, None);
    assert_eq!((r.cover.as_deref(), r.lyrics.as_deref(), r.library.as_deref()), (Some("c"), None, Some("曲库")));
    let options = qmunlock::media::DecryptOptions {
        output_mode: qmunlock::media::OutputMode::Original,
        manual_ekey: None,
        embed_cover: false,
        fetch_lyrics: true,
        lyrics_dir: None,
        link_library: true,
        plain_copy: false,
    };
    assert_eq!(after_decryption(&options), (true, true));
}
