use qmunlock::enhance::{advance, new_enhancement, report, unresolved_notes, EnhanceAction, EnhanceEvent};

#[test]
fn mp3_off_macos_notes_the_unembeddable_cover() {
    let mut e = new_enhancement(true, true, true, false, false, "启示录".to_owned(), "MP3".to_owned());
    assert_eq!(advance(&mut e, EnhanceEvent::Started), EnhanceAction::FetchCover);
    assert_eq!(advance(&mut e, EnhanceEvent::CoverFetched(Ok(()))), EnhanceAction::WriteLyrics);
    assert_eq!(
        advance(&mut e, EnhanceEvent::LyricsWritten("歌词 song.lrc".to_owned())),
        EnhanceAction::Link
    );
    assert_eq!(
        advance(&mut e, EnhanceEvent::Linked("已记下，稍后补做 QQ 音乐链接（x）".to_owned())),
        EnhanceAction::Finish
    );
    let (cover, lyrics, library) = report(&e);
    assert_eq!(cover.as_deref(), Some("内嵌封面仅支持 FLAC，当前为 MP3"));
    assert_eq!(lyrics.as_deref(), Some("歌词 song.lrc"));
    assert_eq!(library.as_deref(), Some("曲库待补做"));
}

#[test]
fn flac_on_macos_runs_every_step() {
    let mut e = new_enhancement(true, false, true, true, true, "启示录".to_owned(), "FLAC".to_owned());
    assert_eq!(advance(&mut e, EnhanceEvent::Started), EnhanceAction::FetchCover);
    assert_eq!(advance(&mut e, EnhanceEvent::CoverFetched(Ok(()))), EnhanceAction::EmbedCover);
    assert_eq!(advance(&mut e, EnhanceEvent::CoverEmbedded(Ok(()))), EnhanceAction::SetFinderIcon);
    assert_eq!(
        advance(&mut e, EnhanceEvent::FinderIconSet(Err("无权限".to_owned()))),
        EnhanceAction::WriteQqAttributes
    );
    assert_eq!(
        advance(&mut e, EnhanceEvent::QqAttributesWritten(Ok("QQ 属性".to_owned()))),
        EnhanceAction::Link
    );
    assert_eq!(advance(&mut e, EnhanceEvent::Linked(String::new())), EnhanceAction::Finish);
    let (cover, lyrics, library) = report(&e);
    assert_eq!(cover.as_deref(), Some("封面《启示录》 · 访达图标未设置：无权限 · QQ 属性"));
    assert_eq!(lyrics, None);
    assert_eq!(library, None);
}

#[test]
fn failed_cover_download_skips_embedding() {
    let mut e = new_enhancement(true, false, false, true, true, "A".to_owned(), "FLAC".to_owned());
    assert_eq!(advance(&mut e, EnhanceEvent::Started), EnhanceAction::FetchCover);
    assert_eq!(
        advance(&mut e, EnhanceEvent::CoverFetched(Err("网络错误".to_owned()))),
        EnhanceAction::Finish
    );
    let (cover, _, _) = report(&e);
    assert_eq!(cover.as_deref(), Some("未获取封面：网络错误"));
}

#[test]
fn nothing_requested_finishes_at_once() {
    let mut e = new_enhancement(false, false, false, true, true, String::new(), "FLAC".to_owned());
    assert_eq!(advance(&mut e, EnhanceEvent::Started), EnhanceAction::Finish);
    assert_eq!(report(&e), (None, None, None));
}

#[test]
fn unresolved_song_reports_each_requested_part() {
    assert_eq!(
        unresolved_notes(true, true, "超时"),
        (Some("未写入封面：超时".to_owned()), Some("曲库未完成：超时".to_owned()))
    );
    assert_eq!(unresolved_notes(false, true, "超时"), (None, Some("曲库未完成：超时".to_owned())));
    assert_eq!(unresolved_notes(false, false, "超时"), (None, None));
}

#[test]
fn covers_off_gives_no_cover_report() {
    let mut e = new_enhancement(false, false, true, true, true, "A".to_owned(), "FLAC".to_owned());
    assert_eq!(advance(&mut e, EnhanceEvent::Started), EnhanceAction::WriteQqAttributes);
    assert_eq!(
        advance(&mut e, EnhanceEvent::QqAttributesWritten(Ok("已写入 QQ 音乐文件属性".to_owned()))),
        EnhanceAction::Link
    );
    assert_eq!(advance(&mut e, EnhanceEvent::Linked("已链接到 QQ 音乐库".to_owned())), EnhanceAction::Finish);
    let (cover, lyrics, library) = report(&e);
    assert_eq!(cover, None);
    assert_eq!(lyrics, None);
    assert_eq!(library.as_deref(), Some("曲库"));
}

#[test]
fn unrequested_reports_stay_out() {
    let mut e = new_enhancement(false, false, false, true, true, String::new(), "FLAC".to_owned());
    advance(&mut e, EnhanceEvent::LyricsWritten("歌词 a.lrc".to_owned()));
    advance(&mut e, EnhanceEvent::Linked("已链接到 QQ 音乐库".to_owned()));
    assert_eq!(report(&e), (None, None, None));
}
