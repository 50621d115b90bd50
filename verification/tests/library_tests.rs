use qmunlock::library::{
    apply, apply_verdict, build_sql, escape, flush, flush_report, link_or_queue, new_tally, queue,
    record, status, table_columns, FlushStart, LibraryEntry, LinkAttempt,
};

fn entry(file: &str) -> LibraryEntry {
    LibraryEntry {
        file: file.into(),
        song_id: 370_870_352,
        title: "It's".into(),
        singer: " G.E.M.邓紫棋 、某某".into(),
        album: "启示录".into(),
        album_mid: "000CLxSh3wxvBt".into(),
    }
}

#[test]
fn queue_keeps_one_entry_per_file() {
    let mut entries = Vec::new();
    assert!(queue(&mut entries, &entry("/a.flac")));
    assert!(!queue(&mut entries, &entry("/a.flac")));
    assert!(queue(&mut entries, &entry("/b.flac")));
    assert_eq!(entries.len(), 2);
    assert_eq!(entries[1].file, "/b.flac");
}

#[test]
fn sql_escaping() {
    assert_eq!(escape("a'b''c"), "a''b''''c");
    assert_eq!(escape(""), "");
}

#[test]
fn sql_with_all_optional_columns() {
    let songs: Vec<String> = ["id", "album", "file", "filesize", "K_SONG_RESERVE9", "K_SONG_RESERVEINT23"]
        .iter().map(|s| s.to_string()).collect();
    let folders: Vec<String> = vec!["needSyn".into()];
    let sql = build_sql(&entry("/m/It's.flac"), Some(1234), &songs, &folders).unwrap();
    let expected = "BEGIN;\n\
INSERT INTO SONGS (id, type, name, singer, album, file, filesize, K_SONG_RESERVE9, K_SONG_RESERVEINT23)\n\
SELECT 370870352, 13, 'It''s', ' G.E.M.邓紫棋 、某某', '启示录', '/m/It''s.flac', 1234, '000CLxSh3wxvBt', 1234\n\
WHERE NOT EXISTS (SELECT 1 FROM SONGS WHERE id=370870352 AND type=13);\n\
UPDATE SONGS SET file='/m/It''s.flac', filesize=1234, K_SONG_RESERVEINT23=1234\n\
WHERE id=370870352 AND type=13;\n\
DELETE FROM SONGS WHERE name='It''s' AND file<>'' AND singer LIKE 'G.E.M.邓紫棋%'\n\
AND NOT (id=370870352 AND type=13);\n\
INSERT INTO NEWFOLDERSONGS (seq, id, type, addtime, opType, needSyn)\n\
SELECT 3, 370870352, 13, strftime('%s','now'), 7, 422004125\n\
WHERE NOT EXISTS (SELECT 1 FROM NEWFOLDERSONGS WHERE seq=3 AND id=370870352);\n\
UPDATE NEWFOLDERS SET foldercount=(SELECT count(*) FROM NEWFOLDERSONGS WHERE seq=3)\n\
WHERE seq=3;\n\
COMMIT;\n";
    assert_eq!(sql, expected);
}

#[test]
fn sql_without_optional_columns() {
    let sql = build_sql(&entry("/x"), Some(0), &vec![], &vec![]).unwrap();
    assert!(sql.contains("INSERT INTO SONGS (id, type, name, singer)\nSELECT 370870352, 13, 'It''s', ' G.E.M.邓紫棋 、某某'\n"));
    assert!(sql.contains("UPDATE SONGS SET file='/x', filesize=0\nWHERE"));
    assert!(sql.contains("INSERT INTO NEWFOLDERSONGS (seq, id, type, addtime, opType)\nSELECT 3, 370870352, 13, strftime('%s','now'), 7\n"));
    assert_eq!(build_sql(&entry("/x"), None, &vec![], &vec![]), Err("文件不存在，无法链接".to_string()));
}

#[test]
fn apply_refusals_and_verdict() {
    let e = entry("/x");
    assert_eq!(apply(true, true, &e, Some(1), &vec![], &vec![]), Err("QQ 音乐正在运行，需完全退出后才能写入其数据库".to_string()));
    assert_eq!(apply(false, false, &e, Some(1), &vec![], &vec![]), Err("没找到 QQ 音乐的数据库".to_string()));
    assert_eq!(apply(false, true, &e, None, &vec![], &vec![]), Err("文件不存在，无法链接".to_string()));
    assert!(apply(false, true, &e, Some(1), &vec![], &vec![]).is_ok());
    assert_eq!(apply_verdict(" 0\n"), Err("写入后校验未通过".to_string()));
    assert_eq!(apply_verdict("1"), Ok("已链接到 QQ 音乐库（含「下载成功」列表）".to_string()));
}

#[test]
fn pragma_columns() {
    let out = "0|id|INTEGER|0||1\r\n1|name|TEXT|0||0\nbroken\n2|file";
    assert_eq!(table_columns(out), vec!["id".to_string(), "name".to_string(), "file".to_string()]);
    assert!(table_columns("").is_empty());
    assert_eq!(table_columns("a|b\n"), vec!["b".to_string()]);
}

#[test]
fn link_messages() {
    assert_eq!(link_or_queue(&LinkAttempt::Linked("ok".into())), "ok");
    assert_eq!(
        link_or_queue(&LinkAttempt::Failed { error: "忙".into(), queued: true }),
        "已记下，稍后补做 QQ 音乐链接（忙）"
    );
    assert_eq!(
        link_or_queue(&LinkAttempt::Failed { error: "忙".into(), queued: false }),
        "QQ 音乐链接未完成：忙"
    );
}

#[test]
fn flush_decisions_and_report() {
    assert!(matches!(flush(0, true, false), FlushStart::Idle));
    match flush(3, true, true) {
        FlushStart::Blocked(m) => assert_eq!(m, "还有 3 首等待链接，请退出 QQ 音乐后再试"),
        _ => panic!("expected blocked"),
    }
    match flush(3, false, false) {
        FlushStart::Blocked(m) => assert_eq!(m, "没找到 QQ 音乐的数据库，暂时无法补做"),
        _ => panic!("expected blocked"),
    }
    assert!(matches!(flush(3, false, true), FlushStart::Run));

    let mut tally = new_tally();
    record(&mut tally, entry("/a"), Ok(()));
    assert_eq!(flush_report(&tally), "已补做 1 首的 QQ 音乐链接");
    record(&mut tally, entry("/b"), Err("坏了".into()));
    record(&mut tally, entry("/c"), Ok(()));
    assert_eq!(tally.left.len(), 1);
    assert_eq!(flush_report(&tally), "已补做 2 首，仍有 1 首未完成（坏了）");
}

#[test]
fn library_status_fields() {
    let s = status(2, true, false);
    assert_eq!((s.pending, s.database_found, s.app_running), (2, true, false));
    assert!(s.message.is_none());
}
