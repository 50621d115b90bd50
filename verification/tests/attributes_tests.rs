use qmunlock::matching::SongMeta;
use qmunlock::qq_attributes::info_archive;

fn meta() -> SongMeta {
    SongMeta {
        album_mid: "000CLxSh3wxvBt".into(),
        album: "启示录".into(),
        title: "GLORIA".into(),
        singers: "G.E.M.邓紫棋、某某".into(),
        song_id: 370_870_352,
        song_mid: "001xM7yM3VfJqK".into(),
    }
}

#[test]
fn builds_qq_attribute_archive() {
    let bytes = info_archive(&meta()).unwrap();
    let value = plist::Value::from_reader(std::io::Cursor::new(&bytes)).unwrap();
    let root = value.as_dictionary().unwrap();
    assert_eq!(root.get("$archiver").and_then(|item| item.as_string()), Some("NSKeyedArchiver"));
    let objects = root.get("$objects").and_then(|item| item.as_array()).unwrap();
    let song = objects[1].as_dictionary().unwrap();
    assert_eq!(song.get("song_ID").and_then(|item| item.as_unsigned_integer()), Some(370_870_352));
    assert_eq!(song.get("song_Type").and_then(|item| item.as_unsigned_integer()), Some(13));
    let index = song.get("song_Singer").and_then(|item| item.as_uid()).unwrap().get() as usize;
    assert_eq!(objects[index].as_string(), Some("G.E.M.邓紫棋"));
}

#[test]
fn attribute_plan() {
    let plan = qmunlock::qq_attributes::write(&meta(), Some((44_100, 16))).unwrap();
    assert_eq!(plan.writes.len(), 3);
    assert_eq!(plan.writes[0].key, "com.tencent.qqmusic.SongInfoFileAttribute");
    assert_eq!(plan.writes[1].value, 2u32.to_le_bytes().to_vec());
    assert_eq!(plan.writes[2].value, 7u32.to_le_bytes().to_vec());
    assert_eq!(plan.note, "已写入 QQ 音乐文件属性（含音质标记）");
    let plan = qmunlock::qq_attributes::write(&meta(), None).unwrap();
    assert_eq!(plan.writes.len(), 1);
    assert_eq!(plan.note, "已写入 QQ 音乐文件属性（音质档位未匹配已知值，已跳过 quality/rate）");
}
