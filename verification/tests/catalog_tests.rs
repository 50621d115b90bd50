use qmunlock::catalog::{
    lyric_from_answer, meta_from_search_item, search_candidates, search_result, song_from_info, JsonMember, JsonValue,
};
use qmunlock::requests::{
    cover_step, CoverResponse, CoverStep, cover_accepted, cover_request, cover_sizes, cover_url, lyric_url, percent_encode, search_keyword,
    search_miss_message, search_url, song_info_url,
};

fn text(s: &str) -> JsonValue {
    JsonValue::Text(s.into())
}

fn obj(members: Vec<(&str, JsonValue)>) -> JsonValue {
    JsonValue::Object(members.into_iter().map(|(k, v)| JsonMember { key: k.into(), value: v }).collect())
}

fn singers(names: &[&str]) -> JsonValue {
    JsonValue::Array(names.iter().map(|n| obj(vec![("name", text(n))])).collect())
}

#[test]
fn song_details_from_info_answer() {
    let song = obj(vec![
        ("album", obj(vec![("mid", text("000CLx")), ("name", text("启示录"))])),
        ("title", text("消愁 (Live)")),
        ("name", text("消愁")),
        ("singer", JsonValue::Array(vec![obj(vec![("name", text("A"))]), obj(vec![]), obj(vec![("name", text("B"))])])),
        ("id", JsonValue::Number(Some(42))),
    ]);
    let answer = obj(vec![("data", JsonValue::Array(vec![song]))]);
    let meta = song_from_info(&answer, "001xM").unwrap();
    assert_eq!(meta.album_mid, "000CLx");
    assert_eq!(meta.album, "启示录");
    assert_eq!(meta.title, "消愁 (Live)");
    assert_eq!(meta.singers, "A、B");
    assert_eq!(meta.song_id, 42);
    assert_eq!(meta.song_mid, "001xM");

    let no_title = obj(vec![("data", JsonValue::Array(vec![obj(vec![
        ("album", obj(vec![("mid", text("m"))])),
        ("name", text("消愁")),
        ("id", JsonValue::Number(None)),
    ])]))]);
    let meta = song_from_info(&no_title, "x").unwrap();
    assert_eq!((meta.title.as_str(), meta.song_id, meta.singers.as_str()), ("消愁", 0, ""));

    let no_album = obj(vec![("data", JsonValue::Array(vec![obj(vec![("title", text("t"))])]))]);
    assert_eq!(song_from_info(&no_album, "x").err(), Some("曲库未返回专辑 MID".to_string()));
    let empty = obj(vec![("data", JsonValue::Array(vec![]))]);
    assert_eq!(song_from_info(&empty, "x").err(), Some("曲库未返回该歌曲信息".to_string()));
}

#[test]
fn search_items_and_groups() {
    let aggregate = obj(vec![
        ("songmid", text("0")),
        ("albummid", text("a0")),
        ("grp", JsonValue::Array(vec![
            obj(vec![("songmid", text("")), ("albummid", text("a1"))]),
            obj(vec![("mid", text("s2")), ("albumMid", text("a2")), ("title", text("T2")), ("singer", singers(&["X", "Y"]))]),
        ])),
    ]);
    assert!(meta_from_search_item(&aggregate).is_none());
    let answer = obj(vec![("data", obj(vec![("song", obj(vec![("list", JsonValue::Array(vec![aggregate]))]))]))]);
    let found = search_result(&answer).unwrap().unwrap();
    assert_eq!(found.song_mid, "s2");
    assert_eq!(found.album_mid, "a2");
    assert_eq!(found.title, "T2");
    assert_eq!(found.singers, "X、Y");

    let first_key_wins = obj(vec![("songmid", JsonValue::Number(Some(1))), ("mid", text("s")), ("albummid", text("a"))]);
    assert!(meta_from_search_item(&first_key_wins).is_none());
    assert_eq!(search_result(&obj(vec![])).err(), Some("曲库搜索未返回结果".to_string()));
    let none = obj(vec![("data", obj(vec![("song", obj(vec![("list", JsonValue::Array(vec![]))]))]))]);
    assert!(search_result(&none).unwrap().is_none());
}

#[test]
fn lyric_answer() {
    assert_eq!(lyric_from_answer(&obj(vec![("lyric", text("  [00:01]a\n "))])), Ok("[00:01]a".to_string()));
    assert_eq!(lyric_from_answer(&obj(vec![("lyric", text("   "))])), Err("曲库中没有该曲目的歌词".to_string()));
    assert_eq!(lyric_from_answer(&obj(vec![])), Err("曲库中没有该曲目的歌词".to_string()));
}

#[test]
fn request_urls() {
    assert_eq!(
        song_info_url("001").unwrap(),
        "https://c.y.qq.com/v8/fcg-bin/fcg_play_single_song.fcg?songmid=001&platform=yqq&format=json&needNewCode=0&new_json=1"
    );
    assert_eq!(song_info_url(""), Err("缺少歌曲 MID，无法查询曲库信息".to_string()));
    assert_eq!(percent_encode("a b~é!"), "a+b~%C3%A9%21");
    assert_eq!(search_keyword("  x y \n"), Ok("x y".to_string()));
    assert_eq!(search_keyword(" \t"), Err("缺少检索关键词，无法查询曲库信息".to_string()));
    assert!(search_url("x y").ends_with("&format=json&w=x+y"));
    assert_eq!(search_miss_message("q"), "曲库中检索不到「q」");
    assert!(lyric_url("m").contains("songmid=m&format=json&nobase64=1"));
    assert_eq!(cover_url(800, "abc"), "https://y.gtimg.cn/music/photo_new/T002R800x800M000abc.jpg");
    assert_eq!(cover_sizes(), [800, 500, 300]);
    assert!(cover_request("").is_err());
    assert!(cover_request("a").is_ok());
    assert!(cover_accepted(true, 1025));
    assert!(!cover_accepted(true, 1024));
    assert!(!cover_accepted(false, 5000));
}

#[test]
fn search_candidates_in_order() {
    let item = |mid: &str, album: &str| obj(vec![("songmid", text(mid)), ("albummid", text(album))]);
    let aggregate = obj(vec![
        ("songmid", text("0")),
        ("grp", JsonValue::Array(vec![item("g1", "a"), item("", "a"), item("g2", "b")])),
    ]);
    let answer = obj(vec![(
        "data",
        obj(vec![("song", obj(vec![("list", JsonValue::Array(vec![item("s1", "a"), aggregate, item("s3", "")]))]))]),
    )]);
    let found = search_candidates(&answer).unwrap();
    let mids: Vec<&str> = found.iter().map(|m| m.song_mid.as_str()).collect();
    assert_eq!(mids, vec!["s1", "g1", "g2"]);
    assert_eq!(search_candidates(&obj(vec![])).err(), Some("曲库搜索未返回结果".to_string()));
}

#[test]
fn cover_download_steps() {
    assert!(matches!(cover_step("", 0, None), CoverStep::GiveUp(m) if m == "缺少专辑 MID，无法获取封面"));
    assert!(matches!(cover_step("abc", 0, None),
        CoverStep::Request(u) if u == "https://y.gtimg.cn/music/photo_new/T002R800x800M000abc.jpg"));
    assert!(matches!(cover_step("abc", 1, Some(CoverResponse::Unreachable)),
        CoverStep::Request(u) if u.contains("T002R500x500")));
    assert!(matches!(cover_step("abc", 2, Some(CoverResponse::Body(1024))),
        CoverStep::Request(u) if u.contains("T002R300x300")));
    assert!(matches!(cover_step("abc", 2, Some(CoverResponse::Body(1025))), CoverStep::Keep));
    assert!(matches!(cover_step("abc", 3, Some(CoverResponse::Refused)), CoverStep::GiveUp(m) if m == "未能下载专辑封面"));
}
