//! Reading the QQ Music catalogue's JSON answers: song details, search
//! results and lyrics; and the request URLs.

use vstd::prelude::*;
use crate::matching::{SongMeta, SongMetaView};
use crate::text::{from_chars, str_equal, to_chars, trim_spec, trim_whitespace};

verus! {

/// A JSON value as the catalogue logic reads it. Numbers keep only what
/// `as_u64` gives (a non-negative integer that fits, else nothing); objects
/// keep their members in order.
pub enum JsonValue {
    Null,
    Bool(bool),
    Number(Option<u64>),
    Text(String),
    Array(Vec<JsonValue>),
    Object(Vec<JsonMember>),
}

/// One member of a JSON object.
pub struct JsonMember {
    pub key: String,
    pub value: JsonValue,
}

/// The value of the first member named `key` from `i` on.
pub open spec fn member_from(ms: Seq<JsonMember>, key: Seq<char>, i: int) -> Option<JsonValue>
    decreases ms.len() - i,
{
    if i < 0 || i >= ms.len() {
        None
    } else if ms[i].key@ == key {
        Some(ms[i].value)
    } else {
        member_from(ms, key, i + 1)
    }
}

/// `Value::get` with a key: the member of an object, nothing for other values.
pub open spec fn json_get(v: JsonValue, key: Seq<char>) -> Option<JsonValue> {
    match v {
        JsonValue::Object(ms) => member_from(ms@, key, 0),
        _ => None,
    }
}

/// `Value::get` on an optional value.
pub open spec fn json_get_opt(v: Option<JsonValue>, key: Seq<char>) -> Option<JsonValue> {
    match v {
        Some(x) => json_get(x, key),
        None => None,
    }
}

/// One step of a JSON pointer: an object member by name, or, for an array,
/// the element at the token's index (`index` is the token read as an array
/// index, `None` when it is not one).
pub open spec fn pointer_step(v: JsonValue, token: Seq<char>, index: Option<nat>) -> Option<
    JsonValue,
> {
    match v {
        JsonValue::Object(ms) => member_from(ms@, token, 0),
        JsonValue::Array(items) => match index {
            Some(i) => if i < items@.len() {
                Some(items@[i as int])
            } else {
                None
            },
            None => None,
        },
        _ => None,
    }
}

/// `as_str`: the text of a string value.
pub open spec fn json_text(v: Option<JsonValue>) -> Option<Seq<char>> {
    match v {
        Some(JsonValue::Text(s)) => Some(s@),
        _ => None,
    }
}

/// `as_str().unwrap_or_default()`.
pub open spec fn text_or_empty(v: Option<JsonValue>) -> Seq<char> {
    match json_text(v) {
        Some(s) => s,
        None => seq![],
    }
}

/// `as_u64().unwrap_or_default()`.
pub open spec fn u64_or_zero(v: Option<JsonValue>) -> u64 {
    match v {
        Some(JsonValue::Number(Some(n))) => n,
        _ => 0,
    }
}

/// `a.or_else(|| b)`.
pub open spec fn first_some(a: Option<JsonValue>, b: Option<JsonValue>) -> Option<JsonValue> {
    match a {
        Some(x) => Some(x),
        None => b,
    }
}

/// `、`-joined names.
pub open spec fn join_names(names: Seq<Seq<char>>) -> Seq<char>
    decreases names.len(),
{
    if names.len() == 0 {
        seq![]
    } else if names.len() == 1 {
        names[0]
    } else {
        join_names(names.drop_last()) + seq!['、'] + names.last()
    }
}

/// The `name` strings of the items of a list, skipping items without one.
pub open spec fn item_names(items: Seq<JsonValue>) -> Seq<Seq<char>>
    decreases items.len(),
{
    if items.len() == 0 {
        seq![]
    } else {
        let rest = item_names(items.drop_last());
        match json_text(json_get(items.last(), "name"@)) {
            Some(n) => rest.push(n),
            None => rest,
        }
    }
}

/// The singers of a song entry: the `name`s of its `singer` array joined by
/// `、`, or empty when there is no such array.
pub open spec fn singers_of(entry: JsonValue) -> Seq<char> {
    match json_get(entry, "singer"@) {
        Some(JsonValue::Array(items)) => join_names(item_names(items@)),
        _ => seq![],
    }
}

/// The song details of a song-info answer for `song_mid`: the first entry of
/// `data`; album MID and name from `album`; `title`, else `name`; singers;
/// id. Fails when there is no entry, or when it names no album MID.
pub open spec fn song_info_spec(answer: JsonValue, song_mid: Seq<char>) -> Result<
    SongMetaView,
    Seq<char>,
> {
    match json_get(answer, "data"@) {
        None => Err(msg_no_song()),
        Some(data) => match pointer_step(data, "0"@, Some(0)) {
            None => Err(msg_no_song()),
            Some(song) => {
                let album = json_get(song, "album"@);
                let album_mid = text_or_empty(json_get_opt(album, "mid"@));
                let title = match json_text(json_get(song, "title"@)) {
                    Some(t) => t,
                    None => text_or_empty(json_get(song, "name"@)),
                };
                if album_mid.len() == 0 {
                    Err(msg_no_album_mid())
                } else {
                    Ok(
                        SongMetaView {
                            album_mid,
                            album: text_or_empty(json_get_opt(album, "name"@)),
                            title,
                            singers: singers_of(song),
                            song_id: u64_or_zero(json_get(song, "id"@)),
                            song_mid,
                        },
                    )
                }
            },
        },
    }
}

/// The catalogue data of one search result, or nothing for an aggregate entry
/// (song MID empty or "0") or an entry without album MID. Each field is read
/// from its first key, falling back to the second only when the first is absent.
pub open spec fn search_item_spec(item: JsonValue) -> Option<SongMetaView> {
    let song_mid = text_or_empty(first_some(json_get(item, "songmid"@), json_get(item, "mid"@)));
    let album_mid = text_or_empty(
        first_some(json_get(item, "albummid"@), json_get(item, "albumMid"@)),
    );
    if song_mid.len() == 0 || song_mid == seq!['0'] {
        None
    } else if album_mid.len() == 0 {
        None
    } else {
        Some(
            SongMetaView {
                album_mid,
                album: text_or_empty(
                    first_some(json_get(item, "albumname"@), json_get(item, "albumName"@)),
                ),
                title: text_or_empty(
                    first_some(json_get(item, "songname"@), json_get(item, "title"@)),
                ),
                singers: singers_of(item),
                song_id: u64_or_zero(json_get(item, "id"@)),
                song_mid,
            },
        )
    }
}

/// The first usable result among `children` from `i` on.
pub open spec fn first_child_result(children: Seq<JsonValue>, i: int) -> Option<SongMetaView>
    decreases children.len() - i,
{
    if i < 0 || i >= children.len() {
        None
    } else {
        match search_item_spec(children[i]) {
            Some(m) => Some(m),
            None => first_child_result(children, i + 1),
        }
    }
}

/// The first usable result from item `i` on: the item itself, else the first
/// usable entry of its `grp` group.
pub open spec fn first_result(items: Seq<JsonValue>, i: int) -> Option<SongMetaView>
    decreases items.len() - i,
{
    if i < 0 || i >= items.len() {
        None
    } else {
        match search_item_spec(items[i]) {
            Some(m) => Some(m),
            None => {
                let from_group = match json_get(items[i], "grp"@) {
                    Some(JsonValue::Array(children)) => first_child_result(children@, 0),
                    _ => None,
                };
                match from_group {
                    Some(m) => Some(m),
                    None => first_result(items, i + 1),
                }
            },
        }
    }
}

/// The answer to a search: the first usable result of `data.song.list`.
pub open spec fn search_result_spec(answer: JsonValue) -> Option<Option<SongMetaView>> {
    match json_get_opt(json_get_opt(json_get(answer, "data"@), "song"@), "list"@) {
        Some(JsonValue::Array(items)) => Some(first_result(items@, 0)),
        _ => None,
    }
}

/// The lyric text of a lyric answer, trimmed; fails when it is empty.
pub open spec fn lyric_spec(answer: JsonValue) -> Result<Seq<char>, Seq<char>> {
    let lyric = trim_spec(text_or_empty(json_get(answer, "lyric"@)));
    if lyric.len() == 0 {
        Err(msg_no_lyric())
    } else {
        Ok(lyric)
    }
}

pub open spec fn msg_no_song() -> Seq<char> {
    "曲库未返回该歌曲信息"@
}

pub open spec fn msg_no_album_mid() -> Seq<char> {
    "曲库未返回专辑 MID"@
}

pub open spec fn msg_no_results() -> Seq<char> {
    "曲库搜索未返回结果"@
}

pub open spec fn msg_no_lyric() -> Seq<char> {
    "曲库中没有该曲目的歌词"@
}

/// The value of the first member named `key`.
pub fn get<'a>(v: &'a JsonValue, key: &str) -> (r: Option<&'a JsonValue>)
    ensures
        match r {
            Some(x) => json_get(*v, key@) == Some(*x),
            None => json_get(*v, key@) is None,
        },
{
    match v {
        JsonValue::Object(ms) => {
            let mut i: usize = 0;
            while i < ms.len()
                invariant
                    i <= ms@.len(),
                    json_get(*v, key@) == member_from(ms@, key@, 0),
                    member_from(ms@, key@, 0) == member_from(ms@, key@, i as int),
                decreases ms@.len() - i,
            {
                if str_equal(ms[i].key.as_str(), key) {
                    assert(member_from(ms@, key@, i as int) == Some(ms@[i as int].value));
                    return Some(&ms[i].value);
                }
                i = i + 1;
            }
            None
        },
        _ => None,
    }
}

/// `get` on an optional value.
fn get_opt<'a>(v: Option<&'a JsonValue>, key: &str) -> (r: Option<&'a JsonValue>)
    ensures
        match r {
            Some(x) => json_get_opt(
                match v {
                    Some(y) => Some(*y),
                    None => None,
                },
                key@,
            ) == Some(*x),
            None => json_get_opt(
                match v {
                    Some(y) => Some(*y),
                    None => None,
                },
                key@,
            ) is None,
        },
{
    match v {
        Some(x) => get(x, key),
        None => None,
    }
}

/// The spec value behind an optional reference.
pub open spec fn deref_opt(v: Option<&JsonValue>) -> Option<JsonValue> {
    match v {
        Some(x) => Some(*x),
        None => None,
    }
}

/// `as_str().unwrap_or_default()` as an owned string.
fn text_of(v: Option<&JsonValue>) -> (s: String)
    ensures
        s@ == text_or_empty(deref_opt(v)),
{
    match v {
        Some(JsonValue::Text(t)) => t.clone(),
        _ => String::new(),
    }
}

/// `as_u64().unwrap_or_default()`.
fn number_of(v: Option<&JsonValue>) -> (n: u64)
    ensures
        n == u64_or_zero(deref_opt(v)),
{
    match v {
        Some(JsonValue::Number(Some(n))) => *n,
        _ => 0,
    }
}

/// The `、`-joined `name`s of the `singer` array of an entry.
fn singers_exec(entry: &JsonValue) -> (s: String)
    ensures
        s@ == singers_of(*entry),
{
    let items = match get(entry, "singer") {
        Some(JsonValue::Array(items)) => items,
        _ => return String::new(),
    };
    let mut out = String::new();
    let mut count: usize = 0;
    let mut i: usize = 0;
    while i < items.len()
        invariant
            i <= items@.len(),
            count <= i,
            out@ == join_names(item_names(items@.take(i as int))),
            count == item_names(items@.take(i as int)).len(),
        decreases items@.len() - i,
    {
        assert(items@.take(i + 1).drop_last() =~= items@.take(i as int));
        assert(items@.take(i + 1).last() == items@[i as int]);
        let ghost names = item_names(items@.take(i as int));
        match get(&items[i], "name") {
            Some(JsonValue::Text(name)) => {
                if count > 0 {
                    out.push('、');
                }
                let ghost before = out@;
                out.append(name.as_str());
                proof {
                    let next = names.push(name@);
                    assert(next.drop_last() =~= names);
                    if count > 0 {
                        assert(out@ =~= join_names(names) + seq!['、'] + name@);
                    } else {
                        assert(names.len() == 0);
                        assert(out@ =~= name@);
                    }
                }
                count = count + 1;
            },
            _ => {},
        }
        i = i + 1;
    }
    assert(items@.take(items@.len() as int) =~= items@);
    out
}

/// The song details of a song-info answer for `song_mid`.
pub fn song_from_info(answer: &JsonValue, song_mid: &str) -> (r: Result<SongMeta, String>)
    ensures
        match r {
            Ok(m) => song_info_spec(*answer, song_mid@) == Ok::<SongMetaView, Seq<char>>(m@),
            Err(e) => song_info_spec(*answer, song_mid@) == Err::<SongMetaView, Seq<char>>(e@),
        },
{
    let data = match get(answer, "data") {
        Some(d) => d,
        None => return Err(String::from_str("曲库未返回该歌曲信息")),
    };
    let song = match data {
        JsonValue::Object(_) => get(data, "0"),
        JsonValue::Array(items) => if items.len() > 0 {
            Some(&items[0])
        } else {
            None
        },
        _ => None,
    };
    let song = match song {
        Some(s) => s,
        None => return Err(String::from_str("曲库未返回该歌曲信息")),
    };
    let album = get(song, "album");
    let album_mid = text_of(get_opt(album, "mid"));
    let title = match get(song, "title") {
        Some(JsonValue::Text(t)) => t.clone(),
        _ => text_of(get(song, "name")),
    };
    if album_mid.as_str().is_empty() {
        return Err(String::from_str("曲库未返回专辑 MID"));
    }
    Ok(
        SongMeta {
            album_mid,
            album: text_of(get_opt(album, "name")),
            title,
            singers: singers_exec(song),
            song_id: number_of(get(song, "id")),
            song_mid: String::from_str(song_mid),
        },
    )
}

/// `a.or_else(|| b)` on member lookups.
fn first_of<'a>(v: &'a JsonValue, first: &str, second: &str) -> (r: Option<&'a JsonValue>)
    ensures
        deref_opt(r) == first_some(json_get(*v, first@), json_get(*v, second@)),
{
    match get(v, first) {
        Some(x) => Some(x),
        None => get(v, second),
    }
}

/// The catalogue data of one search result; nothing for aggregate entries and
/// entries without album MID.
pub fn meta_from_search_item(item: &JsonValue) -> (r: Option<SongMeta>)
    ensures
        match r {
            Some(m) => search_item_spec(*item) == Some(m@),
            None => search_item_spec(*item) is None,
        },
{
    let song_mid = text_of(first_of(item, "songmid", "mid"));
    let mid_chars = to_chars(song_mid.as_str());
    let zero: [char; 1] = ['0'];
    assert(zero@ =~= seq!['0']);
    if mid_chars.len() == 0 || crate::text::chars_equal(mid_chars.as_slice(), &zero) {
        return None;
    }
    let album_mid = text_of(first_of(item, "albummid", "albumMid"));
    if album_mid.as_str().is_empty() {
        return None;
    }
    Some(
        SongMeta {
            album_mid,
            album: text_of(first_of(item, "albumname", "albumName")),
            title: text_of(first_of(item, "songname", "title")),
            singers: singers_exec(item),
            song_id: number_of(get(item, "id")),
            song_mid,
        },
    )
}

/// The first usable result of a search answer; `Err` when the answer has no
/// `data.song.list` array, `Ok(None)` when no entry is usable.
pub fn search_result(answer: &JsonValue) -> (r: Result<Option<SongMeta>, String>)
    ensures
        match r {
            Ok(Some(m)) => search_result_spec(*answer) == Some(Some(m@)),
            Ok(None) => search_result_spec(*answer) == Some(None::<SongMetaView>),
            Err(e) => search_result_spec(*answer) is None && e@ == msg_no_results(),
        },
{
    let list = get_opt(get_opt(get(answer, "data"), "song"), "list");
    let items = match list {
        Some(JsonValue::Array(items)) => items,
        _ => return Err(String::from_str("曲库搜索未返回结果")),
    };
    assert(search_result_spec(*answer) == Some(first_result(items@, 0)));
    let mut i: usize = 0;
    while i < items.len()
        invariant
            i <= items@.len(),
            search_result_spec(*answer) == Some(first_result(items@, 0)),
            first_result(items@, 0) == first_result(items@, i as int),
        decreases items@.len() - i,
    {
        if let Some(meta) = meta_from_search_item(&items[i]) {
            return Ok(Some(meta));
        }
        if let Some(JsonValue::Array(children)) = get(&items[i], "grp") {
            let mut j: usize = 0;
            while j < children.len()
                invariant
                    i < items@.len(),
                    j <= children@.len(),
                    search_result_spec(*answer) == Some(first_result(items@, 0)),
                    first_result(items@, 0) == first_result(items@, i as int),
                    search_item_spec(items@[i as int]) is None,
                    json_get(items@[i as int], "grp"@) == Some(JsonValue::Array(*children)),
                    first_child_result(children@, 0) == first_child_result(children@, j as int),
                decreases children@.len() - j,
            {
                if let Some(meta) = meta_from_search_item(&children[j]) {
                    return Ok(Some(meta));
                }
                j = j + 1;
            }
        }
        i = i + 1;
    }
    Ok(None)
}

/// The trimmed lyric of a lyric answer; fails when it is empty.
pub fn lyric_from_answer(answer: &JsonValue) -> (r: Result<String, String>)
    ensures
        match r {
            Ok(s) => lyric_spec(*answer) == Ok::<Seq<char>, Seq<char>>(s@),
            Err(e) => lyric_spec(*answer) == Err::<Seq<char>, Seq<char>>(e@),
        },
{
    let raw = text_of(get(answer, "lyric"));
    let chars = to_chars(raw.as_str());
    let trimmed = trim_whitespace(chars.as_slice());
    if trimmed.len() == 0 {
        return Err(String::from_str("曲库中没有该曲目的歌词"));
    }
    Ok(from_chars(trimmed.as_slice()))
}

/// The usable results among `children` from `j` on, in order.
pub open spec fn child_results(children: Seq<JsonValue>, j: int) -> Seq<SongMetaView>
    decreases children.len() - j,
{
    if j < 0 || j >= children.len() {
        seq![]
    } else {
        match search_item_spec(children[j]) {
            Some(m) => seq![m] + child_results(children, j + 1),
            None => child_results(children, j + 1),
        }
    }
}

/// The usable results among `items` from `i` on, in order: an entry that is
/// usable itself, else the usable entries of its `grp`.
pub open spec fn usable_results(items: Seq<JsonValue>, i: int) -> Seq<SongMetaView>
    decreases items.len() - i,
{
    if i < 0 || i >= items.len() {
        seq![]
    } else {
        match search_item_spec(items[i]) {
            Some(m) => seq![m] + usable_results(items, i + 1),
            None => (match json_get(items[i], "grp"@) {
                Some(JsonValue::Array(children)) => child_results(children@, 0),
                _ => seq![],
            }) + usable_results(items, i + 1),
        }
    }
}

/// All usable results of a search answer, in order; `None` when the answer
/// has no `data.song.list` array.
pub open spec fn search_candidates_spec(answer: JsonValue) -> Option<Seq<SongMetaView>> {
    match json_get_opt(json_get_opt(json_get(answer, "data"@), "song"@), "list"@) {
        Some(JsonValue::Array(items)) => Some(usable_results(items@, 0)),
        _ => None,
    }
}

/// The views of a list of catalogue entries.
pub open spec fn metas_view(v: Seq<SongMeta>) -> Seq<SongMetaView> {
    v.map_values(|m: SongMeta| m@)
}

/// Every usable result of a search answer, in order, for the caller to pick
/// from; `Err` when the answer has no `data.song.list` array.
pub fn search_candidates(answer: &JsonValue) -> (r: Result<Vec<SongMeta>, String>)
    ensures
        match r {
            Ok(v) => search_candidates_spec(*answer) == Some(metas_view(v@)),
            Err(e) => search_candidates_spec(*answer) is None && e@ == msg_no_results(),
        },
{
    let list = get_opt(get_opt(get(answer, "data"), "song"), "list");
    let items = match list {
        Some(JsonValue::Array(items)) => items,
        _ => return Err(String::from_str("曲库搜索未返回结果")),
    };
    let ghost all = usable_results(items@, 0);
    let mut out: Vec<SongMeta> = Vec::new();
    let mut i: usize = 0;
    while i < items.len()
        invariant
            i <= items@.len(),
            all == usable_results(items@, 0),
            metas_view(out@) + usable_results(items@, i as int) == all,
        decreases items@.len() - i,
    {
        let ghost before = metas_view(out@);
        match meta_from_search_item(&items[i]) {
            Some(meta) => {
                out.push(meta);
                assert(metas_view(out@) =~= before + seq![search_item_spec(items@[i as int]).unwrap()]);
                assert(before + usable_results(items@, i as int) =~= metas_view(out@)
                    + usable_results(items@, i + 1));
            },
            None => {
                match get(&items[i], "grp") {
                    Some(JsonValue::Array(children)) => {
                        let mut j: usize = 0;
                        assert(before + usable_results(items@, i as int) =~= metas_view(out@)
                            + child_results(children@, 0) + usable_results(items@, i + 1));
                        while j < children.len()
                            invariant
                                j <= children@.len(),
                                metas_view(out@) + child_results(children@, j as int)
                                    + usable_results(items@, i + 1) == all,
                            decreases children@.len() - j,
                        {
                            let ghost b2 = metas_view(out@);
                            match meta_from_search_item(&children[j]) {
                                Some(meta) => {
                                    out.push(meta);
                                    assert(metas_view(out@) =~= b2 + seq![
                                        search_item_spec(children@[j as int]).unwrap(),
                                    ]);
                                    assert(b2 + child_results(children@, j as int)
                                        =~= metas_view(out@) + child_results(children@, j + 1));
                                },
                                None => {},
                            }
                            j = j + 1;
                        }
                        assert(child_results(children@, j as int) =~= Seq::<SongMetaView>::empty());
                        assert(metas_view(out@) + usable_results(items@, i + 1) =~= metas_view(out@)
                            + child_results(children@, j as int) + usable_results(items@, i + 1));
                    },
                    _ => {
                        assert(before + usable_results(items@, i as int) =~= metas_view(out@)
                            + usable_results(items@, i + 1));
                    },
                }
            },
        }
        i = i + 1;
    }
    assert(metas_view(out@) =~= metas_view(out@) + usable_results(items@, i as int));
    Ok(out)
}

/// The text a member holds under `first`, else under `second`, as a search
/// item's field is read: `None` when the member found is not text.
pub open spec fn member_text(item: JsonValue, first: Seq<char>, second: Seq<char>) -> Option<
    Seq<char>,
> {
    match json_get(item, first) {
        Some(JsonValue::Text(t)) => Some(t@),
        Some(_) => None,
        None => match json_get(item, second) {
            Some(JsonValue::Text(t)) => Some(t@),
            _ => None,
        },
    }
}

/// Each field of a usable search item comes from its own members: the album
/// name from `albumname` (else `albumName`), the title from `songname` (else
/// `title`), the song MID from `songmid` (else `mid`), the album MID from
/// `albummid` (else `albumMid`), the id from `id`; a field whose member is
/// missing or not text is empty.
pub proof fn lemma_search_item_fields(item: JsonValue)
    requires
        search_item_spec(item) is Some,
    ensures
        ({
            let m = search_item_spec(item).unwrap();
            let or_empty = |o: Option<Seq<char>>|
                match o {
                    Some(t) => t,
                    None => Seq::<char>::empty(),
                };
            &&& m.album == or_empty(member_text(item, "albumname"@, "albumName"@))
            &&& m.title == or_empty(member_text(item, "songname"@, "title"@))
            &&& m.song_mid == or_empty(member_text(item, "songmid"@, "mid"@))
            &&& m.album_mid == or_empty(member_text(item, "albummid"@, "albumMid"@))
            &&& m.song_id == (match json_get(item, "id"@) {
                Some(JsonValue::Number(Some(n))) => n,
                _ => 0,
            })
        }),
{
}

/// The album name, title, singers and id of a usable search item do not
/// depend on its song or album MID members: two usable items that agree on
/// `albumname`, `albumName`, `songname`, `title`, `singer` and `id` give the
/// same album, title, singers and id.
pub proof fn lemma_search_item_names_ignore_mids(a: JsonValue, b: JsonValue)
    requires
        search_item_spec(a) is Some,
        search_item_spec(b) is Some,
        json_get(a, "albumname"@) == json_get(b, "albumname"@),
        json_get(a, "albumName"@) == json_get(b, "albumName"@),
        json_get(a, "songname"@) == json_get(b, "songname"@),
        json_get(a, "title"@) == json_get(b, "title"@),
        json_get(a, "singer"@) == json_get(b, "singer"@),
        json_get(a, "id"@) == json_get(b, "id"@),
    ensures
        search_item_spec(a).unwrap().album == search_item_spec(b).unwrap().album,
        search_item_spec(a).unwrap().title == search_item_spec(b).unwrap().title,
        search_item_spec(a).unwrap().singers == search_item_spec(b).unwrap().singers,
        search_item_spec(a).unwrap().song_id == search_item_spec(b).unwrap().song_id,
{
}

/// The text held under `key`, if it is text.
pub open spec fn text_at(v: JsonValue, key: Seq<char>) -> Option<Seq<char>> {
    match json_get(v, key) {
        Some(JsonValue::Text(t)) => Some(t@),
        _ => None,
    }
}

/// The song details of an answer whose `data` is a list come from its first
/// entry: the album MID and name from that entry's `album` object, the title
/// from `title` when it is text (else `name`), the id from `id`, and the song
/// MID is the one asked for.
pub proof fn lemma_song_info_fields(answer: JsonValue, song_mid: Seq<char>, items: Seq<JsonValue>)
    requires
        json_get(answer, "data"@) matches Some(JsonValue::Array(v)) && v@ == items,
        song_info_spec(answer, song_mid) is Ok,
    ensures
        items.len() > 0,
        ({
            let m = song_info_spec(answer, song_mid)->Ok_0;
            let song = items[0];
            let or_empty = |o: Option<Seq<char>>|
                match o {
                    Some(t) => t,
                    None => Seq::<char>::empty(),
                };
            let album = json_get(song, "album"@);
            &&& m.song_mid == song_mid
            &&& album matches Some(a) && text_at(a, "mid"@) == Some(m.album_mid)
            &&& m.album_mid.len() > 0
            &&& m.album == or_empty(match album {
                Some(a) => text_at(a, "name"@),
                None => None,
            })
            &&& m.title == (match text_at(song, "title"@) {
                Some(t) => t,
                None => or_empty(text_at(song, "name"@)),
            })
            &&& m.song_id == (match json_get(song, "id"@) {
                Some(JsonValue::Number(Some(n))) => n,
                _ => 0,
            })
        }),
{
}

} // verus!
