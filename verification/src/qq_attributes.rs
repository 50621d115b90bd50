//! The extended attributes QQ Music keeps on its downloaded files: an
//! NSKeyedArchiver binary plist describing the song, and the quality markers.

use vstd::prelude::*;
use crate::bytes::{le32_bytes, push_le32};
use crate::matching::{first_artist_chars, SongMeta, SongMetaView};
use crate::stream_info::{quality_for, quality_markers};
use crate::tags::find_char_from;
use crate::text::{from_chars, to_chars};

verus! {

/// A property-list value, as far as the archive needs one.
pub enum PlistValue {
    Text(String),
    Integer(u64),
    Uid(u64),
    Array(Vec<PlistValue>),
    Dictionary(Vec<PlistEntry>),
}

/// One key of a property-list dictionary, in insertion order.
pub struct PlistEntry {
    pub key: String,
    pub value: PlistValue,
}

#[verifier::external_type_specification]
#[verifier::external_body]
pub struct ExPlistValue(plist::Value);

/// The bytes of a value as a binary property list, as `plist` writes them.
pub uninterp spec fn binary_plist(value: PlistValue) -> Seq<u8>;

/// Builds the `plist` value holding `v`, one variant for one variant, with
/// dictionary keys inserted in order. Nothing is claimed of the result.
#[verifier::external_body]
fn to_plist(v: &PlistValue) -> plist::Value {
    match v {
        PlistValue::Text(s) => plist::Value::String(s.clone()),
        PlistValue::Integer(n) => plist::Value::from(*n),
        PlistValue::Uid(n) => plist::Value::Uid(plist::Uid::new(*n)),
        PlistValue::Array(items) => plist::Value::Array(items.iter().map(to_plist).collect()),
        PlistValue::Dictionary(entries) => plist::Value::Dictionary(
            entries.iter().map(|e| (e.key.clone(), to_plist(&e.value))).collect(),
        ),
    }
}

/// Serialises `v` as a binary property list through `plist::Value::to_writer_binary`.
/// Writing into a `Vec` cannot fail on I/O, and the events of a `Value` are
/// always well formed, so it succeeds; the bytes are the named encoding of `v`.
#[verifier::external_body]
fn write_binary_plist(v: &PlistValue) -> (r: Result<Vec<u8>, String>)
    ensures
        r is Ok,
        r matches Ok(bytes) ==> bytes@ == binary_plist(*v),
{
    let mut buffer = Vec::new();
    match to_plist(v).to_writer_binary(&mut buffer) {
        Ok(()) => Ok(buffer),
        Err(error) => Err(error.to_string()),
    }
}

/// The first singer of the catalogue's `、`-joined list.
pub open spec fn first_listed_singer(singers: Seq<char>) -> Seq<char> {
    match find_char_from(singers, '、', 0) {
        Some(k) => singers.take(k),
        None => singers,
    }
}

/// Whether `v` is a text value holding `s`.
pub open spec fn is_text(v: PlistValue, s: Seq<char>) -> bool {
    v matches PlistValue::Text(t) && t@ == s
}

/// Whether `e` is the entry `key` -> `v`.
pub open spec fn entry_is(e: PlistEntry, key: Seq<char>, v: spec_fn(PlistValue) -> bool) -> bool {
    e.key@ == key && v(e.value)
}

/// Whether `v` is the archive QQ Music writes for a song: an NSKeyedArchiver
/// document (version 100000) whose root is object 1, the song dictionary
/// (class 5, album 4, id, name 2, singer 3, type 13), followed by title,
/// first singer, album and the class description.
pub open spec fn is_song_archive(v: PlistValue, meta: SongMetaView) -> bool {
    v matches PlistValue::Dictionary(doc) && doc@.len() == 4
        && entry_is(doc@[0], "$version"@, |x: PlistValue| x == PlistValue::Integer(100000))
        && entry_is(doc@[1], "$archiver"@, |x: PlistValue| is_text(x, "NSKeyedArchiver"@))
        && entry_is(
        doc@[2],
        "$top"@,
        |x: PlistValue|
            x matches PlistValue::Dictionary(top) && top@.len() == 1 && entry_is(
                top@[0],
                "root"@,
                |y: PlistValue| y == PlistValue::Uid(1),
            ),
    ) && entry_is(
        doc@[3],
        "$objects"@,
        |x: PlistValue|
            x matches PlistValue::Array(objects) && objects@.len() == 6 && is_text(
                objects@[0],
                "$null"@,
            ) && is_song_dictionary(objects@[1], meta.song_id) && is_text(objects@[2], meta.title)
                && is_text(objects@[3], first_listed_singer(meta.singers)) && is_text(
                objects@[4],
                meta.album,
            ) && is_class_dictionary(objects@[5]),
    )
}

/// The song dictionary of the archive.
pub open spec fn is_song_dictionary(v: PlistValue, song_id: u64) -> bool {
    v matches PlistValue::Dictionary(song) && song@.len() == 6
        && entry_is(song@[0], "$class"@, |x: PlistValue| x == PlistValue::Uid(5))
        && entry_is(song@[1], "song_Album"@, |x: PlistValue| x == PlistValue::Uid(4))
        && entry_is(song@[2], "song_ID"@, |x: PlistValue| x == PlistValue::Integer(song_id))
        && entry_is(song@[3], "song_Name"@, |x: PlistValue| x == PlistValue::Uid(2))
        && entry_is(song@[4], "song_Singer"@, |x: PlistValue| x == PlistValue::Uid(3))
        && entry_is(song@[5], "song_Type"@, |x: PlistValue| x == PlistValue::Integer(13))
}

/// The class description of the archive.
pub open spec fn is_class_dictionary(v: PlistValue) -> bool {
    v matches PlistValue::Dictionary(class) && class@.len() == 2 && entry_is(
        class@[0],
        "$classes"@,
        |x: PlistValue|
            x matches PlistValue::Array(names) && names@.len() == 2 && is_text(
                names@[0],
                "SongInfoInFileAttribute"@,
            ) && is_text(names@[1], "NSObject"@),
    ) && entry_is(
        class@[1],
        "$classname"@,
        |x: PlistValue| is_text(x, "SongInfoInFileAttribute"@),
    )
}

fn text(s: &str) -> (v: PlistValue)
    ensures
        is_text(v, s@),
{
    PlistValue::Text(s.to_owned())
}

fn entry(key: &str, value: PlistValue) -> (e: PlistEntry)
    ensures
        e.key@ == key@,
        e.value == value,
{
    PlistEntry { key: key.to_owned(), value }
}

/// The first singer of a `、`-joined list.
fn first_singer_of(singers: &str) -> (s: String)
    ensures
        s@ == first_listed_singer(singers@),
{
    let v = to_chars(singers);
    let mut k: usize = 0;
    while k < v.len() && v[k] != '、'
        invariant
            k <= v@.len(),
            find_char_from(v@, '、', 0) == find_char_from(v@, '、', k as int),
        decreases v@.len() - k,
    {
        k = k + 1;
    }
    let first = crate::text::slice_chars(v.as_slice(), 0, k);
    assert(k == v@.len() ==> first@ =~= v@);
    assert(k < v@.len() ==> first@ =~= v@.take(k as int));
    from_chars(first.as_slice())
}

/// The NSKeyedArchiver document describing a song, as QQ Music writes it.
pub fn info_archive_value(meta: &SongMeta) -> (v: PlistValue)
    ensures
        is_song_archive(v, meta@),
{
    let mut song: Vec<PlistEntry> = Vec::new();
    song.push(entry("$class", PlistValue::Uid(5)));
    song.push(entry("song_Album", PlistValue::Uid(4)));
    song.push(entry("song_ID", PlistValue::Integer(meta.song_id)));
    song.push(entry("song_Name", PlistValue::Uid(2)));
    song.push(entry("song_Singer", PlistValue::Uid(3)));
    song.push(entry("song_Type", PlistValue::Integer(13)));
    let song_value = PlistValue::Dictionary(song);
    assert(is_song_dictionary(song_value, meta.song_id));

    let mut names: Vec<PlistValue> = Vec::new();
    names.push(text("SongInfoInFileAttribute"));
    names.push(text("NSObject"));
    let mut class: Vec<PlistEntry> = Vec::new();
    class.push(entry("$classes", PlistValue::Array(names)));
    class.push(entry("$classname", text("SongInfoInFileAttribute")));
    let class_value = PlistValue::Dictionary(class);
    assert(is_class_dictionary(class_value));

    let mut objects: Vec<PlistValue> = Vec::new();
    objects.push(text("$null"));
    objects.push(song_value);
    objects.push(PlistValue::Text(meta.title.clone()));
    objects.push(PlistValue::Text(first_singer_of(meta.singers.as_str())));
    objects.push(PlistValue::Text(meta.album.clone()));
    objects.push(class_value);

    let mut top: Vec<PlistEntry> = Vec::new();
    top.push(entry("root", PlistValue::Uid(1)));

    let mut document: Vec<PlistEntry> = Vec::new();
    document.push(entry("$version", PlistValue::Integer(100_000)));
    document.push(entry("$archiver", text("NSKeyedArchiver")));
    document.push(entry("$top", PlistValue::Dictionary(top)));
    document.push(entry("$objects", PlistValue::Array(objects)));
    PlistValue::Dictionary(document)
}

/// The archive bytes for the song-info attribute: the binary plist of the
/// song's NSKeyedArchiver document.
pub fn info_archive(meta: &SongMeta) -> (r: Result<Vec<u8>, String>)
    ensures
        r is Ok,
        r matches Ok(bytes) ==> exists|v: PlistValue|
            is_song_archive(v, meta@) && bytes@ == #[trigger] binary_plist(v),
{
    let value = info_archive_value(meta);
    match write_binary_plist(&value) {
        Ok(bytes) => Ok(bytes),
        Err(error) => {
            let mut message = "生成 QQ 音乐属性数据失败：".to_owned();
            message.append(error.as_str());
            Err(message)
        },
    }
}

/// One extended attribute to write.
pub struct XattrWrite {
    pub key: String,
    pub value: Vec<u8>,
}

/// The attributes to write on a file and the note reported afterwards.
pub struct QqAttributes {
    pub writes: Vec<XattrWrite>,
    pub note: String,
}

pub open spec fn key_info() -> Seq<char> {
    "com.tencent.qqmusic.SongInfoFileAttribute"@
}

pub open spec fn key_quality() -> Seq<char> {
    "com.tencent.qqmusic.songQuality"@
}

pub open spec fn key_rate() -> Seq<char> {
    "com.tencent.qqmusic.songRate"@
}

/// The QQ Music attributes for a file with catalogue data `meta` and, when
/// it is FLAC, its (sample rate, depth): the song-info archive, then, when
/// the format has known quality markers, songQuality and songRate as
/// little-endian `u32`; the note says whether the markers were written.
pub fn write(meta: &SongMeta, stream_info: Option<(u32, u32)>) -> (r: Result<QqAttributes, String>)
    ensures
        r is Ok,
        r matches Ok(plan) ==> {
            let markers = match stream_info {
                Some((rate, depth)) => quality_for(rate, depth),
                None => None,
            };
            &&& plan.writes@.len() == (if markers is Some {
                3int
            } else {
                1int
            })
            &&& plan.writes@[0].key@ == key_info()
            &&& exists|v: PlistValue|
                is_song_archive(v, meta@) && plan.writes@[0].value@ == #[trigger] binary_plist(v)
            &&& match markers {
                Some((quality, rate)) => {
                    &&& plan.writes@[1].key@ == key_quality()
                    &&& plan.writes@[1].value@ == le32_bytes(quality)
                    &&& plan.writes@[2].key@ == key_rate()
                    &&& plan.writes@[2].value@ == le32_bytes(rate)
                    &&& plan.note@ == "已写入 QQ 音乐文件属性"@ + "（含音质标记）"@
                },
                None => plan.note@ == "已写入 QQ 音乐文件属性"@
                    + "（音质档位未匹配已知值，已跳过 quality/rate）"@,
            }
        },
{
    let archive = info_archive(meta)?;
    let mut writes: Vec<XattrWrite> = Vec::new();
    writes.push(XattrWrite { key: "com.tencent.qqmusic.SongInfoFileAttribute".to_owned(), value: archive });
    let mut note = "已写入 QQ 音乐文件属性".to_owned();
    let markers = match stream_info {
        Some((rate, depth)) => quality_markers(rate, depth),
        None => None,
    };
    match markers {
        Some((quality, rate)) => {
            let mut q: Vec<u8> = Vec::new();
            push_le32(&mut q, quality);
            let mut r: Vec<u8> = Vec::new();
            push_le32(&mut r, rate);
            assert(q@ =~= le32_bytes(quality));
            assert(r@ =~= le32_bytes(rate));
            writes.push(XattrWrite { key: "com.tencent.qqmusic.songQuality".to_owned(), value: q });
            writes.push(XattrWrite { key: "com.tencent.qqmusic.songRate".to_owned(), value: r });
            note.append("（含音质标记）");
        },
        None => {
            note.append("（音质档位未匹配已知值，已跳过 quality/rate）");
        },
    }
    Ok(QqAttributes { writes, note })
}

} // verus!
