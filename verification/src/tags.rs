//! Tags already embedded in an audio file: Vorbis comments in FLAC, and the
//! TIT2 / TPE1 / TALB text frames of an ID3v2 tag in MP3.

use vstd::prelude::*;
use vstd::utf8::valid_utf8;
use crate::bytes::{be32_at, le32_at, read_be32, read_le32};
use crate::flac::{blocks_view, parse_flac, read_blocks, BlockView, BLOCK_VORBIS_COMMENT};
use crate::text::{
    ascii_lowercase, ascii_lowercase_of, ascii_uppercase, chars_equal, from_chars, is_valid_utf8,
    lossy_utf16, lossy_utf8, nul_pred, to_ascii_upper, to_chars, trim_by, trim_nul, trim_spec,
    trim_whitespace, utf16_lossy, utf8_lossy,
};

verus! {

/// Title, artist and album found in a file; empty when absent.
#[derive(Debug, Clone)]
pub struct EmbeddedTags {
    pub title: String,
    pub artist: String,
    pub album: String,
}

/// The mathematical value of embedded tags.
pub struct TagsView {
    pub title: Seq<char>,
    pub artist: Seq<char>,
    pub album: Seq<char>,
}

impl View for EmbeddedTags {
    type V = TagsView;

    open spec fn view(&self) -> TagsView {
        TagsView { title: self.title@, artist: self.artist@, album: self.album@ }
    }
}

impl Default for EmbeddedTags {
    fn default() -> (t: EmbeddedTags)
        ensures
            t@ == no_tags(),
    {
        EmbeddedTags { title: String::new(), artist: String::new(), album: String::new() }
    }
}

/// No title, artist or album.
pub open spec fn no_tags() -> TagsView {
    TagsView { title: seq![], artist: seq![], album: seq![] }
}

/// Whether nothing was found.
pub open spec fn tags_empty(t: TagsView) -> bool {
    t.title.len() == 0 && t.artist.len() == 0 && t.album.len() == 0
}

/// `Some(t)` unless `t` is empty.
pub open spec fn nonempty_tags(t: TagsView) -> Option<TagsView> {
    if tags_empty(t) {
        None
    } else {
        Some(t)
    }
}

/// Index of the first `c` in `s`, from `i` on.
pub open spec fn find_char_from(s: Seq<char>, c: char, i: int) -> Option<int>
    decreases s.len() - i,
{
    if i < 0 || i >= s.len() {
        None
    } else if s[i] == c {
        Some(i)
    } else {
        find_char_from(s, c, i + 1)
    }
}

/// `TITLE`.
pub open spec fn name_title() -> Seq<char> {
    seq!['T', 'I', 'T', 'L', 'E']
}

/// `ARTIST`.
pub open spec fn name_artist() -> Seq<char> {
    seq!['A', 'R', 'T', 'I', 'S', 'T']
}

/// `ALBUMARTIST`.
pub open spec fn name_album_artist() -> Seq<char> {
    seq!['A', 'L', 'B', 'U', 'M', 'A', 'R', 'T', 'I', 'S', 'T']
}

/// `ALBUM`.
pub open spec fn name_album() -> Seq<char> {
    seq!['A', 'L', 'B', 'U', 'M']
}

/// The tags after one `NAME=value` comment: names compare case-insensitively
/// (ASCII); TITLE and ALBUM overwrite, ARTIST or ALBUMARTIST only fill an
/// empty artist; anything else, or an entry without `=`, changes nothing.
pub open spec fn apply_comment(t: TagsView, entry: Seq<char>) -> TagsView {
    match find_char_from(entry, '=', 0) {
        None => t,
        Some(k) => {
            let name = ascii_uppercase(entry.take(k));
            let value = entry.skip(k + 1);
            if name == name_title() {
                TagsView { title: value, ..t }
            } else if (name == name_artist() || name == name_album_artist()) && t.artist.len()
                == 0 {
                TagsView { artist: value, ..t }
            } else if name == name_album() {
                TagsView { album: value, ..t }
            } else {
                t
            }
        },
    }
}

/// The comments from `off` on, `remaining` of them, each a little-endian
/// length and that many bytes decoded as lossy UTF-8; `None` when the data
/// ends first.
pub open spec fn vorbis_comments(d: Seq<u8>, off: int, remaining: int, t: TagsView) -> Option<
    TagsView,
>
    decreases remaining,
{
    if remaining <= 0 {
        Some(t)
    } else if off < 0 || off + 4 > d.len() {
        None
    } else {
        let start = off + 4;
        let end = start + le32_at(d, off);
        if end > d.len() {
            None
        } else {
            vorbis_comments(
                d,
                end,
                remaining - 1,
                apply_comment(t, utf8_lossy(d.subrange(start, end))),
            )
        }
    }
}

/// Tags of a Vorbis comment block: vendor length and vendor string, comment
/// count, comments; `None` when truncated or when no tag was found.
pub open spec fn vorbis_tags_spec(d: Seq<u8>) -> Option<TagsView> {
    if d.len() < 4 {
        None
    } else {
        let off = 4 + le32_at(d, 0);
        if off + 4 > d.len() {
            None
        } else {
            match vorbis_comments(d, off + 4, le32_at(d, off), no_tags()) {
                None => None,
                Some(t) => nonempty_tags(t),
            }
        }
    }
}

/// An ID3 synchsafe integer: four bytes of seven bits each.
pub open spec fn synchsafe_at(d: Seq<u8>, i: int) -> int {
    (d[i] % 128) * 0x20_0000 + (d[i + 1] % 128) * 0x4000 + (d[i + 2] % 128) * 0x80 + (d[i + 3]
        % 128)
}

/// UTF-16 code units from byte pairs (an odd last byte is ignored).
pub open spec fn utf16_units(b: Seq<u8>, big_endian: bool) -> Seq<u16> {
    Seq::new(
        b.len() / 2,
        |i: int|
            if big_endian {
                (b[2 * i] * 0x100 + b[2 * i + 1]) as u16
            } else {
                (b[2 * i] + b[2 * i + 1] * 0x100) as u16
            },
    )
}

/// Latin-1 text: each byte is the character with that code point.
pub open spec fn latin1(bytes: Seq<u8>) -> Seq<char> {
    Seq::new(bytes.len(), |i: int| (bytes[i] as u32) as char)
}

/// The text of an ID3 text frame: encoding byte 0 is Latin-1, 1 is UTF-16
/// with a byte order mark (little-endian unless FE FF), 2 is UTF-16BE,
/// anything else is read as UTF-8; NULs and then white space are trimmed
/// from both ends.
pub open spec fn id3_text_spec(body: Seq<u8>) -> Seq<char> {
    if body.len() == 0 {
        seq![]
    } else {
        let encoding = body[0];
        let text = body.drop_first();
        let has_bom = text.len() >= 2 && ((text[0] == 0xFF && text[1] == 0xFE) || (text[0] == 0xFE
            && text[1] == 0xFF));
        let decoded = if encoding == 1 {
            let big_endian = text.len() >= 2 && text[0] == 0xFE && text[1] == 0xFF;
            utf16_lossy(utf16_units(text.skip(if has_bom { 2 } else { 0 }), big_endian))
        } else if encoding == 2 {
            utf16_lossy(utf16_units(text, true))
        } else if encoding == 0 {
            latin1(text)
        } else {
            utf8_lossy(text)
        };
        trim_spec(trim_by(decoded, nul_pred()))
    }
}

/// `TIT2`, `TPE1`, `TALB` as bytes.
pub open spec fn frame_tit2() -> Seq<u8> {
    seq![0x54u8, 0x49u8, 0x54u8, 0x32u8]
}

pub open spec fn frame_tpe1() -> Seq<u8> {
    seq![0x54u8, 0x50u8, 0x45u8, 0x31u8]
}

pub open spec fn frame_talb() -> Seq<u8> {
    seq![0x54u8, 0x41u8, 0x4Cu8, 0x42u8]
}

/// The tags after one text frame: TIT2 and TALB overwrite, TPE1 only fills
/// an empty artist.
pub open spec fn apply_frame(t: TagsView, id: Seq<u8>, text: Seq<char>) -> TagsView {
    if id == frame_tit2() {
        TagsView { title: text, ..t }
    } else if id == frame_tpe1() && t.artist.len() == 0 {
        TagsView { artist: text, ..t }
    } else if id == frame_talb() {
        TagsView { album: text, ..t }
    } else {
        t
    }
}

/// The frames from `off` on while a whole frame header fits before `end`:
/// stops at a frame id that does not start with `T` or at a zero size;
/// `None` for an id that is not UTF-8 or a frame running past the data.
pub open spec fn id3_frames(d: Seq<u8>, version: u8, end: int, off: int, t: TagsView) -> Option<
    TagsView,
>
    decreases end - off,
{
    if off < 0 || off + 10 > end || end > d.len() {
        Some(t)
    } else {
        let id = d.subrange(off, off + 4);
        if !valid_utf8(id) {
            None
        } else if id[0] != 0x54 {
            Some(t)
        } else {
            let size = if version >= 4 {
                synchsafe_at(d, off + 4)
            } else {
                be32_at(d, off + 4)
            };
            if size == 0 {
                Some(t)
            } else if off + 10 + size > d.len() {
                None
            } else {
                let next = off + 10 + size;
                let t2 = apply_frame(t, id, id3_text_spec(d.subrange(off + 10, next)));
                if next + 10 > end {
                    Some(t2)
                } else {
                    id3_frames(d, version, end, next, t2)
                }
            }
        }
    }
}

/// `ID3`.
pub open spec fn id3_magic() -> Seq<u8> {
    seq![0x49u8, 0x44u8, 0x33u8]
}

/// Tags of an ID3v2 (2.3 / 2.4) tag at the start of `d`: the header gives the
/// version and a synchsafe tag size; frames are read up to the tag's end.
pub open spec fn id3v2_tags_spec(d: Seq<u8>) -> Option<TagsView> {
    if d.len() < 10 || d.subrange(0, 3) != id3_magic() {
        None
    } else {
        let size = synchsafe_at(d, 6);
        let end = if d.len() < 10 + size {
            d.len() as int
        } else {
            10 + size
        };
        match id3_frames(d, d[3], end, 10, no_tags()) {
            None => None,
            Some(t) => nonempty_tags(t),
        }
    }
}

/// The first Vorbis comment block among `bs`, from `i` on.
pub open spec fn first_comment_block(bs: Seq<BlockView>, i: int) -> Option<Seq<u8>>
    decreases bs.len() - i,
{
    if i < 0 || i >= bs.len() {
        None
    } else if bs[i].kind == BLOCK_VORBIS_COMMENT {
        Some(bs[i].data)
    } else {
        first_comment_block(bs, i + 1)
    }
}

/// Tags of a FLAC file, from its first Vorbis comment block.
pub open spec fn flac_tags_spec(file: Seq<u8>) -> Option<TagsView> {
    match parse_flac(file) {
        None => None,
        Some((bs, _)) => match first_comment_block(bs, 0) {
            None => None,
            Some(d) => vorbis_tags_spec(d),
        },
    }
}

/// `flac`.
pub open spec fn ext_flac() -> Seq<char> {
    seq!['f', 'l', 'a', 'c']
}

/// `mp3`.
pub open spec fn ext_mp3() -> Seq<char> {
    seq!['m', 'p', '3']
}

/// Tags of a file by its extension (any ASCII case): FLAC files through
/// their Vorbis comments, MP3 files through ID3v2; nothing for other types.
pub open spec fn embedded_tags_spec(extension: Option<Seq<char>>, file: Seq<u8>) -> Option<
    TagsView,
> {
    match extension {
        Some(e) => if ascii_lowercase(e) == ext_flac() {
            flac_tags_spec(file)
        } else if ascii_lowercase(e) == ext_mp3() {
            id3v2_tags_spec(file)
        } else {
            None
        },
        None => None,
    }
}

/// Once an artist is known, no later comment changes it: neither ARTIST nor
/// ALBUMARTIST (in any case) overwrites it, and nothing else touches it.
pub proof fn lemma_artist_kept(t: TagsView, entry: Seq<char>)
    requires
        t.artist.len() > 0,
    ensures
        apply_comment(t, entry).artist == t.artist,
{
}

/// While no artist is known, an `ARTIST=value` or `ALBUMARTIST=value`
/// comment sets it to the value; TITLE and ALBUM comments set their own
/// field and leave the others alone.
pub proof fn lemma_comment_fields(t: TagsView, name: Seq<char>, value: Seq<char>)
    requires
        name == name_artist() || name == name_album_artist() || name == name_title() || name
            == name_album(),
    ensures
        ({
            let r = apply_comment(t, name + seq!['='] + value);
            &&& (name == name_title()) ==> (r.title == value && r.artist == t.artist && r.album
                == t.album)
            &&& (name == name_album()) ==> (r.album == value && r.artist == t.artist && r.title
                == t.title)
            &&& (name == name_artist() || name == name_album_artist()) ==> (r.title == t.title
                && r.album == t.album && r.artist == (if t.artist.len() == 0 {
                value
            } else {
                t.artist
            }))
        }),
{
    let entry = name + seq!['='] + value;
    let k = name.len() as int;
    assert forall|i: int| 0 <= i < k implies entry[i] != '=' by {
        assert(entry[i] == name[i]);
    }
    assert(entry[k] == '=');
    assert forall|i: int| 0 <= i <= k implies find_char_from(entry, '=', i) == Some(k) by {
        lemma_find_at(entry, k, i);
    }
    assert(entry.take(k) =~= name);
    assert(entry.skip(k + 1) =~= value);
    assert(ascii_uppercase(name) =~= name);
}

/// Searching from `i` finds `=` at `k` when there is none in between.
proof fn lemma_find_at(s: Seq<char>, k: int, i: int)
    requires
        0 <= i <= k < s.len(),
        s[k] == '=',
        forall|j: int| 0 <= j < k ==> s[j] != '=',
    ensures
        find_char_from(s, '=', i) == Some(k),
    decreases k - i,
{
    if i < k {
        lemma_find_at(s, k, i + 1);
    }
}

/// Over the comments of a block, the first artist found stays: once the
/// tags hold an artist, reading more comments keeps it.
pub proof fn lemma_comments_keep_artist(d: Seq<u8>, off: int, remaining: int, t: TagsView)
    requires
        t.artist.len() > 0,
        vorbis_comments(d, off, remaining, t) is Some,
    ensures
        vorbis_comments(d, off, remaining, t).unwrap().artist == t.artist,
    decreases remaining,
{
    if remaining > 0 {
        let start = off + 4;
        let end = start + le32_at(d, off);
        let entry = utf8_lossy(d.subrange(start, end));
        lemma_artist_kept(t, entry);
        lemma_comments_keep_artist(d, end, remaining - 1, apply_comment(t, entry));
    }
}

/// In an ID3v2 tag the first TPE1 frame gives the artist: once the artist is
/// known no later frame changes it; TIT2 sets the title and TALB the album,
/// each leaving the other fields alone; other frames change nothing.
pub proof fn lemma_id3_frame_fields(t: TagsView, id: Seq<u8>, text: Seq<char>)
    ensures
        ({
            let r = apply_frame(t, id, text);
            &&& t.artist.len() > 0 ==> r.artist == t.artist
            &&& id == seq![0x54u8, 0x50u8, 0x45u8, 0x31u8] && t.artist.len() == 0 ==> r.artist
                == text
            &&& id == seq![0x54u8, 0x49u8, 0x54u8, 0x32u8] ==> r.title == text && r.album
                == t.album
            &&& id == seq![0x54u8, 0x41u8, 0x4Cu8, 0x42u8] ==> r.album == text && r.title
                == t.title
            &&& id != seq![0x54u8, 0x49u8, 0x54u8, 0x32u8] && id != seq![
                0x54u8,
                0x50u8,
                0x45u8,
                0x31u8,
            ] && id != seq![0x54u8, 0x41u8, 0x4Cu8, 0x42u8] ==> r == t
        }),
{
    assert(frame_tit2() =~= seq![0x54u8, 0x49u8, 0x54u8, 0x32u8]);
    assert(frame_tpe1() =~= seq![0x54u8, 0x50u8, 0x45u8, 0x31u8]);
    assert(frame_talb() =~= seq![0x54u8, 0x41u8, 0x4Cu8, 0x42u8]);
    assert(frame_tit2() != frame_tpe1() && frame_tit2() != frame_talb() && frame_tpe1()
        != frame_talb()) by {
        assert(frame_tit2()[1] != frame_tpe1()[1]);
        assert(frame_tit2()[1] != frame_talb()[1]);
        assert(frame_tpe1()[1] != frame_talb()[1]);
    }
}

/// A little-endian `u32` reads back as the value written.
proof fn lemma_le32_reads_back(s: Seq<u8>, i: int, v: u32)
    requires
        0 <= i,
        i + 4 <= s.len(),
        s.subrange(i, i + 4) == crate::bytes::le32_bytes(v),
    ensures
        le32_at(s, i) == v,
{
    assert(s[i] == s.subrange(i, i + 4)[0]);
    assert(s[i + 1] == s.subrange(i, i + 4)[1]);
    assert(s[i + 2] == s.subrange(i, i + 4)[2]);
    assert(s[i + 3] == s.subrange(i, i + 4)[3]);
    assert((v % 0x100) as u8 as int + ((v / 0x100) % 0x100) as u8 as int * 0x100 + ((v / 0x10000)
        % 0x100) as u8 as int * 0x10000 + (v / 0x1000000) as u8 as int * 0x1000000 == v)
        by (bit_vector);
}

/// The comments of a Vorbis comment block as a writer lays them out: each
/// one's little-endian `u32` length, then its bytes.
pub open spec fn comment_list_bytes(entries: Seq<Seq<u8>>) -> Seq<u8>
    decreases entries.len(),
{
    if entries.len() == 0 {
        seq![]
    } else {
        crate::bytes::le32_bytes(entries[0].len() as u32) + entries[0] + comment_list_bytes(
            entries.skip(1),
        )
    }
}

/// A Vorbis comment block as a writer lays it out: vendor length, vendor
/// string, number of comments, comments.
pub open spec fn vorbis_block(vendor: Seq<u8>, entries: Seq<Seq<u8>>) -> Seq<u8> {
    crate::bytes::le32_bytes(vendor.len() as u32) + vendor + crate::bytes::le32_bytes(
        entries.len() as u32,
    ) + comment_list_bytes(entries)
}

/// The tags after reading `entries` in order, each decoded as lossy UTF-8.
pub open spec fn read_in_order(t: TagsView, entries: Seq<Seq<u8>>) -> TagsView
    decreases entries.len(),
{
    if entries.len() == 0 {
        t
    } else {
        read_in_order(apply_comment(t, utf8_lossy(entries[0])), entries.skip(1))
    }
}

/// Reading comments laid out one after another takes each in turn.
proof fn lemma_comments_in_order(
    pre: Seq<u8>,
    entries: Seq<Seq<u8>>,
    post: Seq<u8>,
    t: TagsView,
)
    requires
        forall|j: int| 0 <= j < entries.len() ==> (#[trigger] entries[j]).len() <= u32::MAX,
    ensures
        vorbis_comments(
            pre + comment_list_bytes(entries) + post,
            pre.len() as int,
            entries.len() as int,
            t,
        ) == Some(read_in_order(t, entries)),
    decreases entries.len(),
{
    if entries.len() > 0 {
        let e = entries[0];
        let rest = entries.skip(1);
        let l = crate::bytes::le32_bytes(e.len() as u32);
        let d = pre + comment_list_bytes(entries) + post;
        let off = pre.len() as int;
        assert(d =~= pre + l + e + comment_list_bytes(rest) + post);
        assert(d.subrange(off, off + 4) =~= l);
        lemma_le32_reads_back(d, off, e.len() as u32);
        assert(d.subrange(off + 4, off + 4 + e.len()) =~= e);
        assert forall|j: int| 0 <= j < rest.len() implies (#[trigger] rest[j]).len() <= u32::MAX by {
            assert(rest[j] == entries[j + 1]);
        }
        lemma_comments_in_order(pre + l + e, rest, post, apply_comment(t, utf8_lossy(e)));
        assert(pre + l + e + comment_list_bytes(rest) + post =~= d);
    }
}

/// A Vorbis comment block reads back as written: the tags are those the
/// comments give when read in order (`None` when they give none).
pub proof fn lemma_vorbis_block_reads_back(vendor: Seq<u8>, entries: Seq<Seq<u8>>)
    requires
        vendor.len() <= u32::MAX,
        entries.len() <= u32::MAX,
        forall|j: int| 0 <= j < entries.len() ==> (#[trigger] entries[j]).len() <= u32::MAX,
    ensures
        vorbis_tags_spec(vorbis_block(vendor, entries)) == nonempty_tags(
            read_in_order(no_tags(), entries),
        ),
{
    let lv = crate::bytes::le32_bytes(vendor.len() as u32);
    let ln = crate::bytes::le32_bytes(entries.len() as u32);
    let c = comment_list_bytes(entries);
    let d = vorbis_block(vendor, entries);
    let v = vendor.len() as int;
    assert(d =~= lv + vendor + ln + c);
    assert(d.subrange(0, 4) =~= lv);
    lemma_le32_reads_back(d, 0, vendor.len() as u32);
    assert(d.subrange(4 + v, 8 + v) =~= ln);
    lemma_le32_reads_back(d, 4 + v, entries.len() as u32);
    lemma_comments_in_order(lv + vendor + ln, entries, Seq::empty(), no_tags());
    assert(lv + vendor + ln + c + Seq::<u8>::empty() =~= d);
}

/// Index of the first `c` in `v`.
fn find_char(v: &[char], c: char) -> (r: Option<usize>)
    ensures
        r matches Some(k) ==> find_char_from(v@, c, 0) == Some(k as int) && k < v@.len(),
        r is None ==> find_char_from(v@, c, 0) is None,
{
    let mut i: usize = 0;
    while i < v.len()
        invariant
            i <= v@.len(),
            find_char_from(v@, c, 0) == find_char_from(v@, c, i as int),
        decreases v@.len() - i,
    {
        if v[i] == c {
            return Some(i);
        }
        i = i + 1;
    }
    None
}

/// ASCII uppercase of `v[..k]`.
fn upper_prefix(v: &[char], k: usize) -> (r: Vec<char>)
    requires
        k <= v@.len(),
    ensures
        r@ == ascii_uppercase(v@.take(k as int)),
{
    let mut r: Vec<char> = Vec::new();
    let mut i: usize = 0;
    while i < k
        invariant
            k <= v@.len(),
            i <= k,
            r@ == ascii_uppercase(v@.take(i as int)),
        decreases k - i,
    {
        r.push(to_ascii_upper(v[i]));
        i = i + 1;
        assert(r@ =~= ascii_uppercase(v@.take(i as int)));
    }
    r
}

/// Applies one decoded comment to the tags.
fn apply_comment_exec(tags: &mut EmbeddedTags, entry: &str)
    ensures
        final(tags)@ == apply_comment(old(tags)@, entry@),
{
    let v = to_chars(entry);
    let n = v.len();
    let k = match find_char(v.as_slice(), '=') {
        Some(k) => k,
        None => return,
    };
    let name = upper_prefix(v.as_slice(), k);
    let mut value_chars: Vec<char> = Vec::new();
    let mut i: usize = k + 1;
    while i < v.len()
        invariant
            n == v@.len(),
            k < v@.len(),
            k + 1 <= i <= v@.len(),
            value_chars@ == v@.subrange(k + 1, i as int),
        decreases v@.len() - i,
    {
        value_chars.push(v[i]);
        i = i + 1;
        assert(value_chars@ =~= v@.subrange(k + 1, i as int));
    }
    assert(value_chars@ =~= v@.skip(k + 1));
    let value = from_chars(value_chars.as_slice());
    let title: [char; 5] = ['T', 'I', 'T', 'L', 'E'];
    let artist: [char; 6] = ['A', 'R', 'T', 'I', 'S', 'T'];
    let album_artist: [char; 11] = ['A', 'L', 'B', 'U', 'M', 'A', 'R', 'T', 'I', 'S', 'T'];
    let album: [char; 5] = ['A', 'L', 'B', 'U', 'M'];
    assert(title@ =~= name_title());
    assert(artist@ =~= name_artist());
    assert(album_artist@ =~= name_album_artist());
    assert(album@ =~= name_album());
    if chars_equal(name.as_slice(), &title) {
        tags.title = value;
    } else if (chars_equal(name.as_slice(), &artist) || chars_equal(name.as_slice(), &album_artist))
        && tags.artist.as_str().is_empty() {
        tags.artist = value;
    } else if chars_equal(name.as_slice(), &album) {
        tags.album = value;
    }
}

/// Whether no tag was found.
fn is_empty_tags(tags: &EmbeddedTags) -> (b: bool)
    ensures
        b == tags_empty(tags@),
{
    tags.title.as_str().is_empty() && tags.artist.as_str().is_empty()
        && tags.album.as_str().is_empty()
}

/// Tags of a Vorbis comment block (vendor string, then `NAME=value`
/// comments); `None` when truncated or when no title, artist or album is found.
pub fn vorbis_tags(data: &[u8]) -> (r: Option<EmbeddedTags>)
    ensures
        match r {
            Some(t) => vorbis_tags_spec(data@) == Some(t@),
            None => vorbis_tags_spec(data@) is None,
        },
{
    let n = data.len();
    if n < 4 {
        return None;
    }
    let vendor = read_le32(data, 0) as usize;
    if vendor > n - 4 || n - 4 - vendor < 4 {
        return None;
    }
    let mut offset: usize = 4 + vendor;
    let count = read_le32(data, offset);
    offset = offset + 4;
    let mut tags = EmbeddedTags::default();
    let mut done: u32 = 0;
    while done < count
        invariant
            n == data@.len(),
            offset <= n,
            done <= count,
            vorbis_comments(data@, 8 + vendor, count as int, no_tags()) == vorbis_comments(
                data@,
                offset as int,
                count - done,
                tags@,
            ),
            vendor == le32_at(data@, 0),
            count == le32_at(data@, 4 + vendor),
        decreases count - done,
    {
        if n - offset < 4 {
            return None;
        }
        let length = read_le32(data, offset) as usize;
        let start = offset + 4;
        if length > n - start {
            return None;
        }
        let end = start + length;
        let bytes = crate::bytes::copy_range(data, start, end);
        let entry = lossy_utf8(bytes.as_slice());
        apply_comment_exec(&mut tags, entry.as_str());
        offset = end;
        done = done + 1;
    }
    if is_empty_tags(&tags) {
        None
    } else {
        Some(tags)
    }
}

/// An ID3 synchsafe integer at `i`.
fn read_synchsafe(d: &[u8], i: usize) -> (v: u32)
    requires
        i + 4 <= d@.len(),
    ensures
        v == synchsafe_at(d@, i as int),
{
    let a = (d[i] % 128) as u32;
    let b = (d[i + 1] % 128) as u32;
    let c = (d[i + 2] % 128) as u32;
    let e = (d[i + 3] % 128) as u32;
    a * 0x20_0000 + b * 0x4000 + c * 0x80 + e
}

/// An ID3 synchsafe integer (seven bits per byte) held in exactly four
/// bytes; nothing for a slice of another length.
pub fn synchsafe(bytes: &[u8]) -> (r: Option<u32>)
    ensures
        bytes@.len() == 4 ==> r == Some(synchsafe_at(bytes@, 0) as u32),
        bytes@.len() != 4 ==> r is None,
{
    if bytes.len() != 4 {
        return None;
    }
    Some(read_synchsafe(bytes, 0))
}

/// The text of an ID3 text frame body.
pub fn id3_text(body: &[u8]) -> (s: String)
    ensures
        s@ == id3_text_spec(body@),
{
    if body.len() == 0 {
        return String::new();
    }
    let encoding = body[0];
    let text = crate::bytes::copy_range(body, 1, body.len());
    assert(text@ =~= body@.drop_first());
    let t = text.as_slice();
    let decoded: String = if encoding == 1 || encoding == 2 {
        let has_bom = t.len() >= 2 && ((t[0] == 0xFF && t[1] == 0xFE) || (t[0] == 0xFE && t[1]
            == 0xFF));
        let big_endian = if encoding == 2 {
            true
        } else {
            t.len() >= 2 && t[0] == 0xFE && t[1] == 0xFF
        };
        let skip: usize = if encoding == 1 && has_bom {
            2
        } else {
            0
        };
        let units = utf16_units_of(t, skip, big_endian);
        assert(units@ =~= utf16_units(t@.skip(skip as int), big_endian));
        lossy_utf16(units.as_slice())
    } else if encoding == 0 {
        latin1_text(t)
    } else {
        lossy_utf8(t)
    };
    proof {
        if encoding == 2 {
            assert(t@.skip(0) =~= t@);
        }
    }
    let chars = to_chars(decoded.as_str());
    let no_nul = trim_nul(chars.as_slice());
    let trimmed = trim_whitespace(no_nul.as_slice());
    from_chars(trimmed.as_slice())
}

/// Decodes Latin-1 bytes.
fn latin1_text(t: &[u8]) -> (s: String)
    ensures
        s@ == latin1(t@),
{
    let mut out: Vec<char> = Vec::new();
    let mut i: usize = 0;
    while i < t.len()
        invariant
            i <= t@.len(),
            out@ =~= latin1(t@.take(i as int)),
        decreases t@.len() - i,
    {
        out.push(t[i] as char);
        i = i + 1;
    }
    assert(t@.take(t@.len() as int) =~= t@);
    from_chars(out.as_slice())
}

/// UTF-16 code units of `t[skip..]`.
fn utf16_units_of(t: &[u8], skip: usize, big_endian: bool) -> (u: Vec<u16>)
    requires
        skip <= t@.len(),
    ensures
        u@ == utf16_units(t@.skip(skip as int), big_endian),
{
    let ghost b = t@.skip(skip as int);
    let n = t.len();
    let pairs = (n - skip) / 2;
    let mut u: Vec<u16> = Vec::new();
    let mut i: usize = 0;
    while i < pairs
        invariant
            b == t@.skip(skip as int),
            n == t@.len(),
            pairs == b.len() / 2,
            i <= pairs,
            skip <= t@.len(),
            u@ == utf16_units(b, big_endian).take(i as int),
        decreases pairs - i,
    {
        assert(skip + 2 * i + 1 < n);
        let hi = t[skip + 2 * i];
        let lo = t[skip + 2 * i + 1];
        let unit: u16 = if big_endian {
            (hi as u16) * 0x100 + (lo as u16)
        } else {
            (hi as u16) + (lo as u16) * 0x100
        };
        assert(b[2 * i] == hi && b[2 * i + 1] == lo);
        u.push(unit);
        i = i + 1;
        assert(u@ =~= utf16_units(b, big_endian).take(i as int));
    }
    assert(utf16_units(b, big_endian).take(pairs as int) =~= utf16_units(b, big_endian));
    u
}

/// Applies one text frame to the tags.
fn apply_frame_exec(tags: &mut EmbeddedTags, id: &[u8], text: String)
    requires
        id@.len() == 4,
    ensures
        final(tags)@ == apply_frame(old(tags)@, id@, text@),
{
    let tit2: [u8; 4] = [0x54, 0x49, 0x54, 0x32];
    let tpe1: [u8; 4] = [0x54, 0x50, 0x45, 0x31];
    let talb: [u8; 4] = [0x54, 0x41, 0x4C, 0x42];
    assert(tit2@ =~= frame_tit2());
    assert(tpe1@ =~= frame_tpe1());
    assert(talb@ =~= frame_talb());
    assert(id@.subrange(0, 4) =~= id@);
    let is_tit2 = crate::bytes::range_equals(id, 0, &tit2);
    let is_tpe1 = crate::bytes::range_equals(id, 0, &tpe1);
    let is_talb = crate::bytes::range_equals(id, 0, &talb);
    if is_tit2 {
        tags.title = text;
    } else if is_tpe1 && tags.artist.as_str().is_empty() {
        tags.artist = text;
    } else if is_talb {
        tags.album = text;
    }
}

/// The size field of the frame header at `offset`: synchsafe from version 4 on.
fn frame_size(data: &[u8], version: u8, offset: usize) -> (size: u32)
    requires
        offset + 8 <= data@.len(),
    ensures
        size == (if version >= 4 {
            synchsafe_at(data@, offset + 4)
        } else {
            be32_at(data@, offset + 4)
        }),
{
    let n = data.len();
    if version >= 4 {
        read_synchsafe(data, offset + 4)
    } else {
        read_be32(data, offset + 4)
    }
}

/// Tags of an ID3v2 tag at the start of an MP3 file; `None` when there is no
/// such tag, when it is malformed, or when no title, artist or album is found.
pub fn id3v2_tags(data: &[u8]) -> (r: Option<EmbeddedTags>)
    ensures
        match r {
            Some(t) => id3v2_tags_spec(data@) == Some(t@),
            None => id3v2_tags_spec(data@) is None,
        },
{
    let n = data.len();
    let magic: [u8; 3] = [0x49, 0x44, 0x33];
    assert(magic@ =~= id3_magic());
    if n < 10 || !crate::bytes::range_equals(data, 0, &magic) {
        return None;
    }
    let version = data[3];
    let size = read_synchsafe(data, 6) as usize;
    let end: usize = if n - 10 < size {
        n
    } else {
        10 + size
    };
    let mut tags = EmbeddedTags::default();
    let mut offset: usize = 10;
    while offset <= end && end - offset >= 10
        invariant
            n == data@.len(),
            10 <= end <= n,
            offset <= n,
            end == (if data@.len() < 10 + synchsafe_at(data@, 6) {
                data@.len() as int
            } else {
                10 + synchsafe_at(data@, 6)
            }),
            version == data@[3],
            id3_frames(data@, version, end as int, 10, no_tags()) == id3_frames(
                data@,
                version,
                end as int,
                offset as int,
                tags@,
            ),
        ensures
            id3_frames(data@, version, end as int, 10, no_tags()) == Some(tags@),
        decreases n + 10 - offset,
    {
        let id = crate::bytes::copy_range(data, offset, offset + 4);
        if !is_valid_utf8(id.as_slice()) {
            return None;
        }
        if id[0] != 0x54 {
            break;
        }
        let size = frame_size(data, version, offset) as usize;
        if size == 0 {
            break;
        }
        if size > n - offset - 10 {
            return None;
        }
        let body = crate::bytes::copy_range(data, offset + 10, offset + 10 + size);
        let text = id3_text(body.as_slice());
        apply_frame_exec(&mut tags, id.as_slice(), text);
        offset = offset + 10 + size;
    }
    if is_empty_tags(&tags) {
        None
    } else {
        Some(tags)
    }
}

/// Tags of the first Vorbis comment block of a FLAC file.
fn flac_tags(file: &[u8]) -> (r: Option<EmbeddedTags>)
    ensures
        match r {
            Some(t) => flac_tags_spec(file@) == Some(t@),
            None => flac_tags_spec(file@) is None,
        },
{
    let meta = match read_blocks(file) {
        Ok(m) => m,
        Err(_) => return None,
    };
    let ghost bs = blocks_view(meta.blocks@);
    let mut i: usize = 0;
    while i < meta.blocks.len()
        invariant
            bs == blocks_view(meta.blocks@),
            parse_flac(file@) == Some((bs, meta.audio_offset as int)),
            i <= meta.blocks@.len(),
            first_comment_block(bs, 0) == first_comment_block(bs, i as int),
        decreases meta.blocks@.len() - i,
    {
        assert(bs[i as int] == meta.blocks@[i as int]@);
        if meta.blocks[i].kind == BLOCK_VORBIS_COMMENT {
            assert(first_comment_block(bs, i as int) == Some(meta.blocks@[i as int].data@));
            return vorbis_tags(meta.blocks[i].data.as_slice());
        }
        i = i + 1;
    }
    None
}

/// Tags embedded in a file, chosen by its extension (any ASCII case): FLAC
/// files are read through their Vorbis comments, MP3 files through ID3v2,
/// other files have none. `file` holds the file's bytes.
/// Whether files with this extension carry tags the tool reads (FLAC and
/// MP3, in any ASCII case); for others the file need not be read at all.
pub fn has_readable_tags(extension: Option<&str>) -> (b: bool)
    ensures
        b == match extension {
            Some(e) => ascii_lowercase(e@) == ext_flac() || ascii_lowercase(e@) == ext_mp3(),
            None => false,
        },
        !b ==> forall|file: Seq<u8>|
            #[trigger] embedded_tags_spec(crate::media::ext_view(extension), file) is None,
{
    let ext = match extension {
        Some(e) => e,
        None => return false,
    };
    let lower = ascii_lowercase_of(ext);
    let lower_chars = to_chars(lower.as_str());
    let flac: [char; 4] = ['f', 'l', 'a', 'c'];
    let mp3: [char; 3] = ['m', 'p', '3'];
    assert(flac@ =~= ext_flac());
    assert(mp3@ =~= ext_mp3());
    chars_equal(lower_chars.as_slice(), &flac) || chars_equal(lower_chars.as_slice(), &mp3)
}

pub fn read_embedded_tags(extension: Option<&str>, file: &[u8]) -> (r: Option<EmbeddedTags>)
    ensures
        match r {
            Some(t) => embedded_tags_spec(
                match extension {
                    Some(e) => Some(e@),
                    None => None,
                },
                file@,
            ) == Some(t@),
            None => embedded_tags_spec(
                match extension {
                    Some(e) => Some(e@),
                    None => None,
                },
                file@,
            ) is None,
        },
{
    let ext = match extension {
        Some(e) => e,
        None => return None,
    };
    let lower = ascii_lowercase_of(ext);
    let lower_chars = to_chars(lower.as_str());
    let flac: [char; 4] = ['f', 'l', 'a', 'c'];
    let mp3: [char; 3] = ['m', 'p', '3'];
    assert(flac@ =~= ext_flac());
    assert(mp3@ =~= ext_mp3());
    if chars_equal(lower_chars.as_slice(), &flac) {
        flac_tags(file)
    } else if chars_equal(lower_chars.as_slice(), &mp3) {
        id3v2_tags(file)
    } else {
        None
    }
}

} // verus!
