//! The catalogue requests: URLs for song details, search, lyrics and cover
//! art, and what is accepted as a cover.

use vstd::prelude::*;
use vstd::string::StringSliceAdditionalSpecFns;
use crate::text::{decimal, decimal_string, from_chars, to_chars, trim_spec, trim_whitespace};

verus! {

/// Whether a byte is kept as is by the percent encoding: ASCII letters,
/// digits, `-`, `_`, `.`, `~`.
pub open spec fn unreserved(b: u8) -> bool {
    (0x41 <= b <= 0x5A) || (0x61 <= b <= 0x7A) || (0x30 <= b <= 0x39) || b == 0x2D || b == 0x5F
        || b == 0x2E || b == 0x7E
}

/// An upper-case hexadecimal digit.
pub open spec fn hex_digit(n: u8) -> char {
    if n < 10 {
        ((n + 48) as u32) as char
    } else {
        ((n + 55) as u32) as char
    }
}

/// The encoding of one byte: itself when unreserved, `+` for a space, else
/// `%` and two upper-case hex digits.
pub open spec fn encode_byte(b: u8) -> Seq<char> {
    if unreserved(b) {
        seq![(b as u32) as char]
    } else if b == 0x20 {
        seq!['+']
    } else {
        seq!['%', hex_digit(b / 16), hex_digit(b % 16)]
    }
}

/// The encoding of a byte string.
pub open spec fn percent_encoded(bytes: Seq<u8>) -> Seq<char>
    decreases bytes.len(),
{
    if bytes.len() == 0 {
        seq![]
    } else {
        percent_encoded(bytes.drop_last()) + encode_byte(bytes.last())
    }
}

/// The value of an upper-case hexadecimal digit.
pub open spec fn hex_value(c: char) -> Option<u8> {
    let v = c as u32;
    if 48 <= v <= 57 {
        Some((v - 48) as u8)
    } else if 65 <= v <= 70 {
        Some((v - 55) as u8)
    } else {
        None
    }
}

/// The bytes that form decoding reads from a query value: `+` is a space,
/// `%` and two hex digits one byte, unreserved characters themselves;
/// anything else is not part of an encoded value (`None`).
pub open spec fn form_decoded(t: Seq<char>) -> Option<Seq<u8>>
    decreases t.len(),
{
    if t.len() == 0 {
        Some(seq![])
    } else if t[0] == '+' {
        match form_decoded(t.skip(1)) {
            Some(r) => Some(seq![0x20u8] + r),
            None => None,
        }
    } else if t[0] == '%' {
        if t.len() >= 3 && hex_value(t[1]) is Some && hex_value(t[2]) is Some {
            match form_decoded(t.skip(3)) {
                Some(r) => Some(
                    seq![(hex_value(t[1]).unwrap() * 16 + hex_value(t[2]).unwrap()) as u8] + r,
                ),
                None => None,
            }
        } else {
            None
        }
    } else if (t[0] as u32) < 128 && unreserved((t[0] as u32) as u8) {
        match form_decoded(t.skip(1)) {
            Some(r) => Some(seq![(t[0] as u32) as u8] + r),
            None => None,
        }
    } else {
        None
    }
}

/// Encoding distributes over concatenation.
proof fn lemma_percent_encoded_concat(a: Seq<u8>, b: Seq<u8>)
    ensures
        percent_encoded(a + b) == percent_encoded(a) + percent_encoded(b),
    decreases b.len(),
{
    if b.len() == 0 {
        assert(a + b =~= a);
        assert(percent_encoded(a) + percent_encoded(b) =~= percent_encoded(a));
    } else {
        lemma_percent_encoded_concat(a, b.drop_last());
        assert((a + b).drop_last() =~= a + b.drop_last());
        assert((a + b).last() == b.last());
        assert(percent_encoded(a) + percent_encoded(b) =~= percent_encoded(a) + percent_encoded(
            b.drop_last(),
        ) + encode_byte(b.last()));
    }
}

/// Hex digits read back as the value they write.
proof fn lemma_hex_round_trip(n: u8)
    requires
        n < 16,
    ensures
        hex_value(hex_digit(n)) == Some(n),
{
}

/// One encoded byte, followed by an encoded rest, decodes to the byte and the rest.
proof fn lemma_decode_step(b: u8, rest: Seq<char>)
    ensures
        form_decoded(encode_byte(b) + rest) == match form_decoded(rest) {
            Some(r) => Some(seq![b] + r),
            None => None::<Seq<u8>>,
        },
{
    let t = encode_byte(b) + rest;
    if unreserved(b) {
        assert(t.skip(1) =~= rest);
        assert(t[0] == (b as u32) as char);
    } else if b == 0x20 {
        assert(t.skip(1) =~= rest);
    } else {
        lemma_hex_round_trip(b / 16);
        lemma_hex_round_trip(b % 16);
        assert(t.skip(3) =~= rest);
        assert(t[1] == hex_digit(b / 16) && t[2] == hex_digit(b % 16));
        assert((b / 16) * 16 + b % 16 == b);
    }
}

/// A server that form-decodes the query reads back exactly the bytes of the
/// keyword: the encoding is undone by decoding.
pub proof fn lemma_percent_encoding_reads_back(bytes: Seq<u8>)
    ensures
        form_decoded(percent_encoded(bytes)) == Some(bytes),
    decreases bytes.len(),
{
    if bytes.len() > 0 {
        let rest = bytes.skip(1);
        assert(bytes =~= seq![bytes[0]] + rest);
        lemma_percent_encoded_concat(seq![bytes[0]], rest);
        assert(seq![bytes[0]].drop_last() =~= Seq::<u8>::empty());
        assert(seq![bytes[0]].last() == bytes[0]);
        assert(percent_encoded(Seq::<u8>::empty()) =~= Seq::<char>::empty());
        assert(percent_encoded(seq![bytes[0]]) =~= encode_byte(bytes[0]));
        lemma_percent_encoding_reads_back(rest);
        lemma_decode_step(bytes[0], percent_encoded(rest));
        assert(seq![bytes[0]] + rest =~= bytes);
    }
}

fn hex_char(n: u8) -> (c: char)
    requires
        n < 16,
    ensures
        c == hex_digit(n),
{
    if n < 10 {
        (n + 48) as char
    } else {
        (n + 55) as char
    }
}

/// Percent-encodes the UTF-8 bytes of `text` for a search keyword.
pub fn percent_encode(text: &str) -> (r: String)
    ensures
        r@ == percent_encoded(text.spec_bytes()),
{
    let bytes = text.as_bytes();
    let mut out: Vec<char> = Vec::new();
    let mut i: usize = 0;
    while i < bytes.len()
        invariant
            i <= bytes@.len(),
            out@ == percent_encoded(bytes@.take(i as int)),
        decreases bytes@.len() - i,
    {
        let b = bytes[i];
        let ghost before = out@;
        assert(bytes@.take(i + 1).drop_last() =~= bytes@.take(i as int));
        assert(bytes@.take(i + 1).last() == b);
        if (0x41 <= b && b <= 0x5A) || (0x61 <= b && b <= 0x7A) || (0x30 <= b && b <= 0x39) || b
            == 0x2D || b == 0x5F || b == 0x2E || b == 0x7E {
            out.push(b as char);
        } else if b == 0x20 {
            out.push('+');
        } else {
            out.push('%');
            out.push(hex_char(b / 16));
            out.push(hex_char(b % 16));
        }
        assert(out@ =~= before + encode_byte(b));
        i = i + 1;
    }
    assert(bytes@.take(bytes@.len() as int) =~= bytes@);
    from_chars(out.as_slice())
}

pub open spec fn song_info_base() -> Seq<char> {
    "https://c.y.qq.com/v8/fcg-bin/fcg_play_single_song.fcg?songmid="@
}

pub open spec fn song_info_tail() -> Seq<char> {
    "&platform=yqq&format=json&needNewCode=0&new_json=1"@
}

/// The song-details URL for a song MID; an empty MID is refused.
pub fn song_info_url(song_mid: &str) -> (r: Result<String, String>)
    ensures
        song_mid@.len() == 0 ==> (r matches Err(e) && e@ == "缺少歌曲 MID，无法查询曲库信息"@),
        song_mid@.len() > 0 ==> (r matches Ok(url) && url@ == song_info_base() + song_mid@
            + song_info_tail()),
{
    if song_mid.is_empty() {
        return Err("缺少歌曲 MID，无法查询曲库信息".to_owned());
    }
    let mut url = "https://c.y.qq.com/v8/fcg-bin/fcg_play_single_song.fcg?songmid=".to_owned();
    url.append(song_mid);
    url.append("&platform=yqq&format=json&needNewCode=0&new_json=1");
    Ok(url)
}

/// The search keyword: `query` trimmed of white space; an empty one is refused.
pub fn search_keyword(query: &str) -> (r: Result<String, String>)
    ensures
        trim_spec(query@).len() == 0 ==> (r matches Err(e) && e@
            == "缺少检索关键词，无法查询曲库信息"@),
        trim_spec(query@).len() > 0 ==> (r matches Ok(k) && k@ == trim_spec(query@)),
{
    let chars = to_chars(query);
    let trimmed = trim_whitespace(chars.as_slice());
    if trimmed.len() == 0 {
        return Err("缺少检索关键词，无法查询曲库信息".to_owned());
    }
    Ok(from_chars(trimmed.as_slice()))
}

pub open spec fn search_base() -> Seq<char> {
    "https://c.y.qq.com/soso/fcgi-bin/search_for_qq_cp?g_tk=5381&inCharset=utf8&outCharset=utf-8&notice=0&platform=yqq.json&needNewCode=0&format=json&w="@
}

/// The search URL for a (trimmed) keyword.
pub fn search_url(keyword: &str) -> (url: String)
    ensures
        url@ == search_base() + percent_encoded(keyword.spec_bytes()),
{
    let mut url =
        "https://c.y.qq.com/soso/fcgi-bin/search_for_qq_cp?g_tk=5381&inCharset=utf8&outCharset=utf-8&notice=0&platform=yqq.json&needNewCode=0&format=json&w=".to_owned();
    url.append(percent_encode(keyword).as_str());
    url
}

/// The message when a search finds nothing usable.
pub fn search_miss_message(keyword: &str) -> (m: String)
    ensures
        m@ == "曲库中检索不到「"@ + keyword@ + "」"@,
{
    let mut m = "曲库中检索不到「".to_owned();
    m.append(keyword);
    m.append("」");
    m
}

pub open spec fn lyric_base() -> Seq<char> {
    "https://c.y.qq.com/lyric/fcgi-bin/fcg_query_lyric_new.fcg?songmid="@
}

pub open spec fn lyric_tail() -> Seq<char> {
    "&format=json&nobase64=1&g_tk=5381&loginUin=0&hostUin=0&inCharset=utf8&outCharset=utf-8&notice=0&platform=yqq.json&needNewCode=0"@
}

/// The lyric URL for a song MID.
pub fn lyric_url(song_mid: &str) -> (url: String)
    ensures
        url@ == lyric_base() + song_mid@ + lyric_tail(),
{
    let mut url = "https://c.y.qq.com/lyric/fcgi-bin/fcg_query_lyric_new.fcg?songmid=".to_owned();
    url.append(song_mid);
    url.append(
        "&format=json&nobase64=1&g_tk=5381&loginUin=0&hostUin=0&inCharset=utf8&outCharset=utf-8&notice=0&platform=yqq.json&needNewCode=0",
    );
    url
}

/// Cover sizes tried, largest first.
pub fn cover_sizes() -> (sizes: [u32; 3])
    ensures
        sizes@ == seq![800u32, 500u32, 300u32],
{
    let sizes: [u32; 3] = [800, 500, 300];
    assert(sizes@ =~= seq![800u32, 500u32, 300u32]);
    sizes
}

/// A cover download needs the album MID.
pub fn cover_request(album_mid: &str) -> (r: Result<(), String>)
    ensures
        album_mid@.len() == 0 <==> r is Err,
        r matches Err(e) ==> e@ == "缺少专辑 MID，无法获取封面"@,
{
    if album_mid.is_empty() {
        Err("缺少专辑 MID，无法获取封面".to_owned())
    } else {
        Ok(())
    }
}

/// The cover URL of an album at a size: `T002R{size}x{size}M000{mid}.jpg`.
pub fn cover_url(size: u32, album_mid: &str) -> (url: String)
    ensures
        url@ == cover_url_spec(size, album_mid@),
{
    let s = decimal_string(size as u128);
    let mut url = "https://y.gtimg.cn/music/photo_new/T002R".to_owned();
    url.append(s.as_str());
    url.append("x");
    url.append(s.as_str());
    url.append("M000");
    url.append(album_mid);
    url.append(".jpg");
    url
}

/// A downloaded cover is kept when the answer succeeded and is larger than
/// 1 KiB (smaller answers are placeholders).
pub fn cover_accepted(status_success: bool, length: usize) -> (b: bool)
    ensures
        b == (status_success && length > 1024),
{
    status_success && length > 1024
}

/// The message when no cover size could be downloaded.
pub fn cover_missing_message() -> (m: String)
    ensures
        m@ == "未能下载专辑封面"@,
{
    "未能下载专辑封面".to_owned()
}

/// The cover URL of an album at a size.
pub open spec fn cover_url_spec(size: u32, album_mid: Seq<char>) -> Seq<char> {
    "https://y.gtimg.cn/music/photo_new/T002R"@ + decimal(size as nat) + "x"@ + decimal(size as nat)
        + "M000"@ + album_mid + ".jpg"@
}

/// The size tried at attempt `k` (800, then 500, then 300).
pub open spec fn cover_size_at(k: int) -> u32 {
    if k == 0 {
        800
    } else if k == 1 {
        500
    } else {
        300
    }
}

/// What came of one cover request.
pub enum CoverResponse {
    /// The request could not be sent or got no answer.
    Unreachable,
    /// The server answered with a failure status.
    Refused,
    /// A successful answer with a body of this length.
    Body(usize),
}

/// What to do next while downloading a cover.
pub enum CoverStep {
    /// Request this URL.
    Request(String),
    /// Keep the body just received.
    Keep,
    /// Stop, with this error.
    GiveUp(String),
}

/// The next step of a cover download after `tried` requests, the last of
/// which answered `last`: without an album MID there is nothing to ask; a
/// successful body over 1 KiB is kept; otherwise the next size (800, 500,
/// 300) is asked for, and after the third the download gives up.
pub fn cover_step(album_mid: &str, tried: usize, last: Option<CoverResponse>) -> (step: CoverStep)
    requires
        tried <= 3,
    ensures
        album_mid@.len() == 0 ==> (step matches CoverStep::GiveUp(m) && m@
            == "缺少专辑 MID，无法获取封面"@),
        album_mid@.len() > 0 && (last matches Some(CoverResponse::Body(n)) && n > 1024) ==> step
            is Keep,
        album_mid@.len() > 0 && !(last matches Some(CoverResponse::Body(n)) && n > 1024) && tried
            < 3 ==> (step matches CoverStep::Request(url) && url@ == cover_url_spec(
            cover_size_at(tried as int),
            album_mid@,
        )),
        album_mid@.len() > 0 && !(last matches Some(CoverResponse::Body(n)) && n > 1024) && tried
            == 3 ==> (step matches CoverStep::GiveUp(m) && m@ == "未能下载专辑封面"@),
{
    if let Err(e) = cover_request(album_mid) {
        return CoverStep::GiveUp(e);
    }
    if let Some(CoverResponse::Body(n)) = last {
        if cover_accepted(true, n) {
            return CoverStep::Keep;
        }
    }
    if tried < 3 {
        let sizes = cover_sizes();
        CoverStep::Request(cover_url(sizes[tried], album_mid))
    } else {
        CoverStep::GiveUp(cover_missing_message())
    }
}

} // verus!
