//! The decisions behind the interface commands: what a dropped file is, where
//! a copy goes, which keyword finds a song, and how outcomes are reported.

use vstd::prelude::*;
use crate::matching::{SongMeta, SongMetaView};
use crate::media::{
    enc_path, encrypted_extension, ext_view, lowered_is, plain_audio_path, plain_extension,
    DecryptOptions, DecryptResult, FileInfo, MusicExFooter,
};
use crate::tags::{EmbeddedTags, TagsView};
use crate::text::{
    ascii_lowercase, ascii_lowercase_of, contains, contains_spec, decimal, decimal_string,
    from_chars, join, join_spec, str_equal, strings_view, to_chars, trim_end_by, trim_spec,
    trim_whitespace, white_space_pred,
};

verus! {

/// The result of the kind check and, for an encrypted file, of reading its footer.
pub open spec fn classify_spec(
    path: Seq<char>,
    extension: Option<Seq<char>>,
    footer: Option<Result<MusicExFooter, String>>,
    info: FileInfo,
) -> bool {
    &&& info.path@ == path
    &&& if lowered_is(extension, |e: Seq<char>| encrypted_extension(e)) {
        &&& info.kind@ == "enc"@
        &&& match footer {
            Some(Ok(f)) => {
                &&& info.supported
                &&& info.format matches Some(x) && x@ == "musicex/QMC2"@
                &&& info.song_mid matches Some(m) && m@ == f.song_mid@
                &&& info.resource_filename matches Some(n) && n@ == f.filename@
                &&& info.error is None
            },
            Some(Err(e)) => {
                &&& !info.supported
                &&& info.format is None && info.song_mid is None && info.resource_filename is None
                &&& info.error matches Some(x) && x@ == e@
            },
            None => false,
        }
    } else if lowered_is(extension, |e: Seq<char>| plain_extension(e)) {
        &&& info.supported
        &&& info.kind@ == "plain"@
        &&& info.format matches Some(x) && x@ == ascii_lowercase(extension.unwrap())
        &&& info.song_mid is None && info.resource_filename is None && info.error is None
    } else {
        &&& !info.supported
        &&& info.kind@ == "unknown"@
        &&& info.format is None && info.song_mid is None && info.resource_filename is None
        &&& info.error matches Some(x) && x@ == "不支持的文件类型"@
    }
}

/// What is known of a dropped file: encrypted (with what its `musicex`
/// footer gave, or the error reading it), ordinary audio, or unsupported.
/// `footer` is the outcome of reading the footer, present exactly for
/// encrypted files.
pub fn classify(
    path: &str,
    extension: Option<&str>,
    footer: Option<Result<MusicExFooter, String>>,
) -> (info: FileInfo)
    requires
        footer is Some <==> lowered_is(ext_view(extension), |e: Seq<char>| encrypted_extension(e)),
    ensures
        classify_spec(path@, ext_view(extension), footer, info),
{
    let display = path.to_owned();
    if enc_path(extension) {
        match footer {
            Some(Ok(f)) => FileInfo {
                path: display,
                supported: true,
                kind: "enc".to_owned(),
                format: Some("musicex/QMC2".to_owned()),
                song_mid: Some(f.song_mid),
                resource_filename: Some(f.filename),
                error: None,
            },
            Some(Err(e)) => FileInfo {
                path: display,
                supported: false,
                kind: "enc".to_owned(),
                format: None,
                song_mid: None,
                resource_filename: None,
                error: Some(e),
            },
            None => FileInfo {
                path: display,
                supported: false,
                kind: "enc".to_owned(),
                format: None,
                song_mid: None,
                resource_filename: None,
                error: None,
            },
        }
    } else if plain_audio_path(extension) {
        let format = match extension {
            Some(e) => ascii_lowercase_of(e),
            None => String::new(),
        };
        FileInfo {
            path: display,
            supported: true,
            kind: "plain".to_owned(),
            format: Some(format),
            song_mid: None,
            resource_filename: None,
            error: None,
        }
    } else {
        FileInfo {
            path: display,
            supported: false,
            kind: "unknown".to_owned(),
            format: None,
            song_mid: None,
            resource_filename: None,
            error: Some("不支持的文件类型".to_owned()),
        }
    }
}

/// The `n`-th name tried for a copy: the file's own name first, then
/// `{stem} 副本{ext}`, then `{stem} 副本 2{ext}`, `{stem} 副本 3{ext}`, ...
/// (`ext` includes its dot, or is empty).
pub open spec fn copy_candidate(name: Seq<char>, stem: Seq<char>, ext: Seq<char>, n: nat) -> Seq<
    char,
> {
    if n == 0 {
        name
    } else if n == 1 {
        stem + " 副本"@ + ext
    } else {
        stem + " 副本 "@ + decimal(n) + ext
    }
}

/// Whether the `n`-th candidate is free: not the source itself (when the copy
/// goes to the source's directory) and not an existing entry of the directory.
pub open spec fn candidate_free(
    name: Seq<char>,
    stem: Seq<char>,
    ext: Seq<char>,
    same_dir: bool,
    existing: Seq<Seq<char>>,
    n: nat,
) -> bool {
    let c = copy_candidate(name, stem, ext, n);
    !(same_dir && c == name) && !existing.contains(c)
}

/// The `n`-th candidate.
fn candidate(name: &str, stem: &str, ext: &str, n: u128) -> (c: String)
    ensures
        c@ == copy_candidate(name@, stem@, ext@, n as nat),
{
    if n == 0 {
        name.to_owned()
    } else if n == 1 {
        let mut c = stem.to_owned();
        c.append(" 副本");
        c.append(ext);
        c
    } else {
        let mut c = stem.to_owned();
        c.append(" 副本 ");
        c.append(decimal_string(n).as_str());
        c.append(ext);
        c
    }
}

/// Whether `names` holds `c`.
fn contains_name(names: &Vec<String>, c: &str) -> (b: bool)
    ensures
        b == strings_view(names@).contains(c@),
{
    let ghost ns = strings_view(names@);
    let mut i: usize = 0;
    while i < names.len()
        invariant
            ns == strings_view(names@),
            i <= names@.len(),
            forall|k: int| 0 <= k < i ==> ns[k] != c@,
        decreases names@.len() - i,
    {
        if str_equal(names[i].as_str(), c) {
            assert(ns[i as int] == c@);
            return true;
        }
        i = i + 1;
    }
    false
}

/// Distinct digits have distinct characters.
proof fn lemma_digit_injective(x: nat, y: nat)
    requires
        x < 10,
        y < 10,
        crate::text::digit_char(x) == crate::text::digit_char(y),
    ensures
        x == y,
{
    let t = crate::text::decimal_digits();
    assert(t[0] == '0' && t[1] == '1' && t[2] == '2' && t[3] == '3' && t[4] == '4' && t[5] == '5'
        && t[6] == '6' && t[7] == '7' && t[8] == '8' && t[9] == '9');
}

/// The decimal names of distinct numbers differ.
proof fn lemma_decimal_injective(a: nat, b: nat)
    requires
        decimal(a) == decimal(b),
    ensures
        a == b,
    decreases a + b,
{
    if a >= 10 && b >= 10 {
        assert(decimal(a).drop_last() =~= decimal(a / 10));
        assert(decimal(b).drop_last() =~= decimal(b / 10));
        lemma_decimal_injective(a / 10, b / 10);
        assert(decimal(a).last() == decimal(b).last());
        assert(decimal(a).last() == crate::text::digit_char(a % 10));
        assert(decimal(b).last() == crate::text::digit_char(b % 10));
        lemma_digit_injective(a % 10, b % 10);
    } else if a < 10 && b < 10 {
        assert(decimal(a)[0] == decimal(b)[0]);
        assert(decimal(a)[0] == crate::text::digit_char(a));
        assert(decimal(b)[0] == crate::text::digit_char(b));
        lemma_digit_injective(a, b);
    } else if a < 10 && b >= 10 {
        lemma_decimal_len(b / 10);
        assert(decimal(b).len() >= 2);
    } else if a >= 10 && b < 10 {
        lemma_decimal_len(a / 10);
        assert(decimal(a).len() >= 2);
    }
}

proof fn lemma_decimal_len(n: nat)
    ensures
        decimal(n).len() >= 1,
    decreases n,
{
    if n >= 10 {
        lemma_decimal_len(n / 10);
    }
}

/// Candidates after the first are pairwise distinct.
proof fn lemma_candidates_distinct(name: Seq<char>, stem: Seq<char>, ext: Seq<char>, a: nat, b: nat)
    requires
        1 <= a < b,
    ensures
        copy_candidate(name, stem, ext, a) != copy_candidate(name, stem, ext, b),
{
    let ca = copy_candidate(name, stem, ext, a);
    let cb = copy_candidate(name, stem, ext, b);
    if ca == cb {
        reveal_strlit(" 副本");
        reveal_strlit(" 副本 ");
        let p = stem.len() as int;
        if a == 1 {
            assert(ca.subrange(p, p + 3) =~= " 副本"@);
            assert(cb.subrange(p, p + 4) =~= " 副本 "@);
            lemma_decimal_len(b);
            if ext.len() > 0 {
                assert(ca[p + 3] == ext[0]);
            }
            assert(cb.len() > ca.len());
        } else {
            let da = decimal(a);
            let db = decimal(b);
            assert(ca =~= stem + " 副本 "@ + da + ext);
            assert(cb =~= stem + " 副本 "@ + db + ext);
            assert(da.len() == db.len());
            assert(ca.subrange(p + 4, p + 4 + da.len()) =~= da);
            assert(cb.subrange(p + 4, p + 4 + db.len()) =~= db);
            lemma_decimal_injective(a, b);
        }
    }
}

/// Among the first `k + 2` candidates after the first, one is free.
proof fn lemma_some_candidate_free(
    name: Seq<char>,
    stem: Seq<char>,
    ext: Seq<char>,
    same_dir: bool,
    existing: Seq<Seq<char>>,
)
    ensures
        exists|n: nat|
            1 <= n <= existing.len() + 2 && candidate_free(name, stem, ext, same_dir, existing, n),
{
    let bound = existing.len() + 2;
    if forall|n: nat|
        1 <= n <= bound ==> !#[trigger] candidate_free(name, stem, ext, same_dir, existing, n) {
        // Each of the `bound` distinct candidates is the source name or an existing entry.
        let cands = Seq::new(bound as nat, |i: int| copy_candidate(name, stem, ext, (i + 1) as nat));
        let pool = existing.push(name);
        assert forall|i: int| 0 <= i < cands.len() implies pool.contains(#[trigger] cands[i]) by {
            assert(!candidate_free(name, stem, ext, same_dir, existing, (i + 1) as nat));
            if existing.contains(cands[i]) {
                let j = choose|j: int| 0 <= j < existing.len() && existing[j] == cands[i];
                assert(pool[j] == cands[i]);
            } else {
                assert(pool[existing.len() as int] == cands[i]);
            }
        }
        assert forall|i: int, j: int| 0 <= i < j < cands.len() implies cands[i] != cands[j] by {
            lemma_candidates_distinct(name, stem, ext, (i + 1) as nat, (j + 1) as nat);
        }
        lemma_injective_into(cands, pool);
        assert(false);
    }
}

/// A sequence of pairwise distinct items that all lie in `pool` is no longer than `pool`.
proof fn lemma_injective_into(items: Seq<Seq<char>>, pool: Seq<Seq<char>>)
    requires
        forall|i: int, j: int| 0 <= i < j < items.len() ==> items[i] != items[j],
        forall|i: int| 0 <= i < items.len() ==> pool.contains(#[trigger] items[i]),
    ensures
        items.len() <= pool.len(),
    decreases pool.len(),
{
    if items.len() > 0 {
        let x = items.last();
        let k = choose|k: int| 0 <= k < pool.len() && pool[k] == x;
        let rest_pool = pool.remove(k);
        let rest = items.drop_last();
        assert forall|i: int| 0 <= i < rest.len() implies rest_pool.contains(#[trigger] rest[i]) by {
            assert(pool.contains(items[i]));
            let m = choose|m: int| 0 <= m < pool.len() && pool[m] == items[i];
            assert(items[i] != x);
            assert(m != k);
            if m < k {
                assert(rest_pool[m] == pool[m]);
            } else {
                assert(rest_pool[m - 1] == pool[m]);
            }
        }
        lemma_injective_into(rest, rest_pool);
    }
}

/// The name for a copy of file `name` (stem `stem`, extension `ext` with its
/// dot) in a directory whose entries are `existing`: the first candidate that
/// is neither the source (when `same_dir`) nor an existing entry.
pub fn unique_copy_name(
    name: &str,
    stem: &str,
    ext: &str,
    same_dir: bool,
    existing: &Vec<String>,
) -> (r: String)
    ensures
        exists|n: nat|
            {
                &&& candidate_free(name@, stem@, ext@, same_dir, strings_view(existing@), n)
                &&& forall|m: nat|
                    m < n ==> !#[trigger] candidate_free(
                        name@,
                        stem@,
                        ext@,
                        same_dir,
                        strings_view(existing@),
                        m,
                    )
                &&& r@ == copy_candidate(name@, stem@, ext@, n)
            },
{
    let ghost ex = strings_view(existing@);
    proof {
        lemma_some_candidate_free(name@, stem@, ext@, same_dir, ex);
    }
    let bound = existing.len() as u128 + 2;
    let mut n: u128 = 0;
    loop
        invariant
            ex == strings_view(existing@),
            bound == ex.len() + 2,
            n <= bound,
            forall|m: nat| m < n ==> !#[trigger] candidate_free(name@, stem@, ext@, same_dir, ex, m),
            exists|k: nat| 1 <= k <= bound && candidate_free(name@, stem@, ext@, same_dir, ex, k),
        decreases bound - n,
    {
        let c = candidate(name, stem, ext, n);
        let is_source = same_dir && str_equal(c.as_str(), name);
        if !is_source && !contains_name(existing, c.as_str()) {
            return c;
        }
        assert(!candidate_free(name@, stem@, ext@, same_dir, ex, n as nat));
        if n == bound {
            assert(false);
        }
        n = n + 1;
    }
}

/// Shortens a library note for the interface: queued, failed, or linked.
pub open spec fn short_library_note_spec(note: Seq<char>) -> Seq<char> {
    if contains_spec(note, "稍后补做"@) {
        "曲库待补做"@
    } else if contains_spec(note, "未完成"@) || contains_spec(note, "失败"@) {
        "曲库失败"@
    } else {
        "曲库"@
    }
}

/// The short label for a library note.
pub fn short_library_note(note: &str) -> (label: String)
    ensures
        label@ == short_library_note_spec(note@),
{
    let n = to_chars(note);
    let later = to_chars("稍后补做");
    let unfinished = to_chars("未完成");
    let failed = to_chars("失败");
    if contains(n.as_slice(), later.as_slice()) {
        "曲库待补做".to_owned()
    } else if contains(n.as_slice(), unfinished.as_slice()) || contains(
        n.as_slice(),
        failed.as_slice(),
    ) {
        "曲库失败".to_owned()
    } else {
        "曲库".to_owned()
    }
}

/// The keyword used to look an ordinary audio file up: its embedded title
/// (with the artist after a space when there is one), else the file stem.
pub open spec fn search_query_spec(embedded: Option<TagsView>, stem: Seq<char>) -> Seq<char> {
    match embedded {
        Some(t) => if t.title.len() > 0 {
            if t.artist.len() == 0 {
                t.title
            } else {
                t.title + " "@ + t.artist
            }
        } else {
            stem
        },
        None => stem,
    }
}

/// The search keyword for an ordinary audio file.
pub fn search_query(embedded: Option<&EmbeddedTags>, stem: &str) -> (q: String)
    ensures
        q@ == search_query_spec(
            match embedded {
                Some(t) => Some(t@),
                None => None,
            },
            stem@,
        ),
{
    match embedded {
        Some(found) => {
            if !found.title.as_str().is_empty() {
                if found.artist.as_str().is_empty() {
                    found.title.clone()
                } else {
                    let mut q = found.title.clone();
                    q.append(" ");
                    q.append(found.artist.as_str());
                    q
                }
            } else {
                stem.to_owned()
            }
        },
        None => stem.to_owned(),
    }
}

/// The description stored with an embedded cover: `title - singers`, or the
/// title alone when there are no singers.
pub open spec fn cover_description_spec(meta: SongMetaView) -> Seq<char> {
    if meta.singers.len() == 0 {
        meta.title
    } else {
        meta.title + " - "@ + meta.singers
    }
}

/// The description stored with an embedded cover.
pub fn cover_description(meta: &SongMeta) -> (d: String)
    ensures
        d@ == cover_description_spec(meta@),
{
    if meta.singers.as_str().is_empty() {
        meta.title.clone()
    } else {
        let mut d = meta.title.clone();
        d.append(" - ");
        d.append(meta.singers.as_str());
        d
    }
}

/// The cover report: the notes joined by ` · `, nothing when there are none.
pub fn join_notes(notes: &Vec<String>) -> (r: Option<String>)
    ensures
        notes@.len() == 0 ==> r is None,
        notes@.len() > 0 ==> (r matches Some(s) && s@ == join_spec(strings_view(notes@), " · "@)),
{
    if notes.len() == 0 {
        None
    } else {
        Some(join(notes, " · "))
    }
}

/// The lyric file's name: the audio file's stem (or `lyric`) with `.lrc`.
pub fn lyric_file_name(stem: Option<&str>) -> (name: String)
    ensures
        name@ == match stem {
            Some(s) => s@,
            None => "lyric"@,
        } + ".lrc"@,
{
    let mut name = match stem {
        Some(s) => s.to_owned(),
        None => "lyric".to_owned(),
    };
    name.append(".lrc");
    name
}

/// `s` with every `\r\n` replaced by `\n`.
pub open spec fn unix_newlines(s: Seq<char>) -> Seq<char>
    decreases s.len(),
{
    if s.len() == 0 {
        seq![]
    } else if s.len() >= 2 && s[0] == '\r' && s[1] == '\n' {
        seq!['\n'] + unix_newlines(s.skip(2))
    } else {
        seq![s[0]] + unix_newlines(s.skip(1))
    }
}

/// The text written to a lyric file: `\r\n` turned into `\n`, trailing white
/// space removed, one final newline.
pub open spec fn lyric_file_text_spec(lyric: Seq<char>) -> Seq<char> {
    trim_end_by(unix_newlines(lyric), white_space_pred()) + seq!['\n']
}

/// The text written to a lyric file.
pub fn lyric_file_text(lyric: &str) -> (text: String)
    ensures
        text@ == lyric_file_text_spec(lyric@),
{
    let v = to_chars(lyric);
    let n = v.len();
    let mut out: Vec<char> = Vec::new();
    let mut i: usize = 0;
    assert(v@.skip(0) =~= v@);
    while i < n
        invariant
            n == v@.len(),
            i <= n,
            unix_newlines(v@) == out@ + unix_newlines(v@.skip(i as int)),
        decreases n - i,
    {
        let ghost rest = v@.skip(i as int);
        if i + 1 < n && v[i] == '\r' && v[i + 1] == '\n' {
            out.push('\n');
            assert(rest.skip(2) =~= v@.skip(i + 2));
            i = i + 2;
        } else {
            out.push(v[i]);
            assert(rest.skip(1) =~= v@.skip(i + 1));
            i = i + 1;
        }
    }
    assert(v@.skip(n as int) =~= Seq::<char>::empty());
    assert(out@ + Seq::<char>::empty() =~= out@);
    let mut end = out.len();
    while end > 0 && crate::text::is_whitespace(out[end - 1])
        invariant
            end <= out@.len(),
            forall|k: int| end <= k < out@.len() ==> white_space_pred()(#[trigger] out@[k]),
        decreases end,
    {
        end = end - 1;
    }
    proof {
        lemma_trim_end_at(out@, end as int);
    }
    let mut kept = crate::text::slice_chars(out.as_slice(), 0, end);
    kept.push('\n');
    from_chars(kept.as_slice())
}

/// Trimming the end stops at the last character that is not white space.
proof fn lemma_trim_end_at(s: Seq<char>, end: int)
    requires
        0 <= end <= s.len(),
        forall|k: int| end <= k < s.len() ==> white_space_pred()(#[trigger] s[k]),
        end == 0 || !white_space_pred()(s[end - 1]),
    ensures
        trim_end_by(s, white_space_pred()) == s.subrange(0, end),
    decreases s.len() - end,
{
    if end == s.len() {
        assert(s.subrange(0, end) =~= s);
    } else {
        let d = s.drop_last();
        assert forall|k: int| end <= k < d.len() implies white_space_pred()(#[trigger] d[k]) by {
            assert(d[k] == s[k]);
        }
        if end > 0 {
            assert(d[end - 1] == s[end - 1]);
        }
        lemma_trim_end_at(d, end);
        assert(d.subrange(0, end) =~= s.subrange(0, end));
    }
}

/// The directory chosen for lyrics: the configured one, trimmed, unless it is
/// empty; `None` means next to the audio file.
pub fn lyrics_directory(configured: Option<&str>) -> (r: Option<String>)
    ensures
        match configured {
            Some(c) => if trim_spec(c@).len() > 0 {
                r matches Some(d) && d@ == trim_spec(c@)
            } else {
                r is None
            },
            None => r is None,
        },
{
    match configured {
        Some(c) => {
            let v = to_chars(c);
            let t = trim_whitespace(v.as_slice());
            if t.len() > 0 {
                Some(from_chars(t.as_slice()))
            } else {
                None
            }
        },
        None => None,
    }
}

/// The result for a file that was processed: its output, format and the
/// reports of the requested enhancements.
pub fn succeeded_result(
    input: String,
    output: String,
    format: String,
    cover: Option<String>,
    lyrics: Option<String>,
    library: Option<String>,
) -> (r: DecryptResult)
    ensures
        r.input == input,
        r.ok,
        r.output == Some(output),
        r.format == Some(format),
        r.error is None,
        r.cover == cover && r.lyrics == lyrics && r.library == library,
{
    DecryptResult { input, output: Some(output), ok: true, format: Some(format), error: None, cover, lyrics, library }
}

/// The work after a decryption: the cover and library steps run when either
/// is requested, the lyrics when they are requested.
pub fn after_decryption(options: &DecryptOptions) -> (r: (bool, bool))
    ensures
        r.0 == (options.embed_cover || options.link_library),
        r.1 == options.fetch_lyrics,
{
    (options.embed_cover || options.link_library, options.fetch_lyrics)
}

/// The result for a file that could not be processed.
pub fn failed_result(input: String, error: String) -> (r: DecryptResult)
    ensures
        r.input == input,
        !r.ok,
        r.error == Some(error),
        r.output is None && r.format is None && r.cover is None && r.lyrics is None
            && r.library is None,
{
    DecryptResult {
        input,
        output: None,
        ok: false,
        format: None,
        error: Some(error),
        cover: None,
        lyrics: None,
        library: None,
    }
}

/// Where the decryption key comes from.
pub enum KeySource {
    /// The key pasted by the user.
    Manual(String),
    /// Fetched with the account's credentials.
    Fetch,
    /// Neither is available; the message says what to do.
    Missing(String),
}

/// The key source: a manual key that is not blank (used as given), else the
/// credentials when there are some, else nothing.
pub fn key_source(manual: Option<&str>, has_credentials: bool) -> (k: KeySource)
    ensures
        match manual {
            Some(m) if trim_spec(m@).len() > 0 => k matches KeySource::Manual(x) && x@ == m@,
            _ => if has_credentials {
                k is Fetch
            } else {
                k matches KeySource::Missing(msg) && msg@
                    == "无法自动获取 ekey：请登录 QQ 音乐，或粘贴手动 ekey"@
            },
        },
{
    if let Some(m) = manual {
        let v = to_chars(m);
        let t = trim_whitespace(v.as_slice());
        if t.len() > 0 {
            return KeySource::Manual(m.to_owned());
        }
    }
    if has_credentials {
        KeySource::Fetch
    } else {
        KeySource::Missing("无法自动获取 ekey：请登录 QQ 音乐，或粘贴手动 ekey".to_owned())
    }
}

/// Whether the account's credentials are needed for a batch: only when no
/// manual key is given.
pub fn needs_credentials(manual: Option<&str>) -> (b: bool)
    ensures
        b == match manual {
            Some(m) => trim_spec(m@).len() == 0,
            None => true,
        },
{
    match manual {
        Some(m) => {
            let v = to_chars(m);
            trim_whitespace(v.as_slice()).len() == 0
        },
        None => true,
    }
}

/// What became of the lyrics of one file.
pub enum LyricsOutcome {
    /// Written to the file with this name.
    Written(String),
    /// The catalogue gave none; the error says why.
    NotFetched(String),
    /// Fetched but not written; the error says why.
    NotWritten(String),
}

/// The lyrics report of one file.
pub fn lyrics_note(outcome: &LyricsOutcome) -> (s: String)
    ensures
        s@ == match *outcome {
            LyricsOutcome::Written(name) => "歌词 "@ + name@,
            LyricsOutcome::NotFetched(e) => "未获取歌词："@ + e@,
            LyricsOutcome::NotWritten(e) => "未写入歌词："@ + e@,
        },
{
    let (prefix, detail) = match outcome {
        LyricsOutcome::Written(name) => ("歌词 ", name),
        LyricsOutcome::NotFetched(e) => ("未获取歌词：", e),
        LyricsOutcome::NotWritten(e) => ("未写入歌词：", e),
    };
    let mut s = prefix.to_owned();
    s.append(detail.as_str());
    s
}

} // verus!
