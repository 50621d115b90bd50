//! The files the tool handles, told apart by extension, and the records
//! exchanged with the interface.

use vstd::prelude::*;
use crate::text::{ascii_lowercase, ascii_lowercase_of, str_equal};

verus! {

/// Whether credentials for the catalogue are available.
#[derive(Debug, Clone)]
pub struct CredentialStatus {
    pub available: bool,
    pub platform: String,
    pub account_hint: Option<String>,
    pub message: String,
}

/// What is known of one input file.
#[derive(Debug, Clone)]
pub struct FileInfo {
    pub path: String,
    pub supported: bool,
    /// `enc` for QQ Music's encrypted formats, `plain` for ordinary audio.
    pub kind: String,
    pub format: Option<String>,
    pub song_mid: Option<String>,
    pub resource_filename: Option<String>,
    pub error: Option<String>,
}

/// The files found by a scan, and what is known of each.
#[derive(Debug, Clone)]
pub struct ScanResult {
    pub files: Vec<String>,
    pub infos: Vec<FileInfo>,
}

/// The outcome for one input file.
#[derive(Debug, Clone)]
pub struct DecryptResult {
    pub input: String,
    pub output: Option<String>,
    pub ok: bool,
    pub format: Option<String>,
    pub error: Option<String>,
    /// Cover outcome (only when covers were requested).
    pub cover: Option<String>,
    /// Lyrics outcome (only when lyrics were requested).
    pub lyrics: Option<String>,
    /// Library link outcome (only when linking was requested).
    pub library: Option<String>,
}

/// A progress report.
#[derive(Debug, Clone)]
pub struct ProgressEvent {
    pub phase: String,
    pub input: String,
    pub current: u64,
    pub total: u64,
    /// Progress of the whole batch, 0-100.
    pub percent: u8,
    /// Progress of the current file, 0-100.
    pub file_percent: u8,
    pub message: String,
}

/// How decrypted audio is written.
#[derive(Debug, Clone, Copy, PartialEq, Eq)]
pub enum OutputMode {
    Original,
    Mp3,
}

/// The options of a batch.
#[derive(Debug, Clone)]
pub struct DecryptOptions {
    pub output_mode: OutputMode,
    pub manual_ekey: Option<String>,
    /// Embed the album cover (FLAC; on macOS also the Finder icon).
    pub embed_cover: bool,
    /// Fetch LRC lyrics.
    pub fetch_lyrics: bool,
    /// Lyrics directory; empty means next to the audio.
    pub lyrics_dir: Option<String>,
    /// Link into the QQ Music local library (macOS).
    pub link_library: bool,
    /// Copy ordinary audio before enhancing it instead of writing in place.
    pub plain_copy: bool,
}

/// Account data for the catalogue.
#[derive(Debug, Clone)]
pub struct Credentials {
    pub uin: String,
    pub authst: String,
    pub login_type: String,
}

/// The `musicex` footer of an encrypted file.
#[derive(Debug, Clone)]
pub struct MusicExFooter {
    pub audio_length: u64,
    pub song_mid: String,
    pub filename: String,
}

/// The extensions of QQ Music's encrypted formats.
pub open spec fn encrypted_extension(e: Seq<char>) -> bool {
    e == "mgg"@ || e == "mflac"@ || e == "mmp4"@
}

/// The extensions of ordinary audio.
pub open spec fn plain_extension(e: Seq<char>) -> bool {
    e == "flac"@ || e == "mp3"@ || e == "m4a"@ || e == "ogg"@ || e == "opus"@ || e == "wav"@
}

/// The view of an optional extension.
pub open spec fn ext_view(extension: Option<&str>) -> Option<Seq<char>> {
    match extension {
        Some(e) => Some(e@),
        None => None,
    }
}

/// Whether the extension, in any ASCII case, is one of `p`.
pub open spec fn lowered_is(extension: Option<Seq<char>>, p: spec_fn(Seq<char>) -> bool) -> bool {
    match extension {
        Some(e) => p(ascii_lowercase(e)),
        None => false,
    }
}

/// The file's extension in ASCII lowercase.
fn extension(raw: Option<&str>) -> (r: Option<String>)
    ensures
        match r {
            Some(l) => raw matches Some(e) && l@ == ascii_lowercase(e@),
            None => raw is None,
        },
{
    match raw {
        Some(e) => Some(ascii_lowercase_of(e)),
        None => None,
    }
}

/// Whether a file with this extension is in one of QQ Music's encrypted
/// formats (mgg, mflac, mmp4), in any ASCII case. `extension` is the path's
/// extension as text, `None` when it has none.
pub fn enc_path(extension: Option<&str>) -> (b: bool)
    ensures
        b == lowered_is(ext_view(extension), |e: Seq<char>| encrypted_extension(e)),
{
    match self::extension(extension) {
        Some(l) => {
            let s = l.as_str();
            str_equal(s, "mgg") || str_equal(s, "mflac") || str_equal(s, "mmp4")
        },
        None => false,
    }
}

/// Whether a file with this extension is ordinary audio (flac, mp3, m4a,
/// ogg, opus, wav), in any ASCII case.
pub fn plain_audio_path(extension: Option<&str>) -> (b: bool)
    ensures
        b == lowered_is(ext_view(extension), |e: Seq<char>| plain_extension(e)),
{
    match self::extension(extension) {
        Some(l) => {
            let s = l.as_str();
            str_equal(s, "flac") || str_equal(s, "mp3") || str_equal(s, "m4a") || str_equal(
                s,
                "ogg",
            ) || str_equal(s, "opus") || str_equal(s, "wav")
        },
        None => false,
    }
}

/// Whether the tool handles a file with this extension: encrypted or ordinary audio.
pub fn supported_path(extension: Option<&str>) -> (b: bool)
    ensures
        b == (lowered_is(ext_view(extension), |e: Seq<char>| encrypted_extension(e))
            || lowered_is(ext_view(extension), |e: Seq<char>| plain_extension(e))),
{
    enc_path(extension) || plain_audio_path(extension)
}

} // verus!
