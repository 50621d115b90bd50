//! The enhancement of one output file, as a sequence of steps: fetch the
//! cover, embed it (FLAC only), set the Finder icon (macOS), write lyrics,
//! write the QQ Music attributes (macOS) and link the library. The caller
//! performs each requested action and reports its outcome; every step is best
//! effort, and its outcome only becomes a note of the final report.

use vstd::prelude::*;
use crate::commands::{short_library_note, short_library_note_spec};
use crate::text::{join, join_spec, strings_view};

verus! {

/// The steps, in the order they run.
#[derive(Debug, Clone, Copy, PartialEq, Eq)]
pub enum Stage {
    FetchCover,
    EmbedCover,
    FinderIcon,
    Lyrics,
    QqAttributes,
    Link,
    Finished,
}

/// What the caller is asked to do next.
#[derive(Debug, Clone, Copy, PartialEq, Eq)]
pub enum EnhanceAction {
    /// Download the album cover.
    FetchCover,
    /// Embed the downloaded cover into the FLAC file.
    EmbedCover,
    /// Set the downloaded cover as the Finder icon.
    SetFinderIcon,
    /// Fetch and write the lyrics.
    WriteLyrics,
    /// Write the QQ Music extended attributes.
    WriteQqAttributes,
    /// Link the file into the QQ Music library.
    Link,
    /// Nothing left: collect the report.
    Finish,
}

/// The outcome of the last action.
pub enum EnhanceEvent {
    /// Nothing has run yet.
    Started,
    /// The cover download: `Ok` when an image is at hand.
    CoverFetched(Result<(), String>),
    CoverEmbedded(Result<(), String>),
    FinderIconSet(Result<(), String>),
    /// The lyrics report.
    LyricsWritten(String),
    /// The attribute writer's note, or its error.
    QqAttributesWritten(Result<String, String>),
    /// The library note.
    Linked(String),
}

/// The enhancement of one file in progress.
pub struct Enhancement {
    pub embed_cover: bool,
    pub fetch_lyrics: bool,
    pub link_library: bool,
    pub is_flac: bool,
    pub on_macos: bool,
    /// Album name, for the cover note.
    pub album: String,
    /// Upper-case format name, for the note on non-FLAC files.
    pub format_upper: String,
    pub stage: Stage,
    pub have_image: bool,
    pub notes: Vec<String>,
    pub lyrics: Option<String>,
    pub library: Option<String>,
}

/// Position of a stage in the run order.
pub open spec fn stage_index(s: Stage) -> int {
    match s {
        Stage::FetchCover => 0,
        Stage::EmbedCover => 1,
        Stage::FinderIcon => 2,
        Stage::Lyrics => 3,
        Stage::QqAttributes => 4,
        Stage::Link => 5,
        Stage::Finished => 6,
    }
}

/// The stage at a position.
pub open spec fn stage_at(i: int) -> Stage {
    if i <= 0 {
        Stage::FetchCover
    } else if i == 1 {
        Stage::EmbedCover
    } else if i == 2 {
        Stage::FinderIcon
    } else if i == 3 {
        Stage::Lyrics
    } else if i == 4 {
        Stage::QqAttributes
    } else if i == 5 {
        Stage::Link
    } else {
        Stage::Finished
    }
}

/// Whether a stage runs, given the options and what is at hand.
pub open spec fn runs(e: Enhancement, s: Stage) -> bool {
    match s {
        Stage::FetchCover => e.embed_cover,
        Stage::EmbedCover => e.embed_cover && e.have_image && e.is_flac,
        Stage::FinderIcon => e.embed_cover && e.have_image && e.on_macos,
        Stage::Lyrics => e.fetch_lyrics,
        Stage::QqAttributes => e.link_library && e.on_macos,
        Stage::Link => e.link_library,
        Stage::Finished => true,
    }
}

/// The first stage at or after position `i` that runs.
pub open spec fn next_running(e: Enhancement, i: int) -> Stage
    decreases 6 - i,
{
    if i >= 6 {
        Stage::Finished
    } else if runs(e, stage_at(i)) {
        stage_at(i)
    } else {
        next_running(e, i + 1)
    }
}

/// The action that performs a stage.
pub open spec fn action_for(s: Stage) -> EnhanceAction {
    match s {
        Stage::FetchCover => EnhanceAction::FetchCover,
        Stage::EmbedCover => EnhanceAction::EmbedCover,
        Stage::FinderIcon => EnhanceAction::SetFinderIcon,
        Stage::Lyrics => EnhanceAction::WriteLyrics,
        Stage::QqAttributes => EnhanceAction::WriteQqAttributes,
        Stage::Link => EnhanceAction::Link,
        Stage::Finished => EnhanceAction::Finish,
    }
}

/// The note for a cover that cannot be embedded in a non-FLAC file.
pub open spec fn not_flac_note(format_upper: Seq<char>) -> Seq<char> {
    "内嵌封面仅支持 FLAC，当前为 "@ + format_upper
}

/// Whether moving from `from` to `to` passes the embedding stage of a
/// downloaded cover in a file that is not FLAC.
pub open spec fn passes_unembeddable(e: Enhancement, from: int, to: Stage) -> bool {
    e.embed_cover && e.have_image && !e.is_flac && from <= 1 && stage_index(to) > 1
}

/// The notes an event adds, and what it tells about the image.
pub open spec fn event_notes(e: Enhancement, ev: EnhanceEvent) -> Seq<Seq<char>> {
    match ev {
        EnhanceEvent::CoverFetched(Err(err)) => seq!["未获取封面："@ + err@],
        EnhanceEvent::CoverEmbedded(Ok(())) => seq!["封面《"@ + e.album@ + "》"@],
        EnhanceEvent::CoverEmbedded(Err(err)) => seq!["未写入封面："@ + err@],
        EnhanceEvent::FinderIconSet(Ok(())) => seq!["访达图标"@],
        EnhanceEvent::FinderIconSet(Err(err)) => seq!["访达图标未设置："@ + err@],
        EnhanceEvent::QqAttributesWritten(Ok(note)) => if note@.len() > 0 {
            seq!["QQ 属性"@]
        } else {
            seq![]
        },
        EnhanceEvent::QqAttributesWritten(Err(err)) => seq!["QQ 属性未写入："@ + err@],
        _ => seq![],
    }
}

/// The stage after the one an event reports on.
pub open spec fn resume_index(ev: EnhanceEvent) -> int {
    match ev {
        EnhanceEvent::Started => 0,
        EnhanceEvent::CoverFetched(_) => 1,
        EnhanceEvent::CoverEmbedded(_) => 2,
        EnhanceEvent::FinderIconSet(_) => 3,
        EnhanceEvent::LyricsWritten(_) => 4,
        EnhanceEvent::QqAttributesWritten(_) => 5,
        EnhanceEvent::Linked(_) => 6,
    }
}

/// A new enhancement, before its first step.
pub fn new_enhancement(
    embed_cover: bool,
    fetch_lyrics: bool,
    link_library: bool,
    is_flac: bool,
    on_macos: bool,
    album: String,
    format_upper: String,
) -> (e: Enhancement)
    ensures
        e.embed_cover == embed_cover && e.fetch_lyrics == fetch_lyrics && e.link_library
            == link_library && e.is_flac == is_flac && e.on_macos == on_macos,
        e.album == album && e.format_upper == format_upper,
        e.stage == Stage::FetchCover,
        !e.have_image,
        e.notes@.len() == 0,
        e.lyrics is None && e.library is None,
{
    Enhancement {
        embed_cover,
        fetch_lyrics,
        link_library,
        is_flac,
        on_macos,
        album,
        format_upper,
        stage: Stage::FetchCover,
        have_image: false,
        notes: Vec::new(),
        lyrics: None,
        library: None,
    }
}

fn note(prefix: &str, detail: &str) -> (s: String)
    ensures
        s@ == prefix@ + detail@,
{
    let mut s = prefix.to_owned();
    s.append(detail);
    s
}

/// Records the outcome of the last action and gives the next one: the first
/// later step that runs with these options and what is at hand. A cover
/// download that failed, an embedding, a Finder icon and an attribute
/// write each add their note; lyrics and library outcomes are kept apart;
/// a downloaded cover for a file that is not FLAC adds a note instead of
/// being embedded.
pub fn advance(e: &mut Enhancement, event: EnhanceEvent) -> (action: EnhanceAction)
    ensures
        ({
            let before = *old(e);
            let got_image = before.have_image || (event matches EnhanceEvent::CoverFetched(Ok(_)));
            let mid = Enhancement { have_image: got_image, ..before };
            let next = next_running(mid, resume_index(event));
            let extra = if passes_unembeddable(mid, resume_index(event), next) {
                seq![not_flac_note(before.format_upper@)]
            } else {
                Seq::<Seq<char>>::empty()
            };
            &&& final(e).embed_cover == before.embed_cover
            &&& final(e).fetch_lyrics == before.fetch_lyrics
            &&& final(e).link_library == before.link_library
            &&& final(e).is_flac == before.is_flac
            &&& final(e).on_macos == before.on_macos
            &&& final(e).album == before.album
            &&& final(e).format_upper == before.format_upper
            &&& final(e).have_image == got_image
            &&& final(e).stage == next
            &&& action == action_for(next)
            &&& strings_view(final(e).notes@) == strings_view(before.notes@) + event_notes(
                before,
                event,
            ) + extra
            &&& final(e).lyrics == match event {
                EnhanceEvent::LyricsWritten(m) => Some(m),
                _ => before.lyrics,
            }
            &&& (event matches EnhanceEvent::Linked(n) ==> (if n@.len() > 0 {
                final(e).library matches Some(l) && l@ == short_library_note_spec(n@)
            } else {
                final(e).library is None
            }))
            &&& (!(event matches EnhanceEvent::Linked(_)) ==> final(e).library == before.library)
        }),
{
    let ghost before_notes = strings_view(e.notes@);
    let resume: u8 = match &event {
        EnhanceEvent::Started => 0,
        EnhanceEvent::CoverFetched(_) => 1,
        EnhanceEvent::CoverEmbedded(_) => 2,
        EnhanceEvent::FinderIconSet(_) => 3,
        EnhanceEvent::LyricsWritten(_) => 4,
        EnhanceEvent::QqAttributesWritten(_) => 5,
        EnhanceEvent::Linked(_) => 6,
    };
    let ghost ev_notes = event_notes(*e, event);
    let ghost got_image = e.have_image || (event matches EnhanceEvent::CoverFetched(Ok(_)));
    match event {
        EnhanceEvent::Started => {},
        EnhanceEvent::CoverFetched(Ok(())) => {
            e.have_image = true;
        },
        EnhanceEvent::CoverFetched(Err(err)) => {
            e.notes.push(note("未获取封面：", err.as_str()));
        },
        EnhanceEvent::CoverEmbedded(Ok(())) => {
            let mut s = note("封面《", e.album.as_str());
            s.append("》");
            e.notes.push(s);
        },
        EnhanceEvent::CoverEmbedded(Err(err)) => {
            e.notes.push(note("未写入封面：", err.as_str()));
        },
        EnhanceEvent::FinderIconSet(Ok(())) => {
            e.notes.push("访达图标".to_owned());
        },
        EnhanceEvent::FinderIconSet(Err(err)) => {
            e.notes.push(note("访达图标未设置：", err.as_str()));
        },
        EnhanceEvent::LyricsWritten(m) => {
            e.lyrics = Some(m);
        },
        EnhanceEvent::QqAttributesWritten(Ok(n)) => {
            if !n.as_str().is_empty() {
                e.notes.push("QQ 属性".to_owned());
            }
        },
        EnhanceEvent::QqAttributesWritten(Err(err)) => {
            e.notes.push(note("QQ 属性未写入：", err.as_str()));
        },
        EnhanceEvent::Linked(n) => {
            if n.as_str().is_empty() {
                e.library = None;
            } else {
                e.library = Some(short_library_note(n.as_str()));
            }
        },
    }
    assert(strings_view(e.notes@) =~= before_notes + ev_notes);
    let ghost after_event_notes = strings_view(e.notes@);
    let next = first_running(e, resume);
    proof {
        let before = *old(e);
        let mid = Enhancement { have_image: got_image, ..before };
        lemma_next_running_same(*e, mid, resume as int);
    }
    if e.embed_cover && e.have_image && !e.is_flac && resume <= 1 && stage_pos(next) > 1 {
        let mut s = "内嵌封面仅支持 FLAC，当前为 ".to_owned();
        s.append(e.format_upper.as_str());
        e.notes.push(s);
        assert(strings_view(e.notes@) =~= after_event_notes + seq![
            not_flac_note(e.format_upper@),
        ]);
    } else {
        assert(strings_view(e.notes@) =~= after_event_notes + Seq::<Seq<char>>::empty());
    }
    e.stage = next;
    match next {
        Stage::FetchCover => EnhanceAction::FetchCover,
        Stage::EmbedCover => EnhanceAction::EmbedCover,
        Stage::FinderIcon => EnhanceAction::SetFinderIcon,
        Stage::Lyrics => EnhanceAction::WriteLyrics,
        Stage::QqAttributes => EnhanceAction::WriteQqAttributes,
        Stage::Link => EnhanceAction::Link,
        Stage::Finished => EnhanceAction::Finish,
    }
}

/// Which stages run depends only on the options and whether an image is at hand.
proof fn lemma_next_running_same(a: Enhancement, b: Enhancement, i: int)
    requires
        a.embed_cover == b.embed_cover,
        a.fetch_lyrics == b.fetch_lyrics,
        a.link_library == b.link_library,
        a.is_flac == b.is_flac,
        a.on_macos == b.on_macos,
        a.have_image == b.have_image,
    ensures
        next_running(a, i) == next_running(b, i),
    decreases 6 - i,
{
    if i < 6 {
        lemma_next_running_same(a, b, i + 1);
    }
}

/// Position of a stage.
fn stage_pos(s: Stage) -> (i: u8)
    ensures
        i == stage_index(s),
{
    match s {
        Stage::FetchCover => 0,
        Stage::EmbedCover => 1,
        Stage::FinderIcon => 2,
        Stage::Lyrics => 3,
        Stage::QqAttributes => 4,
        Stage::Link => 5,
        Stage::Finished => 6,
    }
}

/// The first stage from position `from` on that runs.
fn first_running(e: &Enhancement, from: u8) -> (s: Stage)
    requires
        from <= 6,
    ensures
        s == next_running(*e, from as int),
{
    let mut i: u8 = from;
    while i < 6
        invariant
            from <= i <= 6,
            next_running(*e, from as int) == next_running(*e, i as int),
        decreases 6 - i,
    {
        let s = if i == 0 {
            Stage::FetchCover
        } else if i == 1 {
            Stage::EmbedCover
        } else if i == 2 {
            Stage::FinderIcon
        } else if i == 3 {
            Stage::Lyrics
        } else if i == 4 {
            Stage::QqAttributes
        } else {
            Stage::Link
        };
        assert(s == stage_at(i as int));
        let run = match s {
            Stage::FetchCover => e.embed_cover,
            Stage::EmbedCover => e.embed_cover && e.have_image && e.is_flac,
            Stage::FinderIcon => e.embed_cover && e.have_image && e.on_macos,
            Stage::Lyrics => e.fetch_lyrics,
            Stage::QqAttributes => e.link_library && e.on_macos,
            Stage::Link => e.link_library,
            Stage::Finished => true,
        };
        if run {
            return s;
        }
        i = i + 1;
    }
    Stage::Finished
}

/// The report of a finished enhancement. Each part appears only when it was
/// requested: the cover notes joined by ` · ` (nothing when there are none),
/// the lyrics report, and the library label.
pub fn report(e: &Enhancement) -> (r: (Option<String>, Option<String>, Option<String>))
    ensures
        !e.embed_cover ==> r.0 is None,
        e.notes@.len() == 0 ==> r.0 is None,
        e.embed_cover && e.notes@.len() > 0 ==> (r.0 matches Some(c) && c@ == join_spec(
            strings_view(e.notes@),
            " · "@,
        )),
        r.1 == (if e.fetch_lyrics {
            e.lyrics
        } else {
            None
        }),
        r.2 == (if e.link_library {
            e.library
        } else {
            None
        }),
{
    let cover = if !e.embed_cover || e.notes.len() == 0 {
        None
    } else {
        Some(join(&e.notes, " · "))
    };
    let lyrics = match &e.lyrics {
        Some(l) if e.fetch_lyrics => Some(l.clone()),
        _ => None,
    };
    let library = match &e.library {
        Some(l) if e.link_library => Some(l.clone()),
        _ => None,
    };
    (cover, lyrics, library)
}

/// The reports when the catalogue data could not be resolved: each requested
/// part says that it was not done, with the error.
pub fn unresolved_notes(embed_cover: bool, link_library: bool, error: &str) -> (r: (
    Option<String>,
    Option<String>,
))
    ensures
        embed_cover ==> (r.0 matches Some(c) && c@ == "未写入封面："@ + error@),
        !embed_cover ==> r.0 is None,
        link_library ==> (r.1 matches Some(l) && l@ == "曲库未完成："@ + error@),
        !link_library ==> r.1 is None,
{
    let cover = if embed_cover {
        Some(note("未写入封面：", error))
    } else {
        None
    };
    let library = if link_library {
        Some(note("曲库未完成：", error))
    } else {
        None
    };
    (cover, library)
}

/// Every run ends: from any position, the next running stage lies at or
/// after it, and `Finished` always runs.
pub proof fn lemma_next_running_forward(e: Enhancement, i: int)
    requires
        0 <= i <= 6,
    ensures
        stage_index(next_running(e, i)) >= i,
        runs(e, next_running(e, i)),
    decreases 6 - i,
{
    if i < 6 && !runs(e, stage_at(i)) {
        lemma_next_running_forward(e, i + 1);
    }
}

/// Once a cover is downloaded with covers requested on macOS, it becomes the
/// Finder icon whatever the file's format: right after the download comes
/// the embedding for FLAC and the Finder icon otherwise, and after the
/// embedding comes the Finder icon.
pub proof fn lemma_downloaded_cover_becomes_finder_icon(e: Enhancement)
    requires
        e.embed_cover,
        e.have_image,
        e.on_macos,
    ensures
        next_running(e, 1) == (if e.is_flac {
            Stage::EmbedCover
        } else {
            Stage::FinderIcon
        }),
        next_running(e, 2) == Stage::FinderIcon,
{
    assert(stage_at(1) == Stage::EmbedCover);
    assert(stage_at(2) == Stage::FinderIcon);
    if !e.is_flac {
        assert(next_running(e, 1) == next_running(e, 2));
    }
}

/// Without a downloaded cover there is neither embedding nor Finder icon:
/// the step after the download is the first of lyrics, attributes, link or
/// the end.
pub proof fn lemma_no_image_no_cover_steps(e: Enhancement)
    requires
        !e.have_image,
    ensures
        next_running(e, 1) != Stage::EmbedCover,
        next_running(e, 1) != Stage::FinderIcon,
        stage_index(next_running(e, 1)) >= 3,
{
    assert(stage_at(1) == Stage::EmbedCover);
    assert(stage_at(2) == Stage::FinderIcon);
    lemma_next_running_forward(e, 3);
    assert(next_running(e, 1) == next_running(e, 2));
    assert(next_running(e, 2) == next_running(e, 3));
}

/// The steps after the cover ones follow the options alone: lyrics when they
/// are requested, the QQ attributes when linking on macOS, the library link
/// when linking, then the end; and a run starts with the cover download
/// exactly when covers are requested.
pub proof fn lemma_later_steps_follow_options(e: Enhancement)
    ensures
        next_running(e, 5) == (if e.link_library {
            Stage::Link
        } else {
            Stage::Finished
        }),
        next_running(e, 4) == (if e.link_library && e.on_macos {
            Stage::QqAttributes
        } else {
            next_running(e, 5)
        }),
        next_running(e, 3) == (if e.fetch_lyrics {
            Stage::Lyrics
        } else {
            next_running(e, 4)
        }),
        e.embed_cover ==> next_running(e, 0) == Stage::FetchCover,
        !e.embed_cover && !e.have_image ==> next_running(e, 0) == next_running(e, 3),
{
    assert(stage_at(0) == Stage::FetchCover);
    assert(stage_at(1) == Stage::EmbedCover);
    assert(stage_at(2) == Stage::FinderIcon);
    assert(stage_at(3) == Stage::Lyrics);
    assert(stage_at(4) == Stage::QqAttributes);
    assert(stage_at(5) == Stage::Link);
    assert(next_running(e, 6) == Stage::Finished);
    if !e.embed_cover && !e.have_image {
        assert(next_running(e, 1) == next_running(e, 2));
        assert(next_running(e, 2) == next_running(e, 3));
    }
}

} // verus!
