//! Linking files into the QQ Music local library: the SQL that attaches a
//! file to its catalogue entry and to the "downloaded" list, the queue of
//! links that wait until the client is closed, and the messages shown.

use vstd::prelude::*;
use crate::matching::{first_artist, lemma_find_char_in_range};
use crate::tags::find_char_from;
use crate::text::{
    decimal, decimal_string, from_chars, join, join_spec, str_equal, strings_view, to_chars,
    trim_spec, trim_whitespace,
};

verus! {

/// A file to link, with the catalogue data it is linked to.
#[derive(Debug, Clone)]
pub struct LibraryEntry {
    pub file: String,
    pub song_id: u64,
    pub title: String,
    pub singer: String,
    pub album: String,
    pub album_mid: String,
}

/// The mathematical value of a library entry.
pub struct EntryView {
    pub file: Seq<char>,
    pub song_id: u64,
    pub title: Seq<char>,
    pub singer: Seq<char>,
    pub album: Seq<char>,
    pub album_mid: Seq<char>,
}

impl View for LibraryEntry {
    type V = EntryView;

    open spec fn view(&self) -> EntryView {
        EntryView {
            file: self.file@,
            song_id: self.song_id,
            title: self.title@,
            singer: self.singer@,
            album: self.album@,
            album_mid: self.album_mid@,
        }
    }
}

/// State of the local library integration.
#[derive(Debug, Clone)]
pub struct LibraryStatus {
    pub pending: usize,
    pub database_found: bool,
    pub app_running: bool,
    pub message: Option<String>,
}

/// The views of a sequence of entries.
pub open spec fn entries_view(v: Seq<LibraryEntry>) -> Seq<EntryView> {
    v.map_values(|e: LibraryEntry| e@)
}

/// Whether an entry for `file` is among `es`.
pub open spec fn has_file(es: Seq<EntryView>, file: Seq<char>) -> bool {
    exists|i: int| 0 <= i < es.len() && (#[trigger] es[i]).file == file
}

/// The queue after asking to queue `e`: unchanged when its file is already
/// queued, else with `e` appended.
pub open spec fn queued(es: Seq<EntryView>, e: EntryView) -> Seq<EntryView> {
    if has_file(es, e.file) {
        es
    } else {
        es.push(e)
    }
}

/// Adds `entry` to the pending links unless an entry for the same file is
/// already pending; gives whether the queue changed (and must be saved).
pub fn queue(entries: &mut Vec<LibraryEntry>, entry: &LibraryEntry) -> (changed: bool)
    ensures
        entries_view(final(entries)@) == queued(entries_view(old(entries)@), entry@),
        changed == !has_file(entries_view(old(entries)@), entry@.file),
{
    let ghost es = entries_view(entries@);
    let mut i: usize = 0;
    while i < entries.len()
        invariant
            es == entries_view(entries@),
            i <= entries@.len(),
            forall|k: int| 0 <= k < i ==> (#[trigger] es[k]).file != entry@.file,
        decreases entries@.len() - i,
    {
        if str_equal(entries[i].file.as_str(), entry.file.as_str()) {
            assert(es[i as int].file == entry@.file);
            return false;
        }
        i = i + 1;
    }
    entries.push(entry.clone_entry());
    assert(entries_view(entries@) =~= es.push(entry@));
    true
}

impl LibraryEntry {
    /// A copy of the entry.
    pub fn clone_entry(&self) -> (c: LibraryEntry)
        ensures
            c@ == self@,
    {
        LibraryEntry {
            file: self.file.clone(),
            song_id: self.song_id,
            title: self.title.clone(),
            singer: self.singer.clone(),
            album: self.album.clone(),
            album_mid: self.album_mid.clone(),
        }
    }
}

/// Queuing is idempotent: queuing the same entry twice leaves the queue as
/// queuing it once.
pub proof fn lemma_queue_idempotent(es: Seq<EntryView>, e: EntryView)
    ensures
        queued(queued(es, e), e) == queued(es, e),
        has_file(queued(es, e), e.file),
{
    if !has_file(es, e.file) {
        let q = es.push(e);
        assert(q[es.len() as int].file == e.file);
        assert(has_file(q, e.file));
    }
}

/// Queuing never duplicates a file: if no file occurred twice before, none does after.
pub proof fn lemma_queue_keeps_files_unique(es: Seq<EntryView>, e: EntryView)
    requires
        forall|i: int, j: int| 0 <= i < j < es.len() ==> es[i].file != es[j].file,
    ensures
        forall|i: int, j: int|
            0 <= i < j < queued(es, e).len() ==> queued(es, e)[i].file != queued(es, e)[j].file,
{
    if !has_file(es, e.file) {
        let q = es.push(e);
        assert forall|i: int, j: int| 0 <= i < j < q.len() implies q[i].file != q[j].file by {
            if j == es.len() {
                assert(q[i] == es[i]);
            } else {
                assert(q[i] == es[i] && q[j] == es[j]);
            }
        }
    }
}

/// SQL single-quote escaping: every `'` doubled.
pub open spec fn sql_escape(s: Seq<char>) -> Seq<char>
    decreases s.len(),
{
    if s.len() == 0 {
        seq![]
    } else if s.last() == '\'' {
        sql_escape(s.drop_last()) + seq!['\'', '\'']
    } else {
        sql_escape(s.drop_last()).push(s.last())
    }
}

/// A SQL string literal.
pub open spec fn quoted(s: Seq<char>) -> Seq<char> {
    seq!['\''] + sql_escape(s) + seq!['\'']
}

/// The text that SQL reads from the body of a string literal: `''` stands
/// for one `'`; a lone `'` would end the literal early (`None`).
pub open spec fn sql_literal_text(t: Seq<char>) -> Option<Seq<char>>
    decreases t.len(),
{
    if t.len() == 0 {
        Some(seq![])
    } else if t[0] == '\'' {
        if t.len() >= 2 && t[1] == '\'' {
            match sql_literal_text(t.skip(2)) {
                Some(r) => Some(seq!['\''] + r),
                None => None,
            }
        } else {
            None
        }
    } else {
        match sql_literal_text(t.skip(1)) {
            Some(r) => Some(seq![t[0]] + r),
            None => None,
        }
    }
}

/// Escaping distributes over concatenation.
proof fn lemma_sql_escape_concat(a: Seq<char>, b: Seq<char>)
    ensures
        sql_escape(a + b) == sql_escape(a) + sql_escape(b),
    decreases b.len(),
{
    if b.len() == 0 {
        assert(a + b =~= a);
        assert(sql_escape(a) + sql_escape(b) =~= sql_escape(a));
    } else {
        lemma_sql_escape_concat(a, b.drop_last());
        assert((a + b).drop_last() =~= a + b.drop_last());
        assert((a + b).last() == b.last());
        if b.last() == '\'' {
            assert(sql_escape(a) + sql_escape(b) =~= sql_escape(a) + sql_escape(b.drop_last())
                + seq!['\'', '\'']);
        } else {
            assert(sql_escape(a) + sql_escape(b) =~= (sql_escape(a) + sql_escape(
                b.drop_last(),
            )).push(b.last()));
        }
    }
}

/// SQL reads every escaped text back unchanged: the body of the literal
/// `quoted(s)` holds no lone `'`, and its text is `s`.
pub proof fn lemma_escape_reads_back(s: Seq<char>)
    ensures
        sql_literal_text(sql_escape(s)) == Some(s),
    decreases s.len(),
{
    if s.len() > 0 {
        let c = s[0];
        let rest = s.skip(1);
        assert(s =~= seq![c] + rest);
        lemma_sql_escape_concat(seq![c], rest);
        lemma_escape_reads_back(rest);
        assert(seq![c].drop_last() =~= Seq::<char>::empty());
        assert(seq![c].last() == c);
        assert(sql_escape(Seq::<char>::empty()) =~= Seq::<char>::empty());
        let e = sql_escape(s);
        if c == '\'' {
            assert(sql_escape(seq![c]) =~= seq!['\'', '\'']);
            assert(e.skip(2) =~= sql_escape(rest));
            assert(seq!['\''] + rest =~= s);
        } else {
            assert(sql_escape(seq![c]) =~= seq![c]);
            assert(e.skip(1) =~= sql_escape(rest));
            assert(seq![c] + rest =~= s);
        }
    }
}

/// Doubles every `'` of `value`.
pub fn escape(value: &str) -> (r: String)
    ensures
        r@ == sql_escape(value@),
{
    let v = to_chars(value);
    let mut out: Vec<char> = Vec::new();
    let mut i: usize = 0;
    while i < v.len()
        invariant
            v@ == value@,
            i <= v@.len(),
            out@ == sql_escape(v@.take(i as int)),
        decreases v@.len() - i,
    {
        assert(v@.take(i + 1).drop_last() =~= v@.take(i as int));
        assert(v@.take(i + 1).last() == v@[i as int]);
        if v[i] == '\'' {
            out.push('\'');
            out.push('\'');
        } else {
            out.push(v[i]);
        }
        assert(out@ =~= sql_escape(v@.take(i + 1)));
        i = i + 1;
    }
    assert(v@.take(v@.len() as int) =~= v@);
    from_chars(out.as_slice())
}

/// A SQL string literal for `value`.
fn quote(value: &str) -> (r: String)
    ensures
        r@ == quoted(value@),
{
    let mut out = String::new();
    out.push('\'');
    let e = escape(value);
    out.append(e.as_str());
    out.push('\'');
    assert(out@ =~= quoted(value@));
    out
}

/// `[name]` when the table has that column, else nothing.
pub open spec fn if_column(columns: Seq<Seq<char>>, name: Seq<char>, item: Seq<char>) -> Seq<
    Seq<char>,
> {
    if columns.contains(name) {
        seq![item]
    } else {
        seq![]
    }
}

/// The SONGS columns written: id, type, name, singer, then album, file,
/// filesize, K_SONG_RESERVE9 and K_SONG_RESERVEINT23 where the table has them.
pub open spec fn song_insert_columns(columns: Seq<Seq<char>>) -> Seq<Seq<char>> {
    seq!["id"@, "type"@, "name"@, "singer"@] + if_column(columns, "album"@, "album"@) + if_column(
        columns,
        "file"@,
        "file"@,
    ) + if_column(columns, "filesize"@, "filesize"@) + if_column(
        columns,
        "K_SONG_RESERVE9"@,
        "K_SONG_RESERVE9"@,
    ) + if_column(columns, "K_SONG_RESERVEINT23"@, "K_SONG_RESERVEINT23"@)
}

/// The values for `song_insert_columns`, in the same order.
pub open spec fn song_insert_values(e: EntryView, size: u64, columns: Seq<Seq<char>>) -> Seq<
    Seq<char>,
> {
    seq![decimal(e.song_id as nat), "13"@, quoted(e.title), quoted(e.singer)] + if_column(
        columns,
        "album"@,
        quoted(e.album),
    ) + if_column(columns, "file"@, quoted(e.file)) + if_column(
        columns,
        "filesize"@,
        decimal(size as nat),
    ) + if_column(columns, "K_SONG_RESERVE9"@, quoted(e.album_mid)) + if_column(
        columns,
        "K_SONG_RESERVEINT23"@,
        decimal(size as nat),
    )
}

/// The NEWFOLDERSONGS columns written: seq, id, type, addtime, opType, then
/// needSyn where the table has it.
pub open spec fn folder_insert_columns(columns: Seq<Seq<char>>) -> Seq<Seq<char>> {
    seq!["seq"@, "id"@, "type"@, "addtime"@, "opType"@] + if_column(
        columns,
        "needSyn"@,
        "needSyn"@,
    )
}

/// The values for `folder_insert_columns`: the "downloaded" list (3), the
/// song, type 13, now, operation 7, and the sync marker.
pub open spec fn folder_insert_values(e: EntryView, columns: Seq<Seq<char>>) -> Seq<Seq<char>> {
    seq!["3"@, decimal(e.song_id as nat), "13"@, "strftime('%s','now')"@, "7"@] + if_column(
        columns,
        "needSyn"@,
        "422004125"@,
    )
}

/// The first singer of an entry, trimmed.
pub open spec fn first_singer(e: EntryView) -> Seq<char> {
    trim_spec(first_artist(e.singer))
}

/// The statement that inserts the catalogue song unless it is present.
pub open spec fn sql_insert_song(e: EntryView, size: u64, song_columns: Seq<Seq<char>>) -> Seq<
    char,
> {
    "BEGIN;\nINSERT INTO SONGS ("@ + join_spec(song_insert_columns(song_columns), ", "@)
        + ")\nSELECT "@ + join_spec(song_insert_values(e, size, song_columns), ", "@)
        + "\nWHERE NOT EXISTS (SELECT 1 FROM SONGS WHERE id="@ + decimal(e.song_id as nat)
        + " AND type=13);\n"@
}

/// The statement that points the song at the file and its size.
pub open spec fn sql_update_song(e: EntryView, size: u64, song_columns: Seq<Seq<char>>) -> Seq<
    char,
> {
    let sz = decimal(size as nat);
    let extra = if song_columns.contains("K_SONG_RESERVEINT23"@) {
        ", K_SONG_RESERVEINT23="@ + sz
    } else {
        seq![]
    };
    "UPDATE SONGS SET file="@ + quoted(e.file) + ", filesize="@ + sz + extra + "\nWHERE id="@
        + decimal(e.song_id as nat) + " AND type=13;\n"@
}

/// The statement that deletes other rows holding the same song under another id.
pub open spec fn sql_delete_others(e: EntryView) -> Seq<char> {
    "DELETE FROM SONGS WHERE name="@ + quoted(e.title) + " AND file<>'' AND singer LIKE '"@
        + sql_escape(first_singer(e)) + "%'\nAND NOT (id="@ + decimal(e.song_id as nat)
        + " AND type=13);\n"@
}

/// The statements that add the song to the "downloaded" list and recount it.
pub open spec fn sql_add_to_folder(e: EntryView, folder_columns: Seq<Seq<char>>) -> Seq<char> {
    "INSERT INTO NEWFOLDERSONGS ("@ + join_spec(folder_insert_columns(folder_columns), ", "@)
        + ")\nSELECT "@ + join_spec(folder_insert_values(e, folder_columns), ", "@)
        + "\nWHERE NOT EXISTS (SELECT 1 FROM NEWFOLDERSONGS WHERE seq=3 AND id="@ + decimal(
        e.song_id as nat,
    )
        + ");\nUPDATE NEWFOLDERS SET foldercount=(SELECT count(*) FROM NEWFOLDERSONGS WHERE seq=3)\nWHERE seq=3;\nCOMMIT;\n"@
}

/// The transaction that links a file: insert the catalogue song (type 13)
/// unless present, point it at the file and its size, delete other rows that
/// hold the same song under another id, add it to the "downloaded" list
/// unless present, and recount that list.
pub open spec fn link_sql(
    e: EntryView,
    size: u64,
    song_columns: Seq<Seq<char>>,
    folder_columns: Seq<Seq<char>>,
) -> Seq<char> {
    sql_insert_song(e, size, song_columns) + sql_update_song(e, size, song_columns)
        + sql_delete_others(e) + sql_add_to_folder(e, folder_columns)
}

/// Whether `columns` names `name`.
fn has_column(columns: &Vec<String>, name: &str) -> (b: bool)
    ensures
        b == strings_view(columns@).contains(name@),
{
    let ghost cs = strings_view(columns@);
    let mut i: usize = 0;
    while i < columns.len()
        invariant
            cs == strings_view(columns@),
            i <= columns@.len(),
            forall|k: int| 0 <= k < i ==> cs[k] != name@,
        decreases columns@.len() - i,
    {
        if str_equal(columns[i].as_str(), name) {
            assert(cs[i as int] == name@);
            return true;
        }
        i = i + 1;
    }
    false
}

/// A string holding `s`.
fn owned(s: &str) -> (r: String)
    ensures
        r@ == s@,
{
    s.to_owned()
}

/// Appends `item` to `v` when `present`.
fn push_if(v: &mut Vec<String>, present: bool, item: String)
    ensures
        strings_view(final(v)@) == strings_view(old(v)@) + (if present {
            seq![item@]
        } else {
            Seq::<Seq<char>>::empty()
        }),
{
    if present {
        v.push(item);
        assert(strings_view(v@) =~= strings_view(old(v)@) + seq![item@]);
    } else {
        assert(strings_view(v@) =~= strings_view(old(v)@) + Seq::<Seq<char>>::empty());
    }
}

/// The SONGS column names written.
fn song_column_names(song_columns: &Vec<String>) -> (v: Vec<String>)
    ensures
        strings_view(v@) == song_insert_columns(strings_view(song_columns@)),
{
    let mut v: Vec<String> = Vec::new();
    v.push(owned("id"));
    v.push(owned("type"));
    v.push(owned("name"));
    v.push(owned("singer"));
    assert(strings_view(v@) =~= seq!["id"@, "type"@, "name"@, "singer"@]);
    push_if(&mut v, has_column(song_columns, "album"), owned("album"));
    push_if(&mut v, has_column(song_columns, "file"), owned("file"));
    push_if(&mut v, has_column(song_columns, "filesize"), owned("filesize"));
    push_if(&mut v, has_column(song_columns, "K_SONG_RESERVE9"), owned("K_SONG_RESERVE9"));
    push_if(
        &mut v,
        has_column(song_columns, "K_SONG_RESERVEINT23"),
        owned("K_SONG_RESERVEINT23"),
    );
    assert(strings_view(v@) =~= song_insert_columns(strings_view(song_columns@)));
    v
}

/// The SONGS values written.
fn song_column_values(entry: &LibraryEntry, size: u64, song_columns: &Vec<String>) -> (v: Vec<
    String,
>)
    ensures
        strings_view(v@) == song_insert_values(entry@, size, strings_view(song_columns@)),
{
    let mut v: Vec<String> = Vec::new();
    v.push(decimal_string(entry.song_id as u128));
    v.push(owned("13"));
    v.push(quote(entry.title.as_str()));
    v.push(quote(entry.singer.as_str()));
    assert(strings_view(v@) =~= seq![
        decimal(entry@.song_id as nat),
        "13"@,
        quoted(entry@.title),
        quoted(entry@.singer),
    ]);
    push_if(&mut v, has_column(song_columns, "album"), quote(entry.album.as_str()));
    push_if(&mut v, has_column(song_columns, "file"), quote(entry.file.as_str()));
    push_if(&mut v, has_column(song_columns, "filesize"), decimal_string(size as u128));
    push_if(&mut v, has_column(song_columns, "K_SONG_RESERVE9"), quote(entry.album_mid.as_str()));
    push_if(&mut v, has_column(song_columns, "K_SONG_RESERVEINT23"), decimal_string(size as u128));
    assert(strings_view(v@) =~= song_insert_values(entry@, size, strings_view(song_columns@)));
    v
}

/// The NEWFOLDERSONGS column names written.
fn folder_column_names(folder_columns: &Vec<String>) -> (v: Vec<String>)
    ensures
        strings_view(v@) == folder_insert_columns(strings_view(folder_columns@)),
{
    let mut v: Vec<String> = Vec::new();
    v.push(owned("seq"));
    v.push(owned("id"));
    v.push(owned("type"));
    v.push(owned("addtime"));
    v.push(owned("opType"));
    assert(strings_view(v@) =~= seq!["seq"@, "id"@, "type"@, "addtime"@, "opType"@]);
    push_if(&mut v, has_column(folder_columns, "needSyn"), owned("needSyn"));
    assert(strings_view(v@) =~= folder_insert_columns(strings_view(folder_columns@)));
    v
}

/// The NEWFOLDERSONGS values written.
fn folder_column_values(entry: &LibraryEntry, folder_columns: &Vec<String>) -> (v: Vec<String>)
    ensures
        strings_view(v@) == folder_insert_values(entry@, strings_view(folder_columns@)),
{
    let mut v: Vec<String> = Vec::new();
    v.push(owned("3"));
    v.push(decimal_string(entry.song_id as u128));
    v.push(owned("13"));
    v.push(owned("strftime('%s','now')"));
    v.push(owned("7"));
    assert(strings_view(v@) =~= seq![
        "3"@,
        decimal(entry@.song_id as nat),
        "13"@,
        "strftime('%s','now')"@,
        "7"@,
    ]);
    push_if(&mut v, has_column(folder_columns, "needSyn"), owned("422004125"));
    assert(strings_view(v@) =~= folder_insert_values(entry@, strings_view(folder_columns@)));
    v
}

fn insert_song_sql(entry: &LibraryEntry, size: u64, song_columns: &Vec<String>) -> (s: String)
    ensures
        s@ == sql_insert_song(entry@, size, strings_view(song_columns@)),
{
    let mut sql = owned("BEGIN;\nINSERT INTO SONGS (");
    sql.append(join(&song_column_names(song_columns), ", ").as_str());
    sql.append(")\nSELECT ");
    sql.append(join(&song_column_values(entry, size, song_columns), ", ").as_str());
    sql.append("\nWHERE NOT EXISTS (SELECT 1 FROM SONGS WHERE id=");
    sql.append(decimal_string(entry.song_id as u128).as_str());
    sql.append(" AND type=13);\n");
    sql
}

fn update_song_sql(entry: &LibraryEntry, size: u64, song_columns: &Vec<String>) -> (s: String)
    ensures
        s@ == sql_update_song(entry@, size, strings_view(song_columns@)),
{
    let sz = decimal_string(size as u128);
    let mut sql = owned("UPDATE SONGS SET file=");
    sql.append(quote(entry.file.as_str()).as_str());
    sql.append(", filesize=");
    sql.append(sz.as_str());
    let ghost before = sql@;
    if has_column(song_columns, "K_SONG_RESERVEINT23") {
        sql.append(", K_SONG_RESERVEINT23=");
        sql.append(sz.as_str());
    } else {
        assert(sql@ =~= before + Seq::<char>::empty());
    }
    sql.append("\nWHERE id=");
    sql.append(decimal_string(entry.song_id as u128).as_str());
    sql.append(" AND type=13;\n");
    sql
}

fn delete_others_sql(entry: &LibraryEntry) -> (s: String)
    ensures
        s@ == sql_delete_others(entry@),
{
    let singer_chars = to_chars(entry.singer.as_str());
    let first = crate::matching::first_artist_chars(singer_chars.as_slice());
    let first_trimmed = trim_whitespace(first.as_slice());
    let first_singer_str = from_chars(first_trimmed.as_slice());
    let mut sql = owned("DELETE FROM SONGS WHERE name=");
    sql.append(quote(entry.title.as_str()).as_str());
    sql.append(" AND file<>'' AND singer LIKE '");
    sql.append(escape(first_singer_str.as_str()).as_str());
    sql.append("%'\nAND NOT (id=");
    sql.append(decimal_string(entry.song_id as u128).as_str());
    sql.append(" AND type=13);\n");
    sql
}

fn add_to_folder_sql(entry: &LibraryEntry, folder_columns: &Vec<String>) -> (s: String)
    ensures
        s@ == sql_add_to_folder(entry@, strings_view(folder_columns@)),
{
    let mut sql = owned("INSERT INTO NEWFOLDERSONGS (");
    sql.append(join(&folder_column_names(folder_columns), ", ").as_str());
    sql.append(")\nSELECT ");
    sql.append(join(&folder_column_values(entry, folder_columns), ", ").as_str());
    sql.append("\nWHERE NOT EXISTS (SELECT 1 FROM NEWFOLDERSONGS WHERE seq=3 AND id=");
    sql.append(decimal_string(entry.song_id as u128).as_str());
    sql.append(
        ");\nUPDATE NEWFOLDERS SET foldercount=(SELECT count(*) FROM NEWFOLDERSONGS WHERE seq=3)\nWHERE seq=3;\nCOMMIT;\n",
    );
    sql
}

/// The SQL transaction that links `entry`'s file, whose size is `file_size`,
/// given the column names of SONGS and NEWFOLDERSONGS; fails when the file
/// does not exist (`file_size` is `None`).
pub fn build_sql(
    entry: &LibraryEntry,
    file_size: Option<u64>,
    song_columns: &Vec<String>,
    folder_columns: &Vec<String>,
) -> (r: Result<String, String>)
    ensures
        match file_size {
            None => r matches Err(e) && e@ == msg_missing_file(),
            Some(size) => r matches Ok(sql) && sql@ == link_sql(
                entry@,
                size,
                strings_view(song_columns@),
                strings_view(folder_columns@),
            ),
        },
{
    let size = match file_size {
        Some(s) => s,
        None => return Err(owned("文件不存在，无法链接")),
    };
    let mut sql = insert_song_sql(entry, size, song_columns);
    sql.append(update_song_sql(entry, size, song_columns).as_str());
    sql.append(delete_others_sql(entry).as_str());
    sql.append(add_to_folder_sql(entry, folder_columns).as_str());
    Ok(sql)
}

pub open spec fn msg_missing_file() -> Seq<char> {
    "文件不存在，无法链接"@
}

pub open spec fn msg_app_running() -> Seq<char> {
    "QQ 音乐正在运行，需完全退出后才能写入其数据库"@
}

pub open spec fn msg_no_database() -> Seq<char> {
    "没找到 QQ 音乐的数据库"@
}

pub open spec fn msg_check_failed() -> Seq<char> {
    "写入后校验未通过"@
}

pub open spec fn msg_linked() -> Seq<char> {
    "已链接到 QQ 音乐库（含「下载成功」列表）"@
}

/// Whether linking may go ahead, and the SQL to run when it may: refused
/// while QQ Music runs (it would overwrite the database), then when its
/// database is missing, then when the file is missing.
pub fn apply(
    app_running: bool,
    database_found: bool,
    entry: &LibraryEntry,
    file_size: Option<u64>,
    song_columns: &Vec<String>,
    folder_columns: &Vec<String>,
) -> (r: Result<String, String>)
    ensures
        app_running ==> (r matches Err(e) && e@ == msg_app_running()),
        !app_running && !database_found ==> (r matches Err(e) && e@ == msg_no_database()),
        !app_running && database_found && file_size is None ==> (r matches Err(e) && e@
            == msg_missing_file()),
        !app_running && database_found && file_size is Some ==> (r matches Ok(sql) && sql@
            == link_sql(
            entry@,
            file_size.unwrap(),
            strings_view(song_columns@),
            strings_view(folder_columns@),
        )),
{
    if app_running {
        return Err(owned("QQ 音乐正在运行，需完全退出后才能写入其数据库"));
    }
    if !database_found {
        return Err(owned("没找到 QQ 音乐的数据库"));
    }
    build_sql(entry, file_size, song_columns, folder_columns)
}

/// The query that counts the rows linking the song to a file.
pub fn link_check_sql(song_id: u64) -> (sql: String)
    ensures
        sql@ == "SELECT count(*) FROM SONGS WHERE id="@ + decimal(song_id as nat)
            + " AND type=13 AND file<>'';"@,
{
    let mut sql = owned("SELECT count(*) FROM SONGS WHERE id=");
    sql.append(decimal_string(song_id as u128).as_str());
    sql.append(" AND type=13 AND file<>'';");
    sql
}

/// The verdict on the count of linked rows read back after the transaction:
/// a count of "0" means the link did not take.
pub fn apply_verdict(check_output: &str) -> (r: Result<String, String>)
    ensures
        trim_spec(check_output@) == seq!['0'] ==> (r matches Err(e) && e@ == msg_check_failed()),
        trim_spec(check_output@) != seq!['0'] ==> (r matches Ok(note) && note@ == msg_linked()),
{
    let chars = to_chars(check_output);
    let trimmed = trim_whitespace(chars.as_slice());
    let zero: [char; 1] = ['0'];
    assert(zero@ =~= seq!['0']);
    if crate::text::chars_equal(trimmed.as_slice(), &zero) {
        Err(owned("写入后校验未通过"))
    } else {
        Ok(owned("已链接到 QQ 音乐库（含「下载成功」列表）"))
    }
}

/// Lines as `str::lines` yields them: split at `\n`, a `\r` right before
/// the `\n` dropped, no line after a final `\n`, none at all for "".
pub open spec fn lines_spec(s: Seq<char>) -> Seq<Seq<char>>
    decreases s.len(),
{
    if s.len() == 0 {
        seq![]
    } else {
        match find_char_from(s, '\n', 0) {
            None => seq![s],
            Some(k) => {
                proof {
                    lemma_find_char_in_range(s, '\n', 0);
                }
                let line = if k > 0 && s[k - 1] == '\r' {
                    s.take(k - 1)
                } else {
                    s.take(k)
                };
                seq![line] + lines_spec(s.skip(k + 1))
            },
        }
    }
}

/// The second `|`-separated field of a line, if the line has a `|`.
pub open spec fn second_field(line: Seq<char>) -> Option<Seq<char>> {
    match find_char_from(line, '|', 0) {
        None => None,
        Some(k) => {
            let rest = line.skip(k + 1);
            match find_char_from(rest, '|', 0) {
                None => Some(rest),
                Some(j) => Some(rest.take(j)),
            }
        },
    }
}

/// The second fields of the lines that have one, in order.
pub open spec fn second_fields(lines: Seq<Seq<char>>) -> Seq<Seq<char>>
    decreases lines.len(),
{
    if lines.len() == 0 {
        seq![]
    } else {
        let rest = second_fields(lines.drop_last());
        match second_field(lines.last()) {
            Some(f) => rest.push(f),
            None => rest,
        }
    }
}

/// The column names in `PRAGMA table_info` output (one `cid|name|type|...`
/// row per line).
pub open spec fn table_columns_spec(output: Seq<char>) -> Seq<Seq<char>> {
    second_fields(lines_spec(output))
}

/// Index of `c` in `v` from `start` on, or `v.len()`.
fn index_from(v: &[char], c: char, start: usize) -> (k: usize)
    requires
        start <= v@.len(),
    ensures
        start <= k <= v@.len(),
        k < v@.len() ==> v@[k as int] == c,
        forall|i: int| start <= i < k ==> v@[i] != c,
{
    let mut k = start;
    while k < v.len() && v[k] != c
        invariant
            start <= k <= v@.len(),
            forall|i: int| start <= i < k ==> v@[i] != c,
        decreases v@.len() - k,
    {
        k = k + 1;
    }
    k
}

/// `find_char_from` located by a scan from `start`.
proof fn lemma_find_scan(s: Seq<char>, c: char, k: int)
    requires
        0 <= k <= s.len(),
        forall|i: int| 0 <= i < k ==> s[i] != c,
        k < s.len() ==> s[k] == c,
    ensures
        find_char_from(s, c, 0) == if k < s.len() {
            Some(k)
        } else {
            None::<int>
        },
{
    lemma_find_scan_from(s, c, 0, k);
}

proof fn lemma_find_scan_from(s: Seq<char>, c: char, i: int, k: int)
    requires
        0 <= i <= k <= s.len(),
        forall|j: int| i <= j < k ==> s[j] != c,
        k < s.len() ==> s[k] == c,
    ensures
        find_char_from(s, c, i) == if k < s.len() {
            Some(k)
        } else {
            None::<int>
        },
    decreases k - i,
{
    if i < k {
        lemma_find_scan_from(s, c, i + 1, k);
    }
}

/// The second `|`-field of one line.
fn second_field_exec(line: &[char]) -> (r: Option<Vec<char>>)
    ensures
        match r {
            Some(f) => second_field(line@) == Some(f@),
            None => second_field(line@) is None,
        },
{
    let k = index_from(line, '|', 0);
    proof {
        lemma_find_scan(line@, '|', k as int);
    }
    if k == line.len() {
        return None;
    }
    let rest = crate::text::slice_chars(line, k + 1, line.len());
    assert(rest@ =~= line@.skip(k + 1));
    let j = index_from(rest.as_slice(), '|', 0);
    proof {
        lemma_find_scan(rest@, '|', j as int);
    }
    let f = crate::text::slice_chars(rest.as_slice(), 0, j);
    assert(j < rest@.len() ==> f@ =~= rest@.take(j as int));
    assert(j == rest@.len() ==> f@ =~= rest@);
    Some(f)
}

/// The column names in `PRAGMA table_info` output.
pub fn table_columns(output: &str) -> (cols: Vec<String>)
    ensures
        strings_view(cols@) == table_columns_spec(output@),
{
    let v = to_chars(output);
    let n = v.len();
    let mut cols: Vec<String> = Vec::new();
    let mut start: usize = 0;
    let ghost mut done: Seq<Seq<char>> = seq![];
    assert(v@.skip(0) =~= v@);
    while start < n
        invariant
            n == v@.len(),
            v@ == output@,
            start <= n,
            lines_spec(v@) == done + lines_spec(v@.skip(start as int)),
            strings_view(cols@) == second_fields(done),
        decreases n - start,
    {
        let ghost rest_ghost = v@.skip(start as int);
        let k = index_from(v.as_slice(), '\n', start);
        proof {
            assert forall|i: int| 0 <= i < k - start implies rest_ghost[i] != '\n' by {
                assert(rest_ghost[i] == v@[start + i]);
            }
            if k < n {
                assert(rest_ghost[k - start] == v@[k as int]);
            }
            lemma_find_scan(rest_ghost, '\n', k - start);
        }
        let line_end = if k > start && k < n && v[k - 1] == '\r' {
            k - 1
        } else {
            k
        };
        let line = crate::text::slice_chars(v.as_slice(), start, line_end);
        proof {
            if k < n {
                if k > start && v@[k - 1] == '\r' {
                    assert(line@ =~= rest_ghost.take(k - start - 1));
                } else {
                    assert(line@ =~= rest_ghost.take(k - start));
                }
                assert(rest_ghost.skip(k - start + 1) =~= v@.skip(k + 1));
                assert(lines_spec(rest_ghost) == seq![line@] + lines_spec(v@.skip(k + 1)));
            } else {
                assert(line@ =~= rest_ghost);
                assert(lines_spec(rest_ghost) == seq![line@]);
                assert(v@.skip(n as int) =~= Seq::<char>::empty());
            }
        }
        let ghost old_done = done;
        proof {
            done = done.push(line@);
            assert(done.drop_last() =~= old_done);
            assert(old_done + (seq![line@] + lines_spec(v@.skip(k + 1))) =~= done + lines_spec(
                v@.skip(k + 1),
            ));
        }
        match second_field_exec(line.as_slice()) {
            Some(f) => {
                let ghost before = strings_view(cols@);
                cols.push(from_chars(f.as_slice()));
                assert(strings_view(cols@) =~= before.push(f@));
            },
            None => {},
        }
        if k >= n {
            start = n;
        } else {
            start = k + 1;
        }
    }
    assert(v@.skip(n as int) =~= Seq::<char>::empty());
    assert(done + Seq::<Seq<char>>::empty() =~= done);
    cols
}

/// What became of one attempt to link a file.
pub enum LinkAttempt {
    /// The link was written; the note says so.
    Linked(String),
    /// The link failed with `error`; `queued` says whether it was put on the
    /// list of pending links.
    Failed { error: String, queued: bool },
}

/// The message shown after an attempt to link a file.
pub open spec fn link_note(attempt: LinkAttempt) -> Seq<char> {
    match attempt {
        LinkAttempt::Linked(note) => note@,
        LinkAttempt::Failed { error, queued } => if queued {
            "已记下，稍后补做 QQ 音乐链接（"@ + error@ + "）"@
        } else {
            "QQ 音乐链接未完成："@ + error@
        },
    }
}

/// The message for an attempt to link a file: the note of a link made; for a
/// failed one, that it was queued for later, or that it did not complete.
pub fn link_or_queue(attempt: &LinkAttempt) -> (note: String)
    ensures
        note@ == link_note(*attempt),
{
    match attempt {
        LinkAttempt::Linked(note) => note.clone(),
        LinkAttempt::Failed { error, queued } => {
            if *queued {
                let mut s = owned("已记下，稍后补做 QQ 音乐链接（");
                s.append(error.as_str());
                s.append("）");
                s
            } else {
                let mut s = owned("QQ 音乐链接未完成：");
                s.append(error.as_str());
                s
            }
        },
    }
}

/// How a flush of the pending links starts.
pub enum FlushStart {
    /// Nothing is pending: nothing to do, nothing to say.
    Idle,
    /// The flush cannot run now; the message says why.
    Blocked(String),
    /// Each pending entry is to be linked.
    Run,
}

/// The start of a flush: idle with nothing pending; blocked while QQ Music
/// runs (with the count waiting) or while its database is missing; else run.
pub open spec fn flush_start_spec(pending: usize, app_running: bool, database_found: bool) -> (
    int,
    Seq<char>,
) {
    if pending == 0 {
        (0, seq![])
    } else if app_running {
        (1, "还有 "@ + decimal(pending as nat) + " 首等待链接，请退出 QQ 音乐后再试"@)
    } else if !database_found {
        (1, "没找到 QQ 音乐的数据库，暂时无法补做"@)
    } else {
        (2, seq![])
    }
}

/// The start of a flush of `pending` links.
pub fn flush(pending: usize, app_running: bool, database_found: bool) -> (r: FlushStart)
    ensures
        match r {
            FlushStart::Idle => flush_start_spec(pending, app_running, database_found).0 == 0,
            FlushStart::Blocked(m) => flush_start_spec(pending, app_running, database_found).0
                == 1 && flush_start_spec(pending, app_running, database_found).1 == m@,
            FlushStart::Run => flush_start_spec(pending, app_running, database_found).0 == 2,
        },
{
    if pending == 0 {
        return FlushStart::Idle;
    }
    if app_running {
        let mut s = owned("还有 ");
        s.append(decimal_string(pending as u128).as_str());
        s.append(" 首等待链接，请退出 QQ 音乐后再试");
        return FlushStart::Blocked(s);
    }
    if !database_found {
        return FlushStart::Blocked(owned("没找到 QQ 音乐的数据库，暂时无法补做"));
    }
    FlushStart::Run
}

/// The tally of a flush in progress.
pub struct FlushTally {
    pub done: usize,
    pub left: Vec<LibraryEntry>,
    pub last_error: String,
}

/// An empty tally.
pub fn new_tally() -> (t: FlushTally)
    ensures
        t.done == 0,
        t.left@.len() == 0,
        t.last_error@ == Seq::<char>::empty(),
{
    FlushTally { done: 0, left: Vec::new(), last_error: String::new() }
}

/// Records the outcome of linking one pending entry: a success counts as
/// done; a failure keeps the entry pending and becomes the last error.
pub fn record(tally: &mut FlushTally, entry: LibraryEntry, outcome: Result<(), String>)
    requires
        old(tally).done < usize::MAX,
    ensures
        match outcome {
            Ok(()) => final(tally).done == old(tally).done + 1 && final(tally).left@ == old(
                tally,
            ).left@ && final(tally).last_error@ == old(tally).last_error@,
            Err(e) => final(tally).done == old(tally).done && entries_view(final(tally).left@)
                == entries_view(old(tally).left@).push(entry@) && final(tally).last_error@ == e@,
        },
{
    match outcome {
        Ok(()) => {
            tally.done = tally.done + 1;
        },
        Err(e) => {
            let ghost before = entries_view(tally.left@);
            let ghost ev = entry@;
            tally.left.push(entry);
            assert(entries_view(tally.left@) =~= before.push(ev));
            tally.last_error = e;
        },
    }
}

/// The closing message of a flush.
pub open spec fn flush_report_spec(done: usize, left: usize, last_error: Seq<char>) -> Seq<char> {
    if left == 0 {
        "已补做 "@ + decimal(done as nat) + " 首的 QQ 音乐链接"@
    } else {
        "已补做 "@ + decimal(done as nat) + " 首，仍有 "@ + decimal(left as nat) + " 首未完成（"@
            + last_error + "）"@
    }
}

/// The closing message of a flush: how many links were made and, when some
/// failed, how many are still pending and the last error.
pub fn flush_report(tally: &FlushTally) -> (s: String)
    ensures
        s@ == flush_report_spec(tally.done, tally.left@.len() as usize, tally.last_error@),
{
    let mut s = owned("已补做 ");
    s.append(decimal_string(tally.done as u128).as_str());
    if tally.left.len() == 0 {
        s.append(" 首的 QQ 音乐链接");
    } else {
        s.append(" 首，仍有 ");
        s.append(decimal_string(tally.left.len() as u128).as_str());
        s.append(" 首未完成（");
        s.append(tally.last_error.as_str());
        s.append("）");
    }
    s
}

/// The library status for `pending` queued links.
pub fn status(pending: usize, database_found: bool, app_running: bool) -> (s: LibraryStatus)
    ensures
        s.pending == pending,
        s.database_found == database_found,
        s.app_running == app_running,
        s.message is None,
{
    LibraryStatus { pending, database_found, app_running, message: None }
}

} // verus!
