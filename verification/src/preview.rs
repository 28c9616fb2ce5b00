//! The preview pipeline's decisions and payloads.
//!
//! Reading files, fetching metadata and highlighting happen on background
//! jobs; here live the parts that decide and assemble: the dispatch over the
//! filesystem kind, the attribute block, the plain-text fallback translation,
//! and the two staleness guards (the generation ticket drawn per selection,
//! and the check on arrival that the payload still names the selected path).

use vstd::prelude::*;

use crate::events::{Event, EventHandleResult, KeyCode};
use crate::fileinfo::{chars_equal, copy_chars, FilePath};
use crate::finder::{next_ticket, opt_path_view};

verus! {

/// What kind of filesystem object an entry is, as far as the preview cares.
#[derive(Debug, Clone, Copy, PartialEq, Eq, Structural)]
pub enum FileKind {
    Directory,
    Regular,
    Other,
}

/// The slice of filesystem metadata the preview reads: kind, size in bytes,
/// and modification time in seconds.
#[derive(Debug, Clone, Copy, PartialEq, Eq, Structural)]
pub struct FileMeta {
    pub kind: FileKind,
    pub size: u64,
    pub mtime: i64,
}

/// An entry together with what the background job learned about it: a type
/// description, and metadata or the error fetching it gave.
#[derive(Debug)]
pub struct FileInfo {
    pub path: FilePath,
    pub desc: Option<Vec<char>>,
    pub metadata: Result<FileMeta, Vec<char>>,
}

impl FileInfo {
    pub fn path(&self) -> (r: &Vec<char>)
        ensures
            r@ == self.path.pathbuf@,
    {
        self.path.path()
    }
}

impl FileInfo {
    /// A bare entry: no description, and no metadata yet (an empty error
    /// message stands where none was fetched).
    pub fn from_path(path: FilePath) -> (r: FileInfo)
        ensures
            r.path == path,
            r.desc is None,
            r.metadata is Err,
            (r.metadata->Err_0)@ == Seq::<char>::empty(),
    {
        FileInfo { path, desc: None, metadata: Err(Vec::new()) }
    }
}

/// The text of an optional description.
pub open spec fn opt_chars_view(o: Option<Vec<char>>) -> Option<Seq<char>> {
    match o {
        Some(v) => Some(v@),
        None => None,
    }
}

/// The structured attribute block under a preview: whichever of these the job
/// could learn.
#[derive(Debug)]
pub struct FileAttrs {
    pub size: Option<u64>,
    pub mtime: Option<i64>,
    pub desc: Option<Vec<char>>,
    pub count: Option<usize>,
    pub error: Option<Vec<char>>,
}

/// A preview body: a text file's lines, a directory's child names, or nothing
/// renderable.
#[derive(Debug)]
pub enum ViewType {
    Text(Vec<Vec<char>>),
    Directory(Vec<Vec<char>>),
    Unknown,
}

/// A finished preview payload: the entry it describes, the body, and the
/// attribute block.
#[derive(Debug)]
pub struct ViewMsg {
    pub fileinfo: FileInfo,
    pub body: ViewType,
    pub attr: Option<FileAttrs>,
}

/// Why a preview job produced no payload.
#[derive(Debug)]
pub enum FileInfoHandleErr {
    TextReadErr(Vec<char>),
    Cancelled,
    NotImplement,
    Error(Vec<char>),
}

/// Which preview branch a metadata result selects.
#[derive(Debug, Clone, Copy, PartialEq, Eq, Structural)]
pub enum PreviewKind {
    Directory,
    Text,
    Unsupported,
}

/// The single dispatch point over the filesystem kind.
pub open spec fn classify_spec(metadata: Result<FileMeta, Vec<char>>) -> PreviewKind {
    match metadata {
        Ok(m) => match m.kind {
            FileKind::Directory => PreviewKind::Directory,
            FileKind::Regular => PreviewKind::Text,
            FileKind::Other => PreviewKind::Unsupported,
        },
        Err(_) => PreviewKind::Unsupported,
    }
}

/// Pick the preview branch for a metadata result: directories and regular
/// files get real previews, everything else (and a failed metadata fetch) is
/// unsupported.
pub fn classify(metadata: &Result<FileMeta, Vec<char>>) -> (r: PreviewKind)
    ensures
        r == classify_spec(*metadata),
{
    match metadata {
        Ok(m) => match m.kind {
            FileKind::Directory => PreviewKind::Directory,
            FileKind::Regular => PreviewKind::Text,
            FileKind::Other => PreviewKind::Unsupported,
        },
        Err(_) => PreviewKind::Unsupported,
    }
}

/// What the attribute block of a regular file must hold: size and mtime when
/// metadata is there, the description when one was found, and nothing at all
/// only when neither was learned.
pub open spec fn attrs_match_file(attr: Option<FileAttrs>, fi: FileInfo) -> bool {
    match fi.metadata {
        Ok(m) => {
            &&& attr is Some
            &&& (attr->0).size == Some(m.size)
            &&& (attr->0).mtime == Some(m.mtime)
            &&& opt_chars_view((attr->0).desc) == opt_chars_view(fi.desc)
            &&& (attr->0).count is None
            &&& (attr->0).error is None
        },
        Err(_) => match fi.desc {
            Some(d) => {
                &&& attr is Some
                &&& (attr->0).size is None
                &&& (attr->0).mtime is None
                &&& opt_chars_view((attr->0).desc) == Some(d@)
                &&& (attr->0).count is None
                &&& (attr->0).error is None
            },
            None => attr is None,
        },
    }
}

/// The attribute block for a regular file: size and mtime from metadata, the
/// type description if one was found; nothing when nothing was learned.
pub fn regular_file_attrs(fi: &FileInfo) -> (r: Option<FileAttrs>)
    ensures
        attrs_match_file(r, *fi),
{
    let desc = match &fi.desc {
        Some(d) => Some(copy_chars(d)),
        None => None,
    };
    match &fi.metadata {
        Ok(m) => Some(
            FileAttrs { size: Some(m.size), mtime: Some(m.mtime), desc, count: None, error: None },
        ),
        Err(_) => match desc {
            Some(d) => Some(
                FileAttrs { size: None, mtime: None, desc: Some(d), count: None, error: None },
            ),
            None => None,
        },
    }
}

/// One character of a preview line: tabs become two spaces.
pub open spec fn expand_char(c: char) -> Seq<char> {
    if c == '\t' {
        seq![' ', ' ']
    } else {
        seq![c]
    }
}

/// A whole line with its tabs expanded.
pub open spec fn expand_tabs(s: Seq<char>) -> Seq<char>
    decreases s.len(),
{
    if s.len() == 0 {
        Seq::empty()
    } else {
        expand_char(s[0]) + expand_tabs(s.skip(1))
    }
}

/// The segments between newlines, kept in order; text without a newline is
/// one segment, and a trailing newline yields a trailing empty segment.
pub open spec fn split_lines(s: Seq<char>) -> Seq<Seq<char>>
    decreases s.len(),
{
    if s.len() == 0 {
        seq![Seq::empty()]
    } else if s[0] == '\n' {
        seq![Seq::<char>::empty()] + split_lines(s.skip(1))
    } else {
        let rest = split_lines(s.skip(1));
        rest.update(0, seq![s[0]] + rest[0])
    }
}

/// Splitting always yields at least one segment.
pub proof fn lemma_split_lines_nonempty(s: Seq<char>)
    ensures
        split_lines(s).len() >= 1,
    decreases s.len(),
{
    if s.len() > 0 {
        lemma_split_lines_nonempty(s.skip(1));
    }
}

/// The plain-text fallback, line by line: split on newlines, tabs widened.
pub open spec fn plain_lines_spec(s: Seq<char>) -> Seq<Seq<char>> {
    split_lines(s).map_values(|l: Seq<char>| expand_tabs(l))
}

/// A line with every tab widened to two spaces.
fn expand_line(line: &Vec<char>) -> (r: Vec<char>)
    ensures
        r@ == expand_tabs(line@),
{
    let mut out: Vec<char> = Vec::new();
    let mut i: usize = 0;
    proof {
        assert(line@.skip(0) =~= line@);
        assert(out@ + expand_tabs(line@) =~= expand_tabs(line@));
    }
    while i < line.len()
        invariant
            0 <= i <= line@.len(),
            out@ + expand_tabs(line@.skip(i as int)) == expand_tabs(line@),
        decreases line@.len() - i,
    {
        let c = line[i];
        proof {
            assert(line@.skip(i as int).len() > 0);
            assert(line@.skip(i as int)[0] == line@[i as int]);
            assert(line@.skip(i as int).skip(1) =~= line@.skip(i + 1));
            assert(expand_tabs(line@.skip(i as int)) == expand_char(line@[i as int]) + expand_tabs(
                line@.skip(i + 1),
            ));
        }
        let ghost pre = out@;
        if c == '\t' {
            out.push(' ');
            out.push(' ');
            proof {
                assert(out@ =~= pre + expand_char(line@[i as int]));
            }
        } else {
            out.push(c);
            proof {
                assert(out@ =~= pre + expand_char(line@[i as int]));
            }
        }
        proof {
            assert(out@ + expand_tabs(line@.skip(i + 1)) =~= pre + expand_tabs(
                line@.skip(i as int),
            ));
        }
        i += 1;
    }
    proof {
        assert(line@.skip(line@.len() as int) =~= Seq::<char>::empty());
        assert(out@ + Seq::<char>::empty() =~= out@);
    }
    out
}

/// The unhighlighted fallback body for a text preview: the content split into
/// lines, every tab widened to two spaces.
pub fn translate_plain(content: &Vec<char>) -> (r: Vec<Vec<char>>)
    ensures
        r@.len() == plain_lines_spec(content@).len(),
        forall|k: int|
            0 <= k < r@.len() ==> (#[trigger] r@[k])@ == plain_lines_spec(content@)[k],
{
    let mut segs: Vec<Vec<char>> = Vec::new();
    let mut cur: Vec<char> = Vec::new();
    let mut i: usize = 0;
    proof {
        lemma_split_lines_nonempty(content@);
        assert(content@.skip(0) =~= content@);
        assert(cur@ + split_lines(content@)[0] =~= split_lines(content@)[0]);
        assert(split_lines(content@).update(0, cur@ + split_lines(content@)[0]) =~~= split_lines(
            content@,
        ));
        assert(segs@.map_values(|v: Vec<char>| v@) + split_lines(content@).update(
            0,
            cur@ + split_lines(content@)[0],
        ) =~~= split_lines(content@));
    }
    while i < content.len()
        invariant
            0 <= i <= content@.len(),
            split_lines(content@) == segs@.map_values(|v: Vec<char>| v@) + split_lines(
                content@.skip(i as int),
            ).update(0, cur@ + split_lines(content@.skip(i as int))[0]),
        decreases content@.len() - i,
    {
        let c = content[i];
        let ghost tail = content@.skip(i as int);
        let ghost tail1 = content@.skip(i + 1);
        proof {
            lemma_split_lines_nonempty(tail1);
            assert(tail.len() > 0);
            assert(tail[0] == content@[i as int]);
            assert(tail.skip(1) =~= tail1);
        }
        if c == '\n' {
            proof {
                assert(split_lines(tail) == seq![Seq::<char>::empty()] + split_lines(tail1));
                assert(split_lines(tail).update(0, cur@ + split_lines(tail)[0]) =~~= seq![
                    cur@,
                ] + split_lines(tail1));
            }
            segs.push(cur);
            cur = Vec::new();
            proof {
                assert(cur@ + split_lines(tail1)[0] =~= split_lines(tail1)[0]);
                assert(split_lines(tail1).update(0, cur@ + split_lines(tail1)[0]) =~~= split_lines(
                    tail1,
                ));
                assert(segs@.map_values(|v: Vec<char>| v@) =~~= segs@.drop_last().map_values(
                    |v: Vec<char>| v@,
                ).push(segs@.last()@));
                assert(split_lines(content@) =~~= segs@.map_values(|v: Vec<char>| v@)
                    + split_lines(tail1).update(0, cur@ + split_lines(tail1)[0]));
            }
        } else {
            proof {
                let rest = split_lines(tail1);
                assert(split_lines(tail) == rest.update(0, seq![content@[i as int]] + rest[0]));
                assert(cur@ + (seq![content@[i as int]] + rest[0]) =~= cur@ + split_lines(tail)[
                    0
                ]);
                assert(split_lines(tail).update(0, cur@ + split_lines(tail)[0]) =~~= rest.update(
                    0,
                    cur@ + (seq![content@[i as int]] + rest[0]),
                ));
            }
            let ghost pre = cur@;
            cur.push(c);
            proof {
                assert(cur@ =~= pre.push(content@[i as int]));
                assert(cur@ + split_lines(tail1)[0] =~= pre + (seq![content@[i as int]]
                    + split_lines(tail1)[0]));
                assert(split_lines(content@) =~~= segs@.map_values(|v: Vec<char>| v@)
                    + split_lines(tail1).update(0, cur@ + split_lines(tail1)[0]));
            }
        }
        i += 1;
    }
    proof {
        assert(content@.skip(content@.len() as int) =~= Seq::<char>::empty());
        assert(split_lines(Seq::<char>::empty()) == seq![Seq::<char>::empty()]);
        assert(cur@ + split_lines(Seq::<char>::empty())[0] =~= cur@);
        assert(split_lines(Seq::<char>::empty()).update(
            0,
            cur@ + split_lines(Seq::<char>::empty())[0],
        ) =~~= seq![cur@]);
    }
    segs.push(cur);
    proof {
        assert(segs@.map_values(|v: Vec<char>| v@) =~~= segs@.drop_last().map_values(
            |v: Vec<char>| v@,
        ).push(segs@.last()@));
        assert(split_lines(content@) =~~= segs@.map_values(|v: Vec<char>| v@));
    }
    let segs = segs;
    let mut out: Vec<Vec<char>> = Vec::new();
    let mut k: usize = 0;
    while k < segs.len()
        invariant
            0 <= k <= segs@.len(),
            split_lines(content@) == segs@.map_values(|v: Vec<char>| v@),
            out@.len() == k,
            forall|j: int|
                0 <= j < k ==> (#[trigger] out@[j])@ == expand_tabs(segs@[j]@),
        decreases segs@.len() - k,
    {
        let line = expand_line(&segs[k]);
        out.push(line);
        k += 1;
    }
    proof {
        assert forall|k2: int|
            0 <= k2 < out@.len() implies (#[trigger] out@[k2])@
            == plain_lines_spec(content@)[k2] by {
            assert(segs@.map_values(|v: Vec<char>| v@)[k2] == segs@[k2]@);
        }
    }
    out
}

/// What a preview job produces before the staleness checks run.
pub struct TextViewer {
    pub wrap: bool,
}

impl TextViewer {
    pub fn new() -> (r: TextViewer)
        ensures
            r.wrap == false,
    {
        TextViewer { wrap: false }
    }

    /// Assemble a text preview from the first slice of the file: the plain
    /// fallback lines and the attribute block. A job that was cancelled, or
    /// whose read failed, yields the matching error instead of a payload.
    pub fn handle_fileinfo(
        &self,
        fileinfo: FileInfo,
        text: Result<Vec<char>, Vec<char>>,
        cancelled: bool,
    ) -> (r: Result<ViewMsg, FileInfoHandleErr>)
        ensures
            text is Err ==> r is Err && r->Err_0 is TextReadErr,
            text is Ok && cancelled ==> r is Err && r->Err_0 is Cancelled,
            text is Ok && !cancelled ==> {
                let msg = r->Ok_0;
                &&& r is Ok
                &&& msg.fileinfo == fileinfo
                &&& msg.body is Text
                &&& msg.body->Text_0@.len() == plain_lines_spec((text->Ok_0)@).len()
                &&& forall|k: int|
                    0 <= k < msg.body->Text_0@.len()
                        ==> (#[trigger] msg.body->Text_0@[k])@ == plain_lines_spec(
                        (text->Ok_0)@,
                    )[k]
                &&& attrs_match_file(msg.attr, fileinfo)
            },
    {
        let content = match text {
            Ok(content) => content,
            Err(e) => {
                return Err(FileInfoHandleErr::TextReadErr(e));
            },
        };
        let lines = translate_plain(&content);
        let attrs = regular_file_attrs(&fileinfo);
        if cancelled {
            Err(FileInfoHandleErr::Cancelled)
        } else {
            Ok(ViewMsg { fileinfo, body: ViewType::Text(lines), attr: attrs })
        }
    }
}

/// Assembles directory previews.
pub struct DirViewer {}

impl DirViewer {
    pub fn new() -> (r: DirViewer) {
        DirViewer {}
    }

    /// Assemble a directory preview from the enumerated children: the name
    /// listing as the body, the child count (or the read error) and the
    /// mtime and description in the attribute block. A cancelled job yields
    /// no payload.
    pub fn handle_fileinfo(
        &self,
        fileinfo: FileInfo,
        listing: Result<(Vec<Vec<char>>, usize), Vec<char>>,
        cancelled: bool,
    ) -> (r: Result<ViewMsg, FileInfoHandleErr>)
        ensures
            cancelled ==> r is Err && r->Err_0 is Cancelled,
            !cancelled ==> {
                let msg = r->Ok_0;
                let attr = msg.attr->0;
                &&& r is Ok
                &&& msg.fileinfo == fileinfo
                &&& msg.body is Directory
                &&& msg.attr is Some
                &&& (listing is Ok ==> msg.body->Directory_0@ == (listing->Ok_0).0@ && attr.count
                    == Some((listing->Ok_0).1) && attr.error is None)
                &&& (listing is Err ==> msg.body->Directory_0@.len() == 0 && attr.count is None
                    && opt_chars_view(attr.error) == Some((listing->Err_0)@))
                &&& attr.mtime == (match fileinfo.metadata {
                    Ok(m) => Some(m.mtime),
                    Err(_) => None,
                })
                &&& opt_chars_view(attr.desc) == opt_chars_view(fileinfo.desc)
                &&& attr.size is None
            },
    {
        if cancelled {
            return Err(FileInfoHandleErr::Cancelled);
        }
        let desc = match &fileinfo.desc {
            Some(d) => Some(copy_chars(d)),
            None => None,
        };
        let mtime = match &fileinfo.metadata {
            Ok(m) => Some(m.mtime),
            Err(_) => None,
        };
        let (names, count, error): (Vec<Vec<char>>, Option<usize>, Option<Vec<char>>) =
            match listing {
            Ok((names, count)) => (names, Some(count), None),
            Err(e) => (Vec::new(), None, Some(e)),
        };
        Ok(
            ViewMsg {
                fileinfo,
                body: ViewType::Directory(names),
                attr: Some(FileAttrs { size: None, mtime, desc, count, error }),
            },
        )
    }
}

/// The payload for anything that cannot be previewed: no body, and an
/// attribute block that carries whatever was learned, including the metadata
/// error when fetching it failed (a file deleted mid-read still yields a
/// payload, never nothing).
pub fn unsupported_view(fileinfo: FileInfo) -> (r: ViewMsg)
    ensures
        r.fileinfo == fileinfo,
        r.body is Unknown,
        r.attr is Some,
        (r.attr->0).size == (match fileinfo.metadata {
            Ok(m) => Some(m.size),
            Err(_) => None,
        }),
        (r.attr->0).mtime == (match fileinfo.metadata {
            Ok(m) => Some(m.mtime),
            Err(_) => None,
        }),
        opt_chars_view((r.attr->0).error) == (match fileinfo.metadata {
            Ok(_) => None,
            Err(e) => Some(e@),
        }),
        opt_chars_view((r.attr->0).desc) == opt_chars_view(fileinfo.desc),
        (r.attr->0).count is None,
{
    let desc = match &fileinfo.desc {
        Some(d) => Some(copy_chars(d)),
        None => None,
    };
    let (size, mtime, error): (Option<u64>, Option<i64>, Option<Vec<char>>) =
        match &fileinfo.metadata {
        Ok(m) => (Some(m.size), Some(m.mtime), None),
        Err(e) => (None, None, Some(copy_chars(e))),
    };
    ViewMsg {
        fileinfo,
        body: ViewType::Unknown,
        attr: Some(FileAttrs { size, mtime, desc, count: None, error }),
    }
}

/// What `handle_file` asks of the caller: nothing, or to run a new preview
/// job carrying this ticket.
#[derive(Debug, Clone, Copy, PartialEq, Eq, Structural)]
pub enum HandleFileAction {
    NoChange,
    Cleared,
    Spawn(u64),
}

/// The preview's interactive state: the payload on display with its scroll
/// offset, the selected path previews are wanted for, and the live job
/// ticket.
pub struct FileViewer {
    pub file: Option<(ViewMsg, u16)>,
    pub current: Option<FilePath>,
    pub ticket: u64,
}

/// Where the preview body's scroll offset lands after a key: Alt+Down one
/// row down, Alt+Up one row up, saturating at the ends.
pub open spec fn scroll_after(offset: u16, event: Event) -> u16 {
    match event {
        Event::Key(KeyCode::Down, m) => {
            if m.alt && !m.shift && !m.control {
                if offset < u16::MAX {
                    (offset + 1) as u16
                } else {
                    u16::MAX
                }
            } else {
                offset
            }
        },
        Event::Key(KeyCode::Up, m) => {
            if m.alt && !m.shift && !m.control {
                if offset > 0 {
                    (offset - 1) as u16
                } else {
                    0
                }
            } else {
                offset
            }
        },
        _ => offset,
    }
}

/// The path the displayed payload describes, if one is displayed.
pub open spec fn shown_path_view(file: Option<(ViewMsg, u16)>) -> Option<Seq<char>> {
    match file {
        Some(f) => Some(f.0.fileinfo.path.pathbuf@),
        None => None,
    }
}

impl FileViewer {
    pub fn new() -> (r: FileViewer)
        ensures
            r.file is None,
            r.current is None,
            r.ticket == 0,
    {
        FileViewer { file: None, current: None, ticket: 0 }
    }

    /// React to a selection change: an unchanged selection is a no-op (the
    /// running preview keeps its ticket); no selection clears the preview;
    /// a new path supersedes every older job by drawing a fresh ticket, which
    /// the new job must still see when it publishes.
    pub fn handle_file(&mut self, fileinfo: Option<&FilePath>) -> (r: HandleFileAction)
        ensures
            fileinfo is None ==> final(self).file is None && final(self).current is None
                && final(self).ticket == old(self).ticket && r is Cleared,
            fileinfo is Some && opt_path_view(old(self).current) == Some(
                (fileinfo->0).pathbuf@,
            ) ==> *final(self) == *old(self) && r is NoChange,
            fileinfo is Some && opt_path_view(old(self).current) != Some(
                (fileinfo->0).pathbuf@,
            ) ==> {
                &&& final(self).file is None
                &&& opt_path_view(final(self).current) == Some((fileinfo->0).pathbuf@)
                &&& final(self).ticket == next_ticket(old(self).ticket)
                &&& r == HandleFileAction::Spawn(final(self).ticket)
            },
    {
        let path = match fileinfo {
            None => {
                self.file = None;
                self.current = None;
                return HandleFileAction::Cleared;
            },
            Some(p) => p,
        };
        let unchanged = match &self.current {
            Some(c) => chars_equal(&c.pathbuf, &path.pathbuf),
            None => false,
        };
        if unchanged {
            return HandleFileAction::NoChange;
        }
        self.file = None;
        self.current = Some(path.clone_path());
        self.ticket = self.ticket.wrapping_add(1);
        HandleFileAction::Spawn(self.ticket)
    }

    /// The check a job makes before publishing: its ticket must still be the
    /// live one.
    pub fn is_current(&self, ticket: u64) -> (r: bool)
        ensures
            r == (ticket == self.ticket),
    {
        ticket == self.ticket
    }

    /// Accept a finished payload only when it still names the selected path;
    /// anything else is stale and is discarded without a trace. An accepted
    /// payload starts at scroll offset 0.
    pub fn set_view(&mut self, msg: ViewMsg)
        ensures
            opt_path_view(old(self).current) == Some(msg.fileinfo.path.pathbuf@) ==> final(self).file == Some((msg, 0u16)),
            opt_path_view(old(self).current) != Some(msg.fileinfo.path.pathbuf@) ==> final(self).file == old(self).file,
            final(self).current == old(self).current,
            final(self).ticket == old(self).ticket,
    {
        let fresh = match &self.current {
            Some(c) => chars_equal(&c.pathbuf, &msg.fileinfo.path.pathbuf),
            None => false,
        };
        if fresh {
            self.file = Some((msg, 0));
        }
    }

    /// Scroll the preview body: Alt+Down moves down a row, Alt+Up moves up,
    /// saturating at the ends; the offset belongs to the payload and nothing
    /// else changes.
    pub fn handle_event(&mut self, event: &Event) -> (r: EventHandleResult)
        ensures
            r.redraw && r.consumed,
            final(self).current == old(self).current,
            final(self).ticket == old(self).ticket,
            (final(self).file is Some) == (old(self).file is Some),
            final(self).file is Some ==> (final(self).file->0).0 == (old(self).file->0).0 && (
            final(self).file->0).1 == scroll_after((old(self).file->0).1, *event),
    {
        match event {
            Event::Key(KeyCode::Down, m) => {
                if m.alt && !m.shift && !m.control {
                    match &mut self.file {
                        Some(f) => {
                            f.1 = f.1.saturating_add(1);
                        },
                        None => {},
                    }
                }
            },
            Event::Key(KeyCode::Up, m) => {
                if m.alt && !m.shift && !m.control {
                    match &mut self.file {
                        Some(f) => {
                            f.1 = f.1.saturating_sub(1);
                        },
                        None => {},
                    }
                }
            },
            _ => {},
        }
        EventHandleResult::all()
    }
}

} // verus!
