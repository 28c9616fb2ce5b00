//! One interactive session: the four components and the single-threaded
//! event step that multiplexes them.
//!
//! The caller owns the channels and the background jobs; each event that
//! arrives on any of them is handed to `step`, and each frame ends with
//! `frame`. Everything `step` decides — who quits, who redraws, which job to
//! spawn — comes back in plain values.

use vstd::prelude::*;

use crate::events::{Event, KeyCode};
use crate::fileinfo::FilePath;
use crate::finder::{
    sel_after_move, Finder, FinderIn, FinderMove, FinderOut, FilterJob, next_ticket,
    opt_path_view,
};
use crate::input::{Input, InputOut};
use crate::preview::{scroll_after, FileViewer, HandleFileAction, ViewMsg};
use crate::status::Status;

verus! {

/// Which components must be drawn again.
#[derive(Debug, Clone, Copy, PartialEq, Eq, Structural)]
pub struct RedrawSet {
    pub finder: bool,
    pub status: bool,
    pub input: bool,
    pub stage: bool,
}

impl RedrawSet {
    pub fn empty() -> (r: RedrawSet)
        ensures
            !r.finder && !r.status && !r.input && !r.stage,
    {
        RedrawSet { finder: false, status: false, input: false, stage: false }
    }

    pub fn all() -> (r: RedrawSet)
        ensures
            r.finder && r.status && r.input && r.stage,
    {
        RedrawSet { finder: true, status: true, input: true, stage: true }
    }
}

/// One arrival on any of the session's channels.
pub enum LoopIn {
    Term(Event),
    FinderMsg(FinderIn),
    FinderResult(FinderOut),
    PreviewDone(ViewMsg),
}

/// What one step decides: whether to leave, what to redraw, and which
/// background jobs to spawn.
pub struct StepEffects {
    pub quit: bool,
    pub redraw: RedrawSet,
    pub filter_job: Option<FilterJob>,
    pub preview_spawn: Option<(FilePath, u64)>,
}

/// True exactly for the two key presses that end the session: Escape, or
/// Control-c.
pub open spec fn is_quit_event(ev: LoopIn) -> bool {
    match ev {
        LoopIn::Term(Event::Key(code, mods)) => {
            ||| code is Esc
            ||| (code == KeyCode::Char('c') && mods.control)
        },
        _ => false,
    }
}

/// The four components of one session.
pub struct Session {
    pub input: Input,
    pub finder: Finder,
    pub status: Status,
    pub viewer: FileViewer,
}

impl Session {
    /// Both interactive components are well formed, and no edit announcement
    /// waits between steps (every step drains it into a filter job).
    pub open spec fn wf(&self) -> bool {
        &&& self.input.wf()
        &&& self.finder.wf()
        &&& self.input.pending_out is None
    }

    pub fn new(cwd: &Vec<char>) -> (r: Session)
        ensures
            r.wf(),
            r.finder.contents@.len() == 0,
            r.status.cwd@ == cwd@,
            r.viewer.file is None,
    {
        Session {
            input: Input::new(),
            finder: Finder::new(),
            status: Status::new(cwd),
            viewer: FileViewer::new(),
        }
    }

    /// Route one arrival. A quit key ends the session untouched. A terminal
    /// event goes to the input line first, then (if not consumed) to the
    /// finder, then to the preview. A finder message feeds the store and may
    /// spawn a scoring job. A completed filter result updates the match count
    /// and is applied only if its query is still live. A finished preview
    /// payload is accepted only if it still names the selected path.
    pub fn step(&mut self, ev: LoopIn) -> (r: StepEffects)
        requires
            old(self).wf(),
            ev matches LoopIn::FinderMsg(m) ==> (m is ContentsExtend ==> forall|k: int|
                0 <= k < m->ContentsExtend_0@.len()
                    ==> (#[trigger] m->ContentsExtend_0@[k]).wf()),
        ensures
            final(self).wf(),
            r.quit == is_quit_event(ev),
            r.quit ==> *final(self) == *old(self) && r.filter_job is None && r.preview_spawn
                is None,
            match ev {
                LoopIn::FinderResult(out) => match out {
                    FinderOut::FilterResult(q, fr) => {
                        &&& final(self).status.filter_size == fr.len_spec()
                        &&& (q@ == old(self).finder.query@ ==> final(self).finder.filtered == fr
                            && final(self).finder.selection == 0)
                        &&& (q@ != old(self).finder.query@ ==> final(self).finder == old(self).finder)
                        &&& r.redraw.finder && r.redraw.status
                    },
                    FinderOut::TotalCount(c) => final(self).status.total == c
                        && r.redraw.status,
                    FinderOut::Selected(p) => {
                        &&& (opt_path_view(final(self).viewer.current) == opt_path_view(p))
                        &&& (p is Some && opt_path_view(old(self).viewer.current)
                            != opt_path_view(p) ==> r.preview_spawn is Some
                            && (r.preview_spawn->0).0.pathbuf@ == (p->0).pathbuf@
                            && (r.preview_spawn->0).1 == final(self).viewer.ticket)
                        &&& (opt_path_view(old(self).viewer.current) == opt_path_view(p)
                            && p is Some ==> final(self).viewer == old(self).viewer
                            && r.preview_spawn is None)
                    },
                },
                LoopIn::PreviewDone(msg) => {
                    &&& (opt_path_view(old(self).viewer.current) == Some(
                        msg.fileinfo.path.pathbuf@,
                    ) ==> final(self).viewer.file == Some((msg, 0u16)))
                    &&& (opt_path_view(old(self).viewer.current) != Some(
                        msg.fileinfo.path.pathbuf@,
                    ) ==> final(self).viewer.file == old(self).viewer.file)
                },
                LoopIn::FinderMsg(m) => {
                    &&& (m is Clear ==> final(self).finder.contents@.len() == 0)
                    &&& (m is ContentsExtend ==> final(self).finder.contents@ == old(self).finder.contents@ + m->ContentsExtend_0@ && final(self).status.total
                        == final(self).finder.contents@.len() && r.filter_job is Some)
                    &&& (m is Query ==> final(self).finder.query@ == m->Query_0@
                        && r.filter_job is Some)
                    &&& (m is ContentsExtend || m is Query ==> final(self).finder.filter_worker.filter_task_handler == next_ticket(
                        old(self).finder.filter_worker.filter_task_handler,
                    ))
                    &&& (r.filter_job is Some ==> (r.filter_job->0).ticket == final(self).finder.filter_worker.filter_task_handler)
                },
                LoopIn::Term(e) => match e {
                    // an unmodified character is typed: the input line gains
                    // it and a scoring job for the new text starts
                    Event::Key(KeyCode::Char(c), m) => if !m.control && !m.alt {
                        &&& final(self).input.input@ == old(self).input.input@.insert(
                            old(self).input.cursor_position as int,
                            c,
                        )
                        &&& final(self).finder.query@ == final(self).input.input@
                        &&& r.filter_job is Some
                        &&& (r.filter_job->0).query@ == final(self).input.input@
                        &&& (r.filter_job->0).ticket == final(self).finder.filter_worker.filter_task_handler
                        &&& final(self).finder.filter_worker.filter_task_handler == next_ticket(
                            old(self).finder.filter_worker.filter_task_handler,
                        )
                        &&& r.redraw.input
                        &&& final(self).viewer == old(self).viewer
                        &&& final(self).status == old(self).status
                        &&& r.preview_spawn is None
                    } else {
                        *final(self) == *old(self) && r.filter_job is None && r.preview_spawn
                            is None
                    },
                    // backspace deletes before the cursor and restarts the
                    // filter, unless the cursor already sits at the start
                    Event::Key(KeyCode::Backspace, m) => if !m.control && !m.alt {
                        &&& (old(self).input.cursor_position > 0 ==> {
                            &&& final(self).input.input@ == old(self).input.input@.remove(
                                old(self).input.cursor_position - 1,
                            )
                            &&& final(self).finder.query@ == final(self).input.input@
                            &&& r.filter_job is Some
                            &&& (r.filter_job->0).query@ == final(self).input.input@
                            &&& (r.filter_job->0).ticket == final(self).finder.filter_worker.filter_task_handler
                        })
                        &&& (old(self).input.cursor_position == 0 ==> final(self).input == old(self).input && final(self).finder == old(self).finder && r.filter_job
                            is None)
                        &&& r.redraw.input
                        &&& final(self).viewer == old(self).viewer
                        &&& final(self).status == old(self).status
                        &&& r.preview_spawn is None
                    } else {
                        *final(self) == *old(self) && r.filter_job is None && r.preview_spawn
                            is None
                    },
                    // a plain Up or Down moves the selection; with Alt it
                    // scrolls the preview body instead
                    Event::Key(KeyCode::Up, m) => if !m.shift && !m.control && !m.alt {
                        &&& final(self).finder.selection as nat == sel_after_move(
                            old(self).finder.selection as nat,
                            old(self).finder.filtered.len_spec(),
                            FinderMove::Next,
                        )
                        &&& final(self).finder.filtered == old(self).finder.filtered
                        &&& final(self).input == old(self).input
                        &&& final(self).viewer == old(self).viewer
                        &&& final(self).status == old(self).status
                        &&& r.redraw.finder
                        &&& r.filter_job is None && r.preview_spawn is None
                    } else if m.alt && !m.shift && !m.control {
                        &&& (final(self).viewer.file is Some) == (old(self).viewer.file is Some)
                        &&& final(self).viewer.file is Some ==> (final(self).viewer.file->0).0
                            == (old(self).viewer.file->0).0 && (final(self).viewer.file->0).1
                            == scroll_after((old(self).viewer.file->0).1, e)
                        &&& final(self).finder == old(self).finder
                        &&& final(self).input == old(self).input
                        &&& final(self).status == old(self).status
                        &&& r.filter_job is None && r.preview_spawn is None
                    } else {
                        *final(self) == *old(self) && r.filter_job is None && r.preview_spawn
                            is None
                    },
                    Event::Key(KeyCode::Down, m) => if !m.shift && !m.control && !m.alt {
                        &&& final(self).finder.selection as nat == sel_after_move(
                            old(self).finder.selection as nat,
                            old(self).finder.filtered.len_spec(),
                            FinderMove::Prev,
                        )
                        &&& final(self).finder.filtered == old(self).finder.filtered
                        &&& final(self).input == old(self).input
                        &&& final(self).viewer == old(self).viewer
                        &&& final(self).status == old(self).status
                        &&& r.redraw.finder
                        &&& r.filter_job is None && r.preview_spawn is None
                    } else if m.alt && !m.shift && !m.control {
                        &&& (final(self).viewer.file is Some) == (old(self).viewer.file is Some)
                        &&& final(self).viewer.file is Some ==> (final(self).viewer.file->0).0
                            == (old(self).viewer.file->0).0 && (final(self).viewer.file->0).1
                            == scroll_after((old(self).viewer.file->0).1, e)
                        &&& final(self).finder == old(self).finder
                        &&& final(self).input == old(self).input
                        &&& final(self).status == old(self).status
                        &&& r.filter_job is None && r.preview_spawn is None
                    } else {
                        *final(self) == *old(self) && r.filter_job is None && r.preview_spawn
                            is None
                    },
                    // cursor movement edits nothing and restarts nothing
                    Event::Key(KeyCode::Left, m) => if !m.control && !m.alt {
                        final(self).input.input@ == old(self).input.input@ && final(self).finder
                            == old(self).finder && final(self).viewer == old(self).viewer
                            && final(self).status == old(self).status && r.filter_job is None
                            && r.preview_spawn is None && r.redraw.input
                    } else {
                        *final(self) == *old(self) && r.filter_job is None && r.preview_spawn
                            is None
                    },
                    Event::Key(KeyCode::Right, m) => if !m.control && !m.alt {
                        final(self).input.input@ == old(self).input.input@ && final(self).finder
                            == old(self).finder && final(self).viewer == old(self).viewer
                            && final(self).status == old(self).status && r.filter_job is None
                            && r.preview_spawn is None && r.redraw.input
                    } else {
                        *final(self) == *old(self) && r.filter_job is None && r.preview_spawn
                            is None
                    },
                    Event::Key(KeyCode::Home, m) => if !m.control && !m.alt {
                        final(self).input.input@ == old(self).input.input@ && final(self).finder
                            == old(self).finder && final(self).viewer == old(self).viewer
                            && final(self).status == old(self).status && r.filter_job is None
                            && r.preview_spawn is None && r.redraw.input
                    } else {
                        *final(self) == *old(self) && r.filter_job is None && r.preview_spawn
                            is None
                    },
                    Event::Key(KeyCode::End, m) => if !m.control && !m.alt {
                        final(self).input.input@ == old(self).input.input@ && final(self).finder
                            == old(self).finder && final(self).viewer == old(self).viewer
                            && final(self).status == old(self).status && r.filter_job is None
                            && r.preview_spawn is None && r.redraw.input
                    } else {
                        *final(self) == *old(self) && r.filter_job is None && r.preview_spawn
                            is None
                    },
                    // everything else changes nothing
                    _ => *final(self) == *old(self) && r.filter_job is None && r.preview_spawn
                        is None,
                },
            },
    {
        let quit = match &ev {
            LoopIn::Term(Event::Key(code, mods)) => match code {
                KeyCode::Esc => true,
                KeyCode::Char(c) => *c == 'c' && mods.control,
                _ => false,
            },
            _ => false,
        };
        if quit {
            return StepEffects {
                quit: true,
                redraw: RedrawSet::empty(),
                filter_job: None,
                preview_spawn: None,
            };
        }
        let mut redraw = RedrawSet::empty();
        let mut filter_job: Option<FilterJob> = None;
        let mut preview_spawn: Option<(FilePath, u64)> = None;
        match ev {
            LoopIn::Term(e) => {
                let res = self.input.handle_event(&e);
                if res.redraw {
                    redraw.input = true;
                }
                match self.input.poll_out() {
                    Some(InputOut::Input(q)) => {
                        let (_, job) = self.finder.handle_msg(FinderIn::Query(q));
                        filter_job = job;
                        redraw.input = true;
                    },
                    None => {},
                }
                if !res.consumed {
                    let res2 = self.finder.handle_event(&e);
                    if res2.redraw {
                        redraw.finder = true;
                    }
                    if !res2.consumed {
                        let res3 = self.viewer.handle_event(&e);
                        if res3.redraw {
                            redraw.stage = true;
                        }
                    }
                }
            },
            LoopIn::FinderMsg(m) => {
                let (total, job) = self.finder.handle_msg(m);
                match total {
                    Some(t) => {
                        self.status.set_total(t);
                        redraw.status = true;
                    },
                    None => {},
                }
                filter_job = job;
            },
            LoopIn::FinderResult(out) => match out {
                FinderOut::FilterResult(q, fr) => {
                    self.status.set_filter_count(fr.len());
                    self.finder.update_filter(&q, fr);
                    redraw.finder = true;
                    redraw.status = true;
                },
                FinderOut::Selected(p) => {
                    let act = self.viewer.handle_file(p.as_ref());
                    match (act, p) {
                        (HandleFileAction::Spawn(t), Some(path)) => {
                            preview_spawn = Some((path, t));
                        },
                        _ => {},
                    }
                    redraw.stage = true;
                },
                FinderOut::TotalCount(c) => {
                    self.status.set_total(c);
                    redraw.status = true;
                },
            },
            LoopIn::PreviewDone(msg) => {
                self.viewer.set_view(msg);
                redraw.stage = true;
            },
        }
        StepEffects { quit: false, redraw, filter_job, preview_spawn }
    }

    /// What one frame hands back: where the terminal cursor goes inside the
    /// input line, and the preview job to spawn if the selection changed.
    pub fn frame(&mut self, list_height: usize, input_width: usize) -> (r: (
        usize,
        Option<(FilePath, u64)>,
    ))
        requires
            old(self).wf(),
            list_height >= 1,
            input_width >= 1,
        ensures
            final(self).wf(),
            // the selection stays visible in the list window
            final(self).finder.show_start <= final(self).finder.selection,
            final(self).finder.selection < final(self).finder.show_start + list_height,
            // the cursor stays visible in the input window
            r.0 < input_width,
            // an unchanged selection spawns nothing and leaves the preview be
            old(self).finder.selected_path_view() == opt_path_view(
                old(self).finder.last_selected,
            ) ==> final(self).viewer == old(self).viewer && r.1 is None,
            // a changed selection is recorded and handed to the preview: a new
            // path supersedes the running job with a fresh ticket, the same
            // path keeps it, and no path clears the preview
            old(self).finder.selected_path_view() != opt_path_view(
                old(self).finder.last_selected,
            ) ==> {
                &&& opt_path_view(final(self).finder.last_selected) == old(self).finder.selected_path_view()
                &&& opt_path_view(final(self).viewer.current) == old(self).finder.selected_path_view()
                &&& (old(self).finder.selected_path_view() is Some && old(self).finder.selected_path_view() != opt_path_view(old(self).viewer.current) ==> {
                    &&& r.1 is Some
                    &&& Some((r.1->0).0.pathbuf@) == old(self).finder.selected_path_view()
                    &&& (r.1->0).1 == final(self).viewer.ticket
                    &&& final(self).viewer.ticket == next_ticket(old(self).viewer.ticket)
                    &&& final(self).viewer.file is None
                })
                &&& (old(self).finder.selected_path_view() is Some && old(self).finder.selected_path_view() == opt_path_view(old(self).viewer.current) ==> final(self).viewer == old(self).viewer && r.1 is None)
                &&& (old(self).finder.selected_path_view() is None ==> r.1 is None && final(self).viewer.file is None)
            },
            final(self).finder.selection == old(self).finder.selection,
            final(self).finder.contents == old(self).finder.contents,
            final(self).finder.query == old(self).finder.query,
            final(self).finder.filtered == old(self).finder.filtered,
    {
        self.finder.update_viewport(list_height);
        let cursor_x = self.input.recompute_view(input_width);
        let mut preview_spawn: Option<(FilePath, u64)> = None;
        match self.finder.announce_selected() {
            Some(sel) => {
                let act = self.viewer.handle_file(sel.as_ref());
                match (act, sel) {
                    (HandleFileAction::Spawn(t), Some(path)) => {
                        preview_spawn = Some((path, t));
                    },
                    _ => {},
                }
            },
            None => {},
        }
        (cursor_x, preview_spawn)
    }
}

} // verus!
