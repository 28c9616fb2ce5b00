//! The finder: the canonical entry list, the current query and filter result,
//! and the selection and viewport over them.
//!
//! Scoring runs on background jobs; here the engine only hands out job
//! descriptions (query, generation ticket, previous result) and takes results
//! back. A result is applied only when it was computed for the query that is
//! still live, so a stale job can never be observed.

use vstd::prelude::*;

use crate::events::{Event, EventHandleResult, KeyCode};
use crate::fileinfo::{chars_equal, copy_chars, FilePath};
use crate::filter::FileterResultEnum;

verus! {

/// What the finder is told: clear the store, extend it with a walked batch,
/// or change the query.
#[derive(Debug)]
pub enum FinderIn {
    Clear,
    Refresh,
    ContentsExtend(Vec<FilePath>),
    Query(Vec<char>),
}

/// A navigation step over the filtered list.
#[derive(Debug, Clone, Copy, PartialEq, Eq, Structural)]
pub enum FinderMove {
    Prev,
    Next,
}

/// What the finder announces: a completed filter result tagged with its
/// query, a change of the selected entry, or a new total count.
#[derive(Debug)]
pub enum FinderOut {
    FilterResult(Vec<char>, FileterResultEnum),
    Selected(Option<FilePath>),
    TotalCount(usize),
}

/// Everything a scoring job captures at launch: the query it scores for, the
/// generation ticket it must still see when it publishes, and the previous
/// completed result it may refine.
pub struct FilterJob {
    pub query: Vec<char>,
    pub ticket: u64,
    pub prev: Option<(Vec<char>, Vec<usize>)>,
}

/// The job spawner's state: the live generation counter, and the last
/// completed subset with the query it answered.
pub struct FilterWorker {
    pub filter_task_handler: u64,
    pub filter_result: Option<(Vec<char>, Vec<usize>)>,
}

/// How close to a window edge the selection may come before a one-row move
/// scrolls the viewport along (an empirical margin, not a load-bearing one).
pub const SCROLL_MARGIN: usize = 3;

/// The counter after one more ticket is drawn (tickets only need to be
/// distinct between neighbours, so wrapping is fine).
pub open spec fn next_ticket(t: u64) -> u64 {
    if t == u64::MAX {
        0
    } else {
        (t + 1) as u64
    }
}

impl FilterWorker {
    pub fn new() -> (r: FilterWorker)
        ensures
            r.filter_task_handler == 0,
            r.filter_result is None,
    {
        FilterWorker { filter_task_handler: 0, filter_result: None }
    }

    /// Supersede every older job and describe the new one: the new ticket is
    /// drawn, and the job carries the query and the previous completed result.
    pub fn filter_start(&mut self, query: &Vec<char>) -> (job: FilterJob)
        ensures
            final(self).filter_task_handler == next_ticket(old(self).filter_task_handler),
            final(self).filter_result == old(self).filter_result,
            job.ticket == final(self).filter_task_handler,
            job.query@ == query@,
            (job.prev is Some) == (old(self).filter_result is Some),
            job.prev is Some ==> (job.prev->0).0@ == (old(self).filter_result->0).0@
                && (job.prev->0).1@ == (old(self).filter_result->0).1@,
    {
        self.filter_task_handler = self.filter_task_handler.wrapping_add(1);
        let prev = match &self.filter_result {
            Some(p) => Some((copy_chars(&p.0), copy_indices(&p.1))),
            None => None,
        };
        FilterJob { query: copy_chars(query), ticket: self.filter_task_handler, prev }
    }

    /// The cancellation check a job makes between candidates: its ticket must
    /// still be the live one.
    pub fn is_current(&self, ticket: u64) -> (r: bool)
        ensures
            r == (ticket == self.filter_task_handler),
    {
        ticket == self.filter_task_handler
    }

    /// Record a completed subset so that the next refining query can reuse it.
    pub fn complete(&mut self, query: &Vec<char>, indices: &Vec<usize>)
        ensures
            final(self).filter_task_handler == old(self).filter_task_handler,
            final(self).filter_result is Some,
            (final(self).filter_result->0).0@ == query@,
            (final(self).filter_result->0).1@ == indices@,
    {
        self.filter_result = Some((copy_chars(query), copy_indices(indices)));
    }
}

/// A fresh buffer with the same indices.
fn copy_indices(v: &Vec<usize>) -> (r: Vec<usize>)
    ensures
        r@ == v@,
{
    let mut out: Vec<usize> = Vec::new();
    let mut i: usize = 0;
    while i < v.len()
        invariant
            0 <= i <= v@.len(),
            out@ =~= v@.subrange(0, i as int),
        decreases v@.len() - i,
    {
        out.push(v[i]);
        i += 1;
    }
    assert(out@ =~= v@);
    out
}

/// The path text of an announced selection, if any.
pub open spec fn opt_path_view(o: Option<FilePath>) -> Option<Seq<char>> {
    match o {
        Some(p) => Some(p.pathbuf@),
        None => None,
    }
}

/// Where the selection lands after one navigation step over a list of
/// `len` rows.
pub open spec fn sel_after_move(sel: nat, len: nat, mv: FinderMove) -> nat {
    let moved: nat = match mv {
        FinderMove::Prev => if sel > 0 {
            (sel - 1) as nat
        } else {
            0
        },
        FinderMove::Next => sel + 1,
    };
    if len == 0 {
        0
    } else if moved < len {
        moved
    } else {
        (len - 1) as nat
    }
}

/// The finder's state: content store, live query, current filter result,
/// selection and viewport, and the job spawner.
pub struct Finder {
    pub contents: Vec<FilePath>,
    pub query: Vec<char>,
    pub filtered: FileterResultEnum,
    pub selection: usize,
    pub show_start: usize,
    pub last_move: Option<FinderMove>,
    pub last_selected: Option<FilePath>,
    pub filter_worker: FilterWorker,
}

impl Finder {
    /// The selection always lies inside the filtered list, pinned to 0 when
    /// the list is empty, and every stored entry can be sliced for display.
    pub open spec fn wf(&self) -> bool {
        &&& forall|k: int| 0 <= k < self.contents@.len() ==> (#[trigger] self.contents@[k]).wf()
        &&& self.filtered.len_spec() == 0 ==> self.selection == 0
        &&& self.filtered.len_spec() > 0 ==> (self.selection as nat) < self.filtered.len_spec()
    }

    /// The content index the selection resolves to, if it points at a live
    /// entry.
    pub open spec fn selected_content_index(&self) -> Option<int> {
        if self.filtered.len_spec() == 0 {
            None
        } else {
            match self.filtered {
                FileterResultEnum::All(_) => if (self.selection as int)
                    < self.contents@.len() {
                    Some(self.selection as int)
                } else {
                    None
                },
                FileterResultEnum::Subset(v) => if (v@[self.selection as int] as int)
                    < self.contents@.len() {
                    Some(v@[self.selection as int] as int)
                } else {
                    None
                },
                FileterResultEnum::Empty => None,
            }
        }
    }

    /// The path text of the entry the selection resolves to.
    pub open spec fn selected_path_view(&self) -> Option<Seq<char>> {
        match self.selected_content_index() {
            Some(i) => Some(self.contents@[i].pathbuf@),
            None => None,
        }
    }

    pub fn new() -> (r: Finder)
        ensures
            r.wf(),
            r.contents@.len() == 0,
            r.query@.len() == 0,
            r.filtered is All && r.filtered.len_spec() == 0,
            r.selection == 0,
            r.show_start == 0,
            r.last_move is None,
            r.last_selected is None,
            r.filter_worker.filter_task_handler == 0,
            r.filter_worker.filter_result is None,
    {
        Finder {
            contents: Vec::new(),
            query: Vec::new(),
            filtered: FileterResultEnum::All(0),
            selection: 0,
            show_start: 0,
            last_move: None,
            last_selected: None,
            filter_worker: FilterWorker::new(),
        }
    }

    /// How many rows the current filter result offers.
    pub fn filtered_len(&self) -> (r: usize)
        ensures
            r == self.filtered.len_spec(),
    {
        self.filtered.len()
    }

    /// Apply a completed filter result, but only when it was computed for the
    /// query that is still live: a result for any other query leaves the
    /// state untouched, so a superseded job is never observed. An applied
    /// result resets the selection to the top, and a subset is remembered for
    /// refinement by the next extending query.
    pub fn update_filter(&mut self, query: &Vec<char>, filter: FileterResultEnum)
        requires
            old(self).wf(),
        ensures
            final(self).wf(),
            query@ != old(self).query@ ==> *final(self) == *old(self),
            query@ == old(self).query@ ==> {
                &&& final(self).filtered == filter
                &&& final(self).selection == 0
                &&& final(self).contents == old(self).contents
                &&& final(self).query == old(self).query
                &&& final(self).show_start == old(self).show_start
                &&& final(self).last_move == old(self).last_move
                &&& final(self).last_selected == old(self).last_selected
                &&& final(self).filter_worker.filter_task_handler == old(
                    self,
                ).filter_worker.filter_task_handler
                &&& (filter is Subset ==> final(self).filter_worker.filter_result is Some
                    && (final(self).filter_worker.filter_result->0).0@ == query@
                    && (final(self).filter_worker.filter_result->0).1@ == filter->Subset_0@)
                &&& (!(filter is Subset) ==> final(self).filter_worker.filter_result == old(
                    self,
                ).filter_worker.filter_result)
            },
    {
        if chars_equal(query, &self.query) {
            match &filter {
                FileterResultEnum::Subset(v) => {
                    self.filter_worker.complete(query, v);
                },
                _ => {},
            }
            self.filtered = filter;
            self.selection = 0;
        }
    }

    /// Start a new scoring job for the live query.
    pub fn filter_start(&mut self) -> (job: FilterJob)
        requires
            old(self).wf(),
        ensures
            final(self).wf(),
            job.query@ == old(self).query@,
            job.ticket == final(self).filter_worker.filter_task_handler,
            final(self).filter_worker.filter_task_handler == next_ticket(
                old(self).filter_worker.filter_task_handler,
            ),
            (job.prev is Some) == (old(self).filter_worker.filter_result is Some),
            job.prev is Some ==> (job.prev->0).0@ == (old(
                self,
            ).filter_worker.filter_result->0).0@ && (job.prev->0).1@ == (old(
                self,
            ).filter_worker.filter_result->0).1@,
            final(self).contents == old(self).contents,
            final(self).query == old(self).query,
            final(self).filtered == old(self).filtered,
            final(self).selection == old(self).selection,
            final(self).filter_worker.filter_result == old(self).filter_worker.filter_result,
    {
        let q = copy_chars(&self.query);
        self.filter_worker.filter_start(&q)
    }

    /// Replace the query and start a job for it.
    pub fn update_query(&mut self, query: &Vec<char>) -> (job: FilterJob)
        requires
            old(self).wf(),
        ensures
            final(self).wf(),
            final(self).query@ == query@,
            job.query@ == query@,
            job.ticket == final(self).filter_worker.filter_task_handler,
            final(self).filter_worker.filter_task_handler == next_ticket(
                old(self).filter_worker.filter_task_handler,
            ),
            (job.prev is Some) == (old(self).filter_worker.filter_result is Some),
            final(self).contents == old(self).contents,
            final(self).filtered == old(self).filtered,
            final(self).selection == old(self).selection,
    {
        self.query = copy_chars(query);
        self.filter_start()
    }

    /// Move the selection one row, clamped to the filtered list; an empty
    /// list pins it at 0.
    pub fn move_selection(&mut self, move_type: FinderMove) -> (r: bool)
        requires
            old(self).wf(),
        ensures
            final(self).wf(),
            r == true,
            final(self).selection as nat == sel_after_move(
                old(self).selection as nat,
                old(self).filtered.len_spec(),
                move_type,
            ),
            final(self).last_move == Some(move_type),
            final(self).contents == old(self).contents,
            final(self).query == old(self).query,
            final(self).filtered == old(self).filtered,
            final(self).show_start == old(self).show_start,
            final(self).last_selected == old(self).last_selected,
            final(self).filter_worker == old(self).filter_worker,
    {
        let len = self.filtered_len();
        let moved = match &move_type {
            FinderMove::Prev => if self.selection > 0 {
                self.selection - 1
            } else {
                0
            },
            FinderMove::Next => if self.selection < usize::MAX {
                self.selection + 1
            } else {
                usize::MAX
            },
        };
        proof {
            if self.selection as nat + 1 > usize::MAX as nat {
                assert(self.filtered.len_spec() > usize::MAX as nat);
            }
        }
        self.last_move = Some(move_type);
        self.selection = if len == 0 {
            0
        } else if moved < len {
            moved
        } else {
            len - 1
        };
        true
    }

    /// Where the viewport's top row lands after one draw pass over a window
    /// of `height` rows: a reset to the top when the selection is row 0, a
    /// snap to `max(0, selection - height + 1)` when the selection left the
    /// window by more than the window height, else one row of scroll
    /// hysteresis when the last navigation step brought the selection within
    /// `SCROLL_MARGIN` rows of an edge; whatever applied, the start is then
    /// clamped so the selection stays visible.
    pub open spec fn viewport_after(
        sel: int,
        start: int,
        height: int,
        last_move: Option<FinderMove>,
    ) -> int {
        let moved = if sel == 0 {
            0
        } else if sel - start > height || start - sel > height {
            if sel + 1 - height > 0 {
                sel + 1 - height
            } else {
                0
            }
        } else {
            match last_move {
                Some(FinderMove::Next) => if sel + SCROLL_MARGIN >= start + height {
                    if start + 1 <= usize::MAX {
                        start + 1
                    } else {
                        usize::MAX as int
                    }
                } else {
                    start
                },
                _ => if sel <= start + SCROLL_MARGIN {
                    if start > 0 {
                        start - 1
                    } else {
                        0
                    }
                } else {
                    start
                },
            }
        };
        let lo = if moved > sel {
            sel
        } else {
            moved
        };
        if sel - lo >= height {
            sel + 1 - height
        } else {
            lo
        }
    }

    /// One draw pass over the viewport: reset at the top, snap when the
    /// selection left the window entirely, apply one row of scroll hysteresis
    /// near an edge, and in every case leave the selection visible. The
    /// recorded navigation step is consumed.
    pub fn update_viewport(&mut self, height: usize)
        requires
            old(self).wf(),
            height >= 1,
        ensures
            final(self).wf(),
            final(self).show_start == Self::viewport_after(
                old(self).selection as int,
                old(self).show_start as int,
                height as int,
                old(self).last_move,
            ),
            final(self).show_start <= final(self).selection,
            final(self).selection < final(self).show_start + height,
            final(self).selection == 0 ==> final(self).show_start == 0,
            final(self).last_move is None,
            final(self).selection == old(self).selection,
            final(self).contents == old(self).contents,
            final(self).query == old(self).query,
            final(self).filtered == old(self).filtered,
            final(self).last_selected == old(self).last_selected,
            final(self).filter_worker == old(self).filter_worker,
    {
        let len = self.filtered_len();
        let sel = self.selection;
        let ss = self.show_start;
        if sel == 0 {
            self.show_start = 0;
        } else if (sel > ss && sel - ss > height) || (ss > sel && ss - sel > height) {
            // the selection left the window by more than the window height
            self.show_start = if sel + 1 > height {
                sel + 1 - height
            } else {
                0
            };
        } else {
            match &self.last_move {
                Some(FinderMove::Next) => {
                    let near_bottom = if sel >= ss {
                        sel - ss >= height.saturating_sub(SCROLL_MARGIN)
                    } else {
                        height <= SCROLL_MARGIN && ss - sel <= SCROLL_MARGIN - height
                    };
                    if near_bottom {
                        self.show_start = if ss < usize::MAX {
                            ss + 1
                        } else {
                            usize::MAX
                        };
                    }
                },
                _ => {
                    let near_top = sel <= ss || sel - ss <= SCROLL_MARGIN;
                    if near_top {
                        self.show_start = if ss > 0 {
                            ss - 1
                        } else {
                            0
                        };
                    }
                },
            }
        }
        self.last_move = None;
        // whatever applied, the selection stays inside the window
        if self.show_start > sel {
            self.show_start = sel;
        }
        if sel - self.show_start >= height {
            self.show_start = sel - height + 1;
        }
    }

    /// The entry the selection points at, or nothing when the filtered list
    /// is empty or the index no longer names a stored entry.
    pub fn resolve_selected(&self) -> (r: Option<FilePath>)
        requires
            self.wf(),
        ensures
            opt_path_view(r) == self.selected_path_view(),
            self.filtered.len_spec() == 0 ==> r is None,
            r is Some ==> (r->0).wf(),
    {
        if self.filtered_len() == 0 {
            return None;
        }
        let content_idx: usize = match &self.filtered {
            FileterResultEnum::All(_) => self.selection,
            FileterResultEnum::Subset(v) => v[self.selection],
            FileterResultEnum::Empty => {
                return None;
            },
        };
        if content_idx < self.contents.len() {
            Some(self.contents[content_idx].clone_path())
        } else {
            None
        }
    }

    /// Resolve the selection and announce it only when it differs from the
    /// last announced entry, so an unchanged selection never restarts the
    /// preview.
    pub fn announce_selected(&mut self) -> (r: Option<Option<FilePath>>)
        requires
            old(self).wf(),
        ensures
            final(self).wf(),
            (r is Some) == (opt_path_view(old(self).last_selected) != old(
                self,
            ).selected_path_view()),
            r is Some ==> opt_path_view(r->0) == old(self).selected_path_view(),
            opt_path_view(final(self).last_selected) == old(self).selected_path_view(),
            final(self).contents == old(self).contents,
            final(self).query == old(self).query,
            final(self).filtered == old(self).filtered,
            final(self).selection == old(self).selection,
            final(self).show_start == old(self).show_start,
            final(self).last_move == old(self).last_move,
            final(self).filter_worker == old(self).filter_worker,
    {
        let resolved = self.resolve_selected();
        let same = match (&self.last_selected, &resolved) {
            (Some(a), Some(b)) => chars_equal(&a.pathbuf, &b.pathbuf),
            (None, None) => true,
            _ => false,
        };
        if same {
            proof {
                assert(opt_path_view(self.last_selected) == self.selected_path_view());
            }
            None
        } else {
            let announced = match &resolved {
                Some(p) => Some(p.clone_path()),
                None => None,
            };
            self.last_selected = resolved;
            Some(announced)
        }
    }

    /// Route one message: clear the store, extend it (which re-filters and
    /// reports the new total), or take a new query. Returns the total to
    /// report, if any, and the scoring job to spawn, if any.
    pub fn handle_msg(&mut self, msg: FinderIn) -> (r: (Option<usize>, Option<FilterJob>))
        requires
            old(self).wf(),
            msg is ContentsExtend ==> forall|k: int|
                0 <= k < msg->ContentsExtend_0@.len()
                    ==> (#[trigger] msg->ContentsExtend_0@[k]).wf(),
        ensures
            final(self).wf(),
            msg is Clear ==> final(self).contents@.len() == 0 && final(self).filtered is Empty
                && final(self).selection == 0 && r.0 is None && r.1 is None && final(self).filter_worker == old(self).filter_worker,
            msg is Refresh ==> *final(self) == *old(self) && r.0 is None && r.1 is None,
            msg is ContentsExtend ==> {
                &&& final(self).contents@ == old(self).contents@ + msg->ContentsExtend_0@
                &&& final(self).query == old(self).query
                &&& r.0 is Some && r.0->0 == final(self).contents@.len()
                &&& r.1 is Some
                &&& (r.1->0).query@ == old(self).query@
                &&& (r.1->0).ticket == final(self).filter_worker.filter_task_handler
                &&& final(self).filter_worker.filter_task_handler == next_ticket(
                    old(self).filter_worker.filter_task_handler,
                )
            },
            msg is Query ==> {
                &&& final(self).query@ == msg->Query_0@
                &&& final(self).contents == old(self).contents
                &&& r.0 is None
                &&& r.1 is Some
                &&& (r.1->0).query@ == msg->Query_0@
                &&& (r.1->0).ticket == final(self).filter_worker.filter_task_handler
                &&& final(self).filter_worker.filter_task_handler == next_ticket(
                    old(self).filter_worker.filter_task_handler,
                )
            },
    {
        match msg {
            FinderIn::Clear => {
                self.contents = Vec::new();
                self.filtered = FileterResultEnum::Empty;
                self.selection = 0;
                (None, None)
            },
            FinderIn::Refresh => (None, None),
            FinderIn::ContentsExtend(adds) => {
                let mut adds = adds;
                self.contents.append(&mut adds);
                proof {
                    assert(self.wf());
                }
                let job = self.filter_start();
                (Some(self.contents.len()), Some(job))
            },
            FinderIn::Query(q) => {
                let job = self.update_query(&q);
                (None, Some(job))
            },
        }
    }

    /// Keyboard handling: plain Up and Down move the selection (the list is
    /// rendered bottom-up, so Up moves towards higher row numbers); anything
    /// else is left for other components.
    pub fn handle_event(&mut self, event: &Event) -> (r: EventHandleResult)
        requires
            old(self).wf(),
        ensures
            final(self).wf(),
            match *event {
                Event::Key(KeyCode::Up, m) => if !m.shift && !m.control && !m.alt {
                    &&& r.redraw && r.consumed
                    &&& final(self).selection as nat == sel_after_move(
                        old(self).selection as nat,
                        old(self).filtered.len_spec(),
                        FinderMove::Next,
                    )
                    &&& final(self).contents == old(self).contents
                    &&& final(self).query == old(self).query
                    &&& final(self).filtered == old(self).filtered
                    &&& final(self).filter_worker == old(self).filter_worker
                } else {
                    *final(self) == *old(self) && !r.redraw && !r.consumed
                },
                Event::Key(KeyCode::Down, m) => if !m.shift && !m.control && !m.alt {
                    &&& r.redraw && r.consumed
                    &&& final(self).selection as nat == sel_after_move(
                        old(self).selection as nat,
                        old(self).filtered.len_spec(),
                        FinderMove::Prev,
                    )
                    &&& final(self).contents == old(self).contents
                    &&& final(self).query == old(self).query
                    &&& final(self).filtered == old(self).filtered
                    &&& final(self).filter_worker == old(self).filter_worker
                } else {
                    *final(self) == *old(self) && !r.redraw && !r.consumed
                },
                _ => *final(self) == *old(self) && !r.redraw && !r.consumed,
            },
    {
        match event {
            Event::Key(code, mods) => {
                if !mods.is_empty() {
                    return EventHandleResult::empty();
                }
                match code {
                    KeyCode::Up => {
                        self.move_selection(FinderMove::Next);
                        EventHandleResult::all()
                    },
                    KeyCode::Down => {
                        self.move_selection(FinderMove::Prev);
                        EventHandleResult::all()
                    },
                    _ => EventHandleResult::empty(),
                }
            },
            _ => EventHandleResult::empty(),
        }
    }

    /// How many rows a window of `height` rows shows over a list of `limit`
    /// rows when it starts at `start`.
    pub open spec fn page_len(limit: int, start: int, height: int) -> int {
        if start >= limit {
            0
        } else if limit - start < height {
            limit - start
        } else {
            height
        }
    }

    /// The rows a draw pass shows: pairs of (row number, content index),
    /// starting at the viewport's top row — the full window over an `All` or
    /// `Empty` result, and for a `Subset` the rows up to the window's end,
    /// the subset's end, or the first index that no longer names a stored
    /// entry, whichever comes first.
    pub fn visible_page(&self, height: usize) -> (r: Vec<(usize, usize)>)
        requires
            self.wf(),
        ensures
            forall|k: int|
                0 <= k < r@.len() ==> (#[trigger] r@[k]).0 == self.show_start + k,
            forall|k: int|
                0 <= k < r@.len() ==> (#[trigger] r@[k]).1 < self.contents@.len(),
            forall|k: int|
                0 <= k < r@.len() ==> match self.filtered {
                    FileterResultEnum::All(_) => (#[trigger] r@[k]).1 == self.show_start + k,
                    FileterResultEnum::Subset(v) => r@[k].1 == v@[self.show_start + k],
                    FileterResultEnum::Empty => false,
                },
            r@.len() <= height,
            self.filtered is All ==> r@.len() == Self::page_len(
                if self.filtered->All_0 <= self.contents@.len() {
                    self.filtered->All_0 as int
                } else {
                    self.contents@.len() as int
                },
                self.show_start as int,
                height as int,
            ),
            self.filtered is Subset ==> {
                ||| r@.len() == height
                ||| self.show_start + r@.len() >= self.filtered->Subset_0@.len()
                ||| (self.show_start + r@.len() < self.filtered->Subset_0@.len()
                    && self.filtered->Subset_0@[self.show_start + r@.len()]
                    >= self.contents@.len())
            },
            self.filtered is Empty ==> r@.len() == 0,
    {
        let mut out: Vec<(usize, usize)> = Vec::new();
        let mut row: usize = self.show_start;
        match &self.filtered {
            FileterResultEnum::All(count) => {
                let limit = if *count < self.contents.len() {
                    *count
                } else {
                    self.contents.len()
                };
                while row < limit && out.len() < height
                    invariant
                        limit <= self.contents@.len(),
                        self.show_start <= row,
                        row <= limit || row == self.show_start,
                        out@.len() <= height,
                        out@.len() == row - self.show_start,
                        self.filtered is All,
                        forall|k: int|
                            0 <= k < out@.len() ==> (#[trigger] out@[k]).0 == self.show_start + k
                                && out@[k].1 == self.show_start + k && out@[k].1
                                < self.contents@.len(),
                    decreases limit - row,
                {
                    out.push((row, row));
                    row += 1;
                }
            },
            FileterResultEnum::Subset(v) => {
                while row < v.len() && out.len() < height && v[row] < self.contents.len()
                    invariant
                        self.show_start <= row,
                        out@.len() <= height,
                        out@.len() == row - self.show_start,
                        forall|k: int|
                            0 <= k < out@.len() ==> (#[trigger] out@[k]).0 == self.show_start + k
                                && out@[k].1 == v@[self.show_start + k] && out@[k].1
                                < self.contents@.len(),
                    decreases v@.len() - row,
                {
                    let idx = v[row];
                    out.push((row, idx));
                    row += 1;
                }
            },
            FileterResultEnum::Empty => {},
        }
        out
    }
}

} // verus!
