//! The status line's state: where the walk runs, how it runs, and the two
//! counts the interface shows (matches over total).

use vstd::prelude::*;

use crate::fileinfo::copy_chars;
use crate::walker::FindType;

verus! {

/// What the status line is told.
#[derive(Debug)]
pub enum StatusIn {
    CWD(Vec<char>),
    ShowType(FindType),
    ShowHide(bool),
    Total(usize),
    FilterSize(usize),
}

/// The status line's state.
#[derive(Debug)]
pub struct Status {
    pub cwd: Vec<char>,
    pub show_type: FindType,
    pub show_hide: bool,
    pub total: usize,
    pub filter_size: usize,
}

impl Status {
    pub fn new(cwd: &Vec<char>) -> (r: Status)
        ensures
            r.cwd@ == cwd@,
            r.show_type is FIND,
            r.show_hide == false,
            r.total == 0,
            r.filter_size == 0,
    {
        Status {
            cwd: copy_chars(cwd),
            show_type: Default::default(),
            show_hide: false,
            total: 0,
            filter_size: 0,
        }
    }

    /// Record how many entries the walk has delivered.
    pub fn set_total(&mut self, num: usize)
        ensures
            final(self).total == num,
            final(self).cwd == old(self).cwd,
            final(self).show_type == old(self).show_type,
            final(self).show_hide == old(self).show_hide,
            final(self).filter_size == old(self).filter_size,
    {
        self.total = num;
    }

    /// Record how many entries the current filter result holds.
    pub fn set_filter_count(&mut self, num: usize)
        ensures
            final(self).filter_size == num,
            final(self).cwd == old(self).cwd,
            final(self).show_type == old(self).show_type,
            final(self).show_hide == old(self).show_hide,
            final(self).total == old(self).total,
    {
        self.filter_size = num;
    }

    /// Route one message into the matching field; nothing else moves.
    pub fn handle_msg(&mut self, msg: StatusIn)
        ensures
            msg is CWD ==> final(self).cwd@ == msg->CWD_0@ && final(self).show_type == old(
                self,
            ).show_type && final(self).show_hide == old(self).show_hide && final(self).total
                == old(self).total && final(self).filter_size == old(self).filter_size,
            msg is ShowType ==> *final(self) == (Status {
                show_type: msg->ShowType_0,
                ..*old(self)
            }),
            msg is ShowHide ==> *final(self) == (Status {
                show_hide: msg->ShowHide_0,
                ..*old(self)
            }),
            msg is Total ==> *final(self) == (Status { total: msg->Total_0, ..*old(self) }),
            msg is FilterSize ==> *final(self) == (Status {
                filter_size: msg->FilterSize_0,
                ..*old(self)
            }),
    {
        match msg {
            StatusIn::CWD(cwd) => {
                self.cwd = cwd;
            },
            StatusIn::ShowType(st) => {
                self.show_type = st;
            },
            StatusIn::ShowHide(sh) => {
                self.show_hide = sh;
            },
            StatusIn::Total(total) => {
                self.total = total;
            },
            StatusIn::FilterSize(f) => {
                self.filter_size = f;
            },
        }
    }
}

} // verus!
