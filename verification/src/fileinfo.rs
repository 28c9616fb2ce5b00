//! Entries of the content store: an absolute path plus the offset from which
//! it is shown, so that the list displays paths relative to the search root.
//!
//! Text is held as `Vec<char>` throughout, so that every character operation
//! is in reach of the verifier.

use vstd::prelude::*;

verus! {

/// True when `pre` stands at the front of `s`.
pub open spec fn is_prefix_of(pre: Seq<char>, s: Seq<char>) -> bool {
    pre.len() <= s.len() && s.subrange(0, pre.len() as int) == pre
}

/// The display offset of `total` relative to the root `base`: 0 when the root
/// is the filesystem root or not a prefix at all, else the root's length plus
/// one for the separator, unless the root already ends in one.
pub open spec fn diff_path_raw(base: Seq<char>, total: Seq<char>) -> nat {
    if base == seq!['/'] {
        0
    } else if !is_prefix_of(base, total) {
        0
    } else if base.len() > 0 && base[base.len() - 1] == '/' {
        base.len()
    } else {
        base.len() + 1
    }
}

/// The display offset, capped at the path's own length so that it can always
/// be used to slice the path (the cap matters only when the path equals the
/// root exactly).
pub open spec fn diff_path_spec(base: Seq<char>, total: Seq<char>) -> nat {
    if diff_path_raw(base, total) <= total.len() {
        diff_path_raw(base, total)
    } else {
        total.len()
    }
}

/// Compares the front of `total` against all of `base`.
pub fn starts_with(total: &Vec<char>, base: &Vec<char>) -> (r: bool)
    ensures
        r == is_prefix_of(base@, total@),
{
    if base.len() > total.len() {
        assert(!is_prefix_of(base@, total@));
        return false;
    }
    let mut i: usize = 0;
    while i < base.len()
        invariant
            0 <= i <= base.len() <= total.len(),
            forall|k: int| 0 <= k < i ==> total@[k] == base@[k],
        decreases base.len() - i,
    {
        if total[i] != base[i] {
            assert(total@.subrange(0, base@.len() as int)[i as int] != base@[i as int]);
            return false;
        }
        i += 1;
    }
    assert(total@.subrange(0, base@.len() as int) =~= base@);
    true
}

/// How many leading characters of `total` are hidden when it is displayed
/// under the root `base`.
pub fn diff_path(base: &Vec<char>, total: &Vec<char>) -> (r: usize)
    ensures
        r == diff_path_spec(base@, total@),
{
    if base.len() == 1 && base[0] == '/' {
        assert(base@ =~= seq!['/']);
        return 0;
    }
    assert(base@ !~= seq!['/']);
    if !starts_with(total, base) {
        0
    } else if base.len() > 0 && base[base.len() - 1] == '/' {
        base.len()
    } else if base.len() < total.len() {
        base.len() + 1
    } else {
        total.len()
    }
}

/// An absolute path together with the offset from which it is displayed.
#[derive(Debug)]
pub struct FilePath {
    pub pathbuf: Vec<char>,
    pub show_start: usize,
}

impl FilePath {
    /// The stored offset never passes the end of the path.
    pub open spec fn wf(&self) -> bool {
        self.show_start <= self.pathbuf@.len()
    }

    /// The displayed tail of the path.
    pub open spec fn line_view(&self) -> Seq<char> {
        self.pathbuf@.skip(self.show_start as int)
    }

    pub open spec fn show_start_spec(&self) -> nat {
        self.show_start as nat
    }

    pub fn new(pathbuf: Vec<char>, base: &Vec<char>) -> (r: FilePath)
        ensures
            r.wf(),
            r.pathbuf@ == pathbuf@,
            r.show_start_spec() == diff_path_spec(base@, pathbuf@),
    {
        let show_start = diff_path(base, &pathbuf);
        FilePath { pathbuf, show_start }
    }

    pub fn path(&self) -> (r: &Vec<char>)
        ensures
            r@ == self.pathbuf@,
    {
        &self.pathbuf
    }

    /// A copy of the displayed tail.
    pub fn line(&self) -> (r: Vec<char>)
        requires
            self.wf(),
        ensures
            r@ == self.line_view(),
    {
        let mut out: Vec<char> = Vec::new();
        let mut i: usize = self.show_start;
        while i < self.pathbuf.len()
            invariant
                self.show_start <= i <= self.pathbuf@.len(),
                out@ =~= self.pathbuf@.subrange(self.show_start as int, i as int),
            decreases self.pathbuf@.len() - i,
        {
            out.push(self.pathbuf[i]);
            i += 1;
        }
        assert(out@ =~= self.line_view());
        out
    }

    /// True when both stand for the same absolute path.
    pub fn same_path(&self, other: &FilePath) -> (r: bool)
        ensures
            r == (self.pathbuf@ == other.pathbuf@),
    {
        if self.pathbuf.len() != other.pathbuf.len() {
            assert(self.pathbuf@ !~= other.pathbuf@);
            return false;
        }
        let mut i: usize = 0;
        while i < self.pathbuf.len()
            invariant
                0 <= i <= self.pathbuf@.len(),
                self.pathbuf@.len() == other.pathbuf@.len(),
                forall|k: int| 0 <= k < i ==> self.pathbuf@[k] == other.pathbuf@[k],
            decreases self.pathbuf@.len() - i,
        {
            if self.pathbuf[i] != other.pathbuf[i] {
                return false;
            }
            i += 1;
        }
        assert(self.pathbuf@ =~= other.pathbuf@);
        true
    }

    pub fn clone_path(&self) -> (r: FilePath)
        ensures
            r.pathbuf@ == self.pathbuf@,
            r.show_start == self.show_start,
    {
        let mut chars: Vec<char> = Vec::new();
        let mut i: usize = 0;
        while i < self.pathbuf.len()
            invariant
                0 <= i <= self.pathbuf@.len(),
                chars@ =~= self.pathbuf@.subrange(0, i as int),
            decreases self.pathbuf@.len() - i,
        {
            chars.push(self.pathbuf[i]);
            i += 1;
        }
        assert(chars@ =~= self.pathbuf@);
        FilePath { pathbuf: chars, show_start: self.show_start }
    }
}

impl PartialEq for FilePath {
    fn eq(&self, other: &FilePath) -> (r: bool) {
        self.same_path(other)
    }
}

impl vstd::std_specs::cmp::PartialEqSpecImpl for FilePath {
    open spec fn obeys_eq_spec() -> bool {
        true
    }

    open spec fn eq_spec(&self, other: &FilePath) -> bool {
        self.pathbuf@ == other.pathbuf@
    }
}

/// Whether two character buffers hold the same text.
pub fn chars_equal(a: &Vec<char>, b: &Vec<char>) -> (r: bool)
    ensures
        r == (a@ == b@),
{
    if a.len() != b.len() {
        assert(a@ !~= b@);
        return false;
    }
    let mut i: usize = 0;
    while i < a.len()
        invariant
            0 <= i <= a@.len(),
            a@.len() == b@.len(),
            forall|k: int| 0 <= k < i ==> a@[k] == b@[k],
        decreases a@.len() - i,
    {
        if a[i] != b[i] {
            return false;
        }
        i += 1;
    }
    assert(a@ =~= b@);
    true
}

/// A fresh buffer with the same text.
pub fn copy_chars(v: &Vec<char>) -> (r: Vec<char>)
    ensures
        r@ == v@,
{
    let mut out: Vec<char> = Vec::new();
    let mut i: usize = 0;
    while i < v.len()
        invariant
            0 <= i <= v@.len(),
            out@ =~= v@.subrange(0, i as int),
        decreases v@.len() - i,
    {
        out.push(v[i]);
        i += 1;
    }
    assert(out@ =~= v@);
    out
}

/// A trait the finder's rows may implement to describe their display line.
pub trait FinderItem: 'static {
    fn line(&self);
}

} // verus!
