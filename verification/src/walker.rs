//! The directory walk's verifiable half: what to walk, how entries are
//! batched on their way to the finder, and the byte probe that decides
//! whether a file counts as text.
//!
//! The traversal itself (shallow listing or recursive descent) is filesystem
//! work and runs on a background task; it feeds every entry through the
//! batching here, so what reaches the finder is a `Clear` followed by
//! bounded `ContentsExtend` batches that concatenate back to the traversal
//! order.

use vstd::prelude::*;
use vstd::arithmetic::div_mod::lemma_fundamental_div_mod_converse;

use crate::fileinfo::FilePath;
use crate::finder::FinderIn;

verus! {

/// Entries per batch before one is handed to the finder (a batch is emitted
/// as soon as it grows past this).
pub const WALK_BATCH_CAP: usize = 50000;

/// How deep the walk goes: a single directory listing, or the whole subtree.
#[derive(Debug, Clone, Copy, PartialEq, Eq, Structural)]
pub enum FindType {
    LS,
    FIND,
}

impl Default for FindType {
    fn default() -> (r: FindType)
        ensures
            r is FIND,
    {
        FindType::FIND
    }
}

/// What a walk includes: the traversal depth, and whether dotfiles are kept.
#[derive(Debug, Clone, Copy, PartialEq, Eq, Structural)]
pub struct DirFilter {
    pub find_type: FindType,
    pub dotfile: bool,
}

impl Default for DirFilter {
    fn default() -> (r: DirFilter)
        ensures
            r.find_type is FIND,
            r.dotfile == false,
    {
        DirFilter { find_type: FindType::FIND, dotfile: false }
    }
}

/// Builds a `DirFilter` a piece at a time.
pub struct DirFilterBuilder {
    pub filter: DirFilter,
}

impl DirFilter {
    pub fn builder() -> (r: DirFilterBuilder)
        ensures
            r.filter.find_type is FIND,
            r.filter.dotfile == false,
    {
        DirFilterBuilder { filter: Default::default() }
    }
}

impl DirFilterBuilder {
    pub fn with_find_type(self, find_type: FindType) -> (r: Self)
        ensures
            r.filter.find_type == find_type,
            r.filter.dotfile == self.filter.dotfile,
    {
        DirFilterBuilder { filter: DirFilter { find_type, ..self.filter } }
    }

    pub fn build(self) -> (r: DirFilter)
        ensures
            r == self.filter,
    {
        self.filter
    }
}

/// Add one walked entry to the pending batch; once the batch has grown past
/// `cap` it is handed back full (to be sent) and a fresh one is started.
pub fn batch_push(items: &mut Vec<FilePath>, item: FilePath, cap: usize) -> (r: Option<
    Vec<FilePath>,
>)
    ensures
        old(items)@.len() + 1 > cap ==> r is Some && (r->0)@ == old(items)@.push(item) && final(items)@.len() == 0,
        old(items)@.len() + 1 <= cap ==> r is None && final(items)@ == old(items)@.push(item),
{
    items.push(item);
    if items.len() > cap {
        let mut full: Vec<FilePath> = Vec::new();
        core::mem::swap(items, &mut full);
        Some(full)
    } else {
        None
    }
}

/// The entries a sequence of walk signals carries, in emission order.
pub open spec fn signals_entries(sig: Seq<FinderIn>) -> Seq<FilePath>
    decreases sig.len(),
{
    if sig.len() == 0 {
        Seq::empty()
    } else {
        (match sig[0] {
            FinderIn::ContentsExtend(v) => v@,
            _ => Seq::empty(),
        }) + signals_entries(sig.skip(1))
    }
}

/// Appending a signal appends the entries it carries.
pub proof fn lemma_signals_push(sig: Seq<FinderIn>, x: FinderIn)
    ensures
        signals_entries(sig.push(x)) == signals_entries(sig) + (match x {
            FinderIn::ContentsExtend(v) => v@,
            _ => Seq::<FilePath>::empty(),
        }),
    decreases sig.len(),
{
    let tail = (match x {
        FinderIn::ContentsExtend(v) => v@,
        _ => Seq::<FilePath>::empty(),
    });
    if sig.len() == 0 {
        assert(sig.push(x)[0] == x);
        assert(sig.push(x).skip(1) =~= Seq::<FinderIn>::empty());
        assert(signals_entries(Seq::<FinderIn>::empty()) =~= Seq::<FilePath>::empty());
        assert(signals_entries(sig.push(x)) =~= tail);
        assert(signals_entries(sig) + tail =~= tail);
    } else {
        assert(sig.push(x)[0] == sig[0]);
        assert(sig.push(x).skip(1) =~= sig.skip(1).push(x));
        lemma_signals_push(sig.skip(1), x);
        assert(signals_entries(sig.push(x)) =~= signals_entries(sig) + tail);
    }
}

/// The whole emission plan of one walk over `entries`: a `Clear` first, then
/// full batches of `cap + 1` entries as the walk crosses the cap, then one
/// final batch with the remainder (sent even when empty). The batches
/// concatenate back to the walked entries in order.
pub fn walk_plan(entries: Vec<FilePath>, cap: usize) -> (r: Vec<FinderIn>)
    requires
        cap < usize::MAX,
    ensures
        r@.len() == 2 + entries@.len() as int / (cap + 1) as int,
        r@[0] is Clear,
        forall|k: int| 1 <= k < r@.len() ==> (#[trigger] r@[k]) is ContentsExtend,
        forall|k: int|
            1 <= k < r@.len() - 1 ==> ((#[trigger] r@[k])->ContentsExtend_0)@.len() == cap + 1,
        (r@[r@.len() - 1]->ContentsExtend_0)@.len() == entries@.len() as int % (cap + 1) as int,
        signals_entries(r@) == entries@,
{
    let ghost eseq = entries@;
    let mut out: Vec<FinderIn> = Vec::new();
    out.push(FinderIn::Clear);
    proof {
        assert(signals_entries(out@) =~= Seq::<FilePath>::empty()) by {
            assert(out@.skip(1) =~= Seq::<FinderIn>::empty());
            assert(signals_entries(Seq::<FinderIn>::empty()) =~= Seq::<FilePath>::empty());
        }
        assert(signals_entries(out@) + entries@ =~= eseq);
    }
    let mut entries = entries;
    while entries.len() > cap
        invariant
            cap < usize::MAX,
            out@.len() >= 1,
            out@[0] is Clear,
            forall|k: int| 1 <= k < out@.len() ==> (#[trigger] out@[k]) is ContentsExtend,
            forall|k: int|
                1 <= k < out@.len() ==> ((#[trigger] out@[k])->ContentsExtend_0)@.len() == cap
                    + 1,
            signals_entries(out@) + entries@ =~= eseq,
            eseq.len() == (out@.len() - 1) * (cap + 1) as int + entries@.len(),
        decreases entries@.len(),
    {
        let ghost before = entries@;
        let rest = entries.split_off(cap + 1);
        let ghost out0 = out@;
        let full = entries;
        entries = rest;
        out.push(FinderIn::ContentsExtend(full));
        proof {
            lemma_signals_push(out0, FinderIn::ContentsExtend(full));
            assert(full@ + entries@ =~= before);
            assert(signals_entries(out@) + entries@ =~= eseq);
            let a = out0.len() as int;
            let c = (cap + 1) as int;
            assert((a + 1 - 1) * c == (a - 1) * c + c) by (nonlinear_arith);
            assert(out@.len() - 1 == a + 1 - 1);
        }
    }
    let ghost out0 = out@;
    let ghost pend = entries@;
    out.push(FinderIn::ContentsExtend(entries));
    proof {
        lemma_signals_push(out0, FinderIn::ContentsExtend(out@[out@.len() - 1]->ContentsExtend_0));
        assert(signals_entries(out@) =~= eseq);
        lemma_fundamental_div_mod_converse(
            eseq.len() as int,
            (cap + 1) as int,
            out0.len() - 1,
            pend.len() as int,
        );
    }
    out
}

/// How many leading bytes of a file the text probe examines.
pub const TEXT_PROBE_LIMIT: usize = 5999;

/// Whether a file's first bytes look like text: none of the probed bytes (the
/// first `TEXT_PROBE_LIMIT` of them, or all of them for a shorter file) is a
/// NUL or 0xff byte.
pub open spec fn looks_like_text(bytes: Seq<u8>) -> bool {
    forall|i: int|
        0 <= i < bytes.len() && i < TEXT_PROBE_LIMIT as int ==> (#[trigger] bytes[i]) != 0x00u8
            && bytes[i] != 0xffu8
}

/// The text-or-binary decision over a file's leading bytes (the caller reads
/// them; a file that cannot be read at all never reaches this point).
pub fn file_is_text(bytes: &Vec<u8>) -> (r: bool)
    ensures
        r == looks_like_text(bytes@),
{
    let limit = if bytes.len() < TEXT_PROBE_LIMIT {
        bytes.len()
    } else {
        TEXT_PROBE_LIMIT
    };
    let mut i: usize = 0;
    while i < limit
        invariant
            0 <= i <= limit,
            limit <= bytes@.len(),
            limit == if bytes@.len() < TEXT_PROBE_LIMIT as int {
                bytes@.len() as int
            } else {
                TEXT_PROBE_LIMIT as int
            },
            forall|k: int| 0 <= k < i ==> (#[trigger] bytes@[k]) != 0x00u8 && bytes@[k] != 0xffu8,
        decreases limit - i,
    {
        let b = bytes[i];
        if b == 0x00u8 || b == 0xffu8 {
            assert(!looks_like_text(bytes@));
            return false;
        }
        i += 1;
    }
    true
}

} // verus!
