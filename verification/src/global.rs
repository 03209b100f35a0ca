//! The global string pool: a bounded set of named slots that persist
//! string-valued BST variables across rule evaluations. Each slot records
//! an offset into the externally-numbered string pool, a pool-local arena
//! byte range, and an end marker; the slot-count bound grows by a fixed
//! step when full.

use crate::buffer::{extend_zeros_u8, extend_zeros_usize, zero_bytes, zero_ptrs, zeros_u8,
    zeros_usize};
use vstd::pervasive::VecAdditionalExecFns;
use vstd::prelude::*;

verus! {

/// The step by which the slot-count bound grows when it is full.
pub const MAX_GLOB_STRS: usize = 10;

/// The arena bytes held per slot (one more byte is allocated per slot).
pub const GLOB_STR_SIZE: usize = 20000;

/// A sequence of `n` zero end markers.
pub open spec fn zero_ends(n: nat) -> Seq<i32> {
    Seq::new(n, |i: int| 0i32)
}

/// A vector of `n` zero end markers.
fn zeros_i32(n: usize) -> (r: Vec<i32>)
    ensures
        r@ == zero_ends(n as nat),
{
    let mut r: Vec<i32> = Vec::new();
    let mut i: usize = 0;
    while i < n
        invariant
            i <= n,
            r@ == zero_ends(i as nat),
        decreases n - i,
    {
        r.push(0);
        i = i + 1;
        assert(r@ =~= zero_ends(i as nat));
    }
    r
}

/// The global string variables: per-slot pool offsets, the shared byte
/// arena, per-slot end markers, and the count of slots in use.
pub struct GlobalData {
    /// For each slot, an offset into the externally-owned string pool.
    pub glb_bib_str_ptr: Vec<usize>,
    /// The byte arena holding every slot's text.
    pub global_strs: Vec<u8>,
    /// For each slot, the current length of its content.
    pub glb_str_end: Vec<i32>,
    /// How many slots are in use.
    pub num_glb_strs: i32,
}

impl GlobalData {
    /// The number of allocated slots: the current slot-count bound.
    pub open spec fn slots(&self) -> nat {
        self.glb_bib_str_ptr@.len()
    }

    /// The three slot arrays stay aligned: as many end markers as pool
    /// offsets, and arena bytes for exactly the allocated slots.
    pub open spec fn wf(&self) -> bool {
        &&& self.glb_str_end@.len() == self.slots()
        &&& self.global_strs@.len() == (GLOB_STR_SIZE + 1) * self.slots()
    }

    /// A fresh pool: the initial slot-count bound, everything zeroed.
    pub fn new() -> (r: GlobalData)
        ensures
            r.wf(),
            r.slots() == MAX_GLOB_STRS,
            r.glb_bib_str_ptr@ == zero_ptrs(MAX_GLOB_STRS as nat),
            r.global_strs@ == zero_bytes(((GLOB_STR_SIZE + 1) * MAX_GLOB_STRS) as nat),
            r.glb_str_end@ == zero_ends(MAX_GLOB_STRS as nat),
            r.num_glb_strs == 0,
    {
        GlobalData {
            glb_bib_str_ptr: zeros_usize(MAX_GLOB_STRS),
            global_strs: zeros_u8((GLOB_STR_SIZE + 1) * MAX_GLOB_STRS),
            glb_str_end: zeros_i32(MAX_GLOB_STRS),
            num_glb_strs: 0,
        }
    }

    /// The count of slots in use.
    pub fn num_glb_strs(&self) -> (r: i32)
        ensures
            r == self.num_glb_strs,
    {
        self.num_glb_strs
    }

    /// Sets the count of slots in use; the caller owns the numbering.
    pub fn set_num_glb_strs(&mut self, val: i32)
        ensures
            final(self).num_glb_strs == val,
            final(self).glb_bib_str_ptr@ == old(self).glb_bib_str_ptr@,
            final(self).global_strs@ == old(self).global_strs@,
            final(self).glb_str_end@ == old(self).glb_str_end@,
    {
        self.num_glb_strs = val;
    }

    /// Grows the slot-count bound by one step exactly when the count of
    /// slots in use has reached it; existing content is preserved and the
    /// new tail zero-filled.
    pub fn check_grow_global_strs(&mut self)
        requires
            old(self).wf(),
            (old(self).slots() + MAX_GLOB_STRS) * (GLOB_STR_SIZE + 1) <= usize::MAX,
        ensures
            final(self).wf(),
            final(self).num_glb_strs == old(self).num_glb_strs,
            ({
                let grown = old(self).num_glb_strs >= 0 && old(self).num_glb_strs
                    == old(self).slots();
                if grown {
                    &&& final(self).slots() == old(self).slots() + MAX_GLOB_STRS
                    &&& final(self).glb_bib_str_ptr@ == old(self).glb_bib_str_ptr@ + zero_ptrs(
                        MAX_GLOB_STRS as nat,
                    )
                    &&& final(self).global_strs@ == old(self).global_strs@ + zero_bytes(
                        ((GLOB_STR_SIZE + 1) * MAX_GLOB_STRS) as nat,
                    )
                    &&& final(self).glb_str_end@ == old(self).glb_str_end@ + zero_ends(
                        MAX_GLOB_STRS as nat,
                    )
                } else {
                    &&& final(self).glb_bib_str_ptr@ == old(self).glb_bib_str_ptr@
                    &&& final(self).global_strs@ == old(self).global_strs@
                    &&& final(self).glb_str_end@ == old(self).glb_str_end@
                }
            }),
    {
        if self.num_glb_strs >= 0 && self.num_glb_strs as usize == self.glb_bib_str_ptr.len() {
            extend_zeros_usize(&mut self.glb_bib_str_ptr, MAX_GLOB_STRS);
            extend_zeros_u8(&mut self.global_strs, (GLOB_STR_SIZE + 1) * MAX_GLOB_STRS);
            let mut z = zeros_i32(MAX_GLOB_STRS);
            self.glb_str_end.append(&mut z);
            proof {
                let ghost s = old(self).slots();
                assert((GLOB_STR_SIZE + 1) * (s + MAX_GLOB_STRS) == (GLOB_STR_SIZE + 1) * s + (
                GLOB_STR_SIZE + 1) * MAX_GLOB_STRS) by (nonlinear_arith);
            }
        }
    }

    /// The pool offset stored in slot `pos`.
    pub fn glb_bib_str_ptr(&self, pos: usize) -> (r: usize)
        requires
            pos < self.slots(),
        ensures
            r == self.glb_bib_str_ptr@[pos as int],
    {
        self.glb_bib_str_ptr[pos]
    }

    /// Stores a pool offset in slot `pos`.
    pub fn set_glb_bib_str_ptr(&mut self, pos: usize, val: usize)
        requires
            pos < old(self).slots(),
        ensures
            final(self).glb_bib_str_ptr@ == old(self).glb_bib_str_ptr@.update(pos as int, val),
            final(self).global_strs@ == old(self).global_strs@,
            final(self).glb_str_end@ == old(self).glb_str_end@,
            final(self).num_glb_strs == old(self).num_glb_strs,
            old(self).wf() ==> final(self).wf(),
    {
        self.glb_bib_str_ptr.set(pos, val);
    }

    /// The arena byte at `pos`.
    pub fn global_strs(&self, pos: usize) -> (r: u8)
        requires
            pos < self.global_strs@.len(),
        ensures
            r == self.global_strs@[pos as int],
    {
        self.global_strs[pos]
    }

    /// Writes an arena byte at `pos`.
    pub fn set_global_strs(&mut self, pos: usize, val: u8)
        requires
            pos < old(self).global_strs@.len(),
        ensures
            final(self).global_strs@ == old(self).global_strs@.update(pos as int, val),
            final(self).glb_bib_str_ptr@ == old(self).glb_bib_str_ptr@,
            final(self).glb_str_end@ == old(self).glb_str_end@,
            final(self).num_glb_strs == old(self).num_glb_strs,
            old(self).wf() ==> final(self).wf(),
    {
        self.global_strs.set(pos, val);
    }

    /// The end marker of slot `pos`.
    pub fn glb_str_end(&self, pos: usize) -> (r: i32)
        requires
            pos < self.glb_str_end@.len(),
        ensures
            r == self.glb_str_end@[pos as int],
    {
        self.glb_str_end[pos]
    }

    /// Sets the end marker of slot `pos`.
    pub fn set_glb_str_end(&mut self, pos: usize, val: i32)
        requires
            pos < old(self).glb_str_end@.len(),
        ensures
            final(self).glb_str_end@ == old(self).glb_str_end@.update(pos as int, val),
            final(self).glb_bib_str_ptr@ == old(self).glb_bib_str_ptr@,
            final(self).global_strs@ == old(self).global_strs@,
            final(self).num_glb_strs == old(self).num_glb_strs,
            old(self).wf() ==> final(self).wf(),
    {
        self.glb_str_end.set(pos, val);
    }
}

/// Discards the global string variables and reinitializes them, as a
/// freshly constructed pool.
pub fn reset(g: &mut GlobalData)
    ensures
        final(g).wf(),
        final(g).slots() == MAX_GLOB_STRS,
        final(g).glb_bib_str_ptr@ == zero_ptrs(MAX_GLOB_STRS as nat),
        final(g).global_strs@ == zero_bytes(((GLOB_STR_SIZE + 1) * MAX_GLOB_STRS) as nat),
        final(g).glb_str_end@ == zero_ends(MAX_GLOB_STRS as nat),
        final(g).num_glb_strs == 0,
{
    *g = GlobalData::new();
}

} // verus!
