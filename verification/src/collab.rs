//! Models of the collaborators the interpreter core consumes: the
//! externally-owned interned string pool, the hash table that resolves
//! function identifiers to string numbers, the cite list, and the global
//! engine context. The core reads and retracts these through plain values;
//! it never allocates their identifiers.

use crate::diag::{confusion_text, log_after, Diagnostics};
use vstd::prelude::*;
use vstd::string::StringSliceAdditionalSpecFns;

verus! {

/// The interned string pool: an arena of bytes, the start offset of each
/// interned string, and the write cursors. String number `s` occupies
/// `pool[str_start[s] .. str_start[s + 1])`; `str_ptr` is the number of
/// interned strings and `str_start[str_ptr]` the start of the string being
/// built, whose bytes end at `pool_ptr`.
pub struct StringPool {
    /// The arena holding the text of every interned string.
    pub pool: Vec<u8>,
    /// Start offsets; entry `str_ptr` marks the start of the in-progress text.
    pub str_start: Vec<usize>,
    /// The pool's write cursor: how many strings have been interned.
    pub str_ptr: usize,
    /// The arena's write position.
    pub pool_ptr: usize,
}

impl StringPool {
    /// The offsets that the core relies on are present and consistent.
    pub open spec fn wf(&self) -> bool {
        &&& self.str_ptr < self.str_start@.len()
        &&& forall|i: int, j: int|
            0 <= i <= j < self.str_start@.len() ==> #[trigger] self.str_start@[i]
                <= #[trigger] self.str_start@[j]
        &&& self.str_start@[self.str_start@.len() - 1] <= self.pool@.len()
    }

    /// A copy of the text of interned string `s`.
    pub fn text(&self, s: usize) -> (r: Vec<u8>)
        requires
            self.wf(),
            s < self.str_ptr,
        ensures
            r@ == spec_str_text(*self, s as int),
    {
        let mut r: Vec<u8> = Vec::new();
        let lo: usize = self.str_start[s];
        let hi: usize = self.str_start[s + 1];
        let mut i: usize = lo;
        while i < hi
            invariant
                lo <= i <= hi,
                hi <= self.pool@.len(),
                r@ == self.pool@.subrange(lo as int, i as int),
            decreases hi - i,
        {
            r.push(self.pool[i]);
            i = i + 1;
            assert(self.pool@.subrange(lo as int, i - 1 as int) + seq![self.pool@[i - 1]]
                =~= self.pool@.subrange(lo as int, i as int));
        }
        r
    }
}

/// String number `s` names an interned string of `p`.
pub open spec fn spec_valid_str(p: StringPool, s: int) -> bool {
    0 <= s < p.str_ptr
}

/// The text of interned string `s` of `p`.
pub open spec fn spec_str_text(p: StringPool, s: int) -> Seq<u8> {
    p.pool@.subrange(p.str_start@[s] as int, p.str_start@[s + 1] as int)
}

/// What printing string number `s` appends to the log: the string's text
/// when `s` is a valid string number, the illegal-string report otherwise.
pub open spec fn pool_str_out(p: StringPool, s: int) -> Seq<u8> {
    if spec_valid_str(p, s) {
        spec_str_text(p, s)
    } else {
        illegal_str_text()
    }
}

/// The report appended for a string number the pool does not hold.
pub open spec fn illegal_str_text() -> Seq<u8> {
    ("Illegal string number").spec_bytes() + confusion_text()
}

/// The hash table that the enclosing interpreter resolves identifiers in;
/// the core only reads the string number stored at a hash location.
pub struct HashTable {
    /// For each hash location, the string number of its text.
    pub text: Vec<usize>,
}

/// The cite list: the citation keys (as string numbers) and the cursor of
/// the entry currently being processed.
pub struct CiteList {
    /// The citation keys, as string numbers of the pool.
    pub cites: Vec<usize>,
    /// Which entry is currently being processed.
    pub ptr: usize,
}

/// The global engine context: where in the BST source the interpreter is.
pub struct Bibtex {
    /// The current line of the BST source file.
    pub bst_line_num: usize,
    /// The BST source file's name, as a string number of the pool.
    pub bst_str: usize,
}

/// Reports a string number that the pool does not hold: a confusion.
pub(crate) fn illegal_string_number(diag: &mut Diagnostics) -> (ok: bool)
    ensures
        final(diag).log@ == log_after(*old(diag), illegal_str_text()),
        final(diag).failed == old(diag).failed,
        final(diag).num_errors == old(diag).num_errors,
        final(diag).fatal == (old(diag).fatal || !old(diag).failed),
        !ok,
{
    if !diag.write_str("Illegal string number") {
        return false;
    }
    diag.print_confusion();
    false
}

/// Prints the text of interned string `s` to the diagnostic sink. Relied on
/// for every piece of pool-held text a diagnostic renders. Reports false
/// when the sink has failed or `s` is not a valid string number; the latter
/// is a confusion and is reported as one.
pub fn print_a_pool_str(pool: &StringPool, diag: &mut Diagnostics, s: usize) -> (ok: bool)
    requires
        pool.wf(),
    ensures
        final(diag).log@ == log_after(*old(diag), pool_str_out(*pool, s as int)),
        final(diag).failed == old(diag).failed,
        final(diag).num_errors == old(diag).num_errors,
        final(diag).fatal == (old(diag).fatal || (!old(diag).failed && !spec_valid_str(
            *pool,
            s as int,
        ))),
        ok == (!old(diag).failed && spec_valid_str(*pool, s as int)),
{
    if s < pool.str_ptr {
        let t = pool.text(s);
        diag.write_bytes(t.as_slice())
    } else {
        illegal_string_number(diag)
    }
}

} // verus!
