//! The execution context: the tagged literal type, the growable evaluation
//! stack, and the diagnostic-producing operations that read it, including
//! the coupling discipline between popped string literals and the
//! externally-owned string pool.

use crate::collab::{
    illegal_string_number, pool_str_out, print_a_pool_str, spec_valid_str, Bibtex, CiteList,
    HashTable, StringPool,
};
use crate::decimal::{dec_digits, int_repr};
use crate::diag::{confusion_text, log_after, Diagnostics};
use vstd::prelude::*;
use vstd::string::StringSliceAdditionalSpecFns;

verus! {

/// The increment by which the literal stack's capacity grows.
pub const LIT_STK_SIZE: usize = 100;

/// The tag of a literal value on the evaluation stack.
#[derive(Copy, Clone, Debug, PartialEq, Eq, Structural)]
pub enum StkType {
    /// The payload is the integer value itself.
    Integer,
    /// The payload is a string number of the interned pool.
    String,
    /// The payload is a hash location resolving to a function's name.
    Function,
    /// The payload is the string number of a missing field's sentinel.
    Missing,
    /// No meaningful payload: produced on error, never to be read further.
    Illegal,
}

/// A literal: a tag and a 32-bit payload whose meaning the tag gives.
#[derive(Copy, Clone, Debug, PartialEq, Eq, Structural)]
pub struct ExecVal {
    /// The tag; every read of the payload pattern-matches it first.
    pub typ: StkType,
    /// The payload.
    pub lit: i32,
}

impl ExecVal {
    /// The poisoned value produced on error: tagged illegal, payload zero.
    pub fn illegal() -> (r: ExecVal)
        ensures
            r.typ == StkType::Illegal,
            r.lit == 0,
    {
        ExecVal { typ: StkType::Illegal, lit: 0 }
    }
}

/// One interpreter frame: the scratch pop registers, the growable literal
/// stack, the pool cursor captured at construction time (to tell temporary
/// strings from older interned ones), and the flag that says whether
/// diagnostics should name the current citation entry.
pub struct ExecCtx {
    /// The hash location of the default entry-type function, held for the
    /// enclosing interpreter; the core itself never reads it.
    pub _default: usize,
    /// First scratch register for built-ins that pop several operands.
    pub pop1: ExecVal,
    /// Second scratch register.
    pub pop2: ExecVal,
    /// Third scratch register.
    pub pop3: ExecVal,
    /// The stack's storage; always one more slot than `lit_stk_size`, so
    /// the write-then-grow push discipline always has its slot.
    pub lit_stack: Vec<ExecVal>,
    /// The stack's capacity.
    pub lit_stk_size: usize,
    /// The logical top of the stack: how many values are on it.
    pub lit_stk_ptr: usize,
    /// Whether diagnostics should reference the current citation entry.
    pub mess_with_entries: bool,
    /// The pool's write cursor captured when this frame was constructed:
    /// string numbers at or above it were interned during this frame.
    pub bib_str_ptr: usize,
}

impl ExecCtx {
    /// The storage always has one slot past the capacity, and the logical
    /// top never passes the capacity.
    pub open spec fn wf(&self) -> bool {
        &&& self.lit_stack@.len() == self.lit_stk_size + 1
        &&& self.lit_stk_ptr <= self.lit_stk_size
    }

    /// The logical content of the stack, bottom first.
    pub open spec fn stack(&self) -> Seq<ExecVal> {
        self.lit_stack@.subrange(0, self.lit_stk_ptr as int)
    }

    /// A fresh frame over `pool`: an empty stack of the initial capacity,
    /// scratch registers poisoned, and the pool cursor captured.
    pub fn new(pool: &StringPool) -> (r: ExecCtx)
        ensures
            r.wf(),
            r.stack() == Seq::<ExecVal>::empty(),
            r.lit_stk_ptr == 0,
            r.lit_stk_size == LIT_STK_SIZE,
            !r.mess_with_entries,
            r.bib_str_ptr == pool.str_ptr,
            r.pop1 == (ExecVal { typ: StkType::Illegal, lit: 0 }),
            r.pop2 == (ExecVal { typ: StkType::Illegal, lit: 0 }),
            r.pop3 == (ExecVal { typ: StkType::Illegal, lit: 0 }),
            r._default == 0,
    {
        let r = ExecCtx {
            _default: 0,
            pop1: ExecVal::illegal(),
            pop2: ExecVal::illegal(),
            pop3: ExecVal::illegal(),
            lit_stack: filled_stack(LIT_STK_SIZE + 1),
            lit_stk_size: LIT_STK_SIZE,
            lit_stk_ptr: 0,
            mess_with_entries: false,
            bib_str_ptr: pool.str_ptr,
        };
        proof {
            assert(r.stack() =~= Seq::<ExecVal>::empty());
        }
        r
    }

    /// Discards the frame's state and reinitializes it over `pool`, as a
    /// freshly constructed frame.
    pub fn reset(&mut self, pool: &StringPool)
        ensures
            final(self).wf(),
            final(self).stack() == Seq::<ExecVal>::empty(),
            final(self).lit_stk_ptr == 0,
            final(self).lit_stk_size == LIT_STK_SIZE,
            !final(self).mess_with_entries,
            final(self).bib_str_ptr == pool.str_ptr,
            final(self).pop1 == (ExecVal { typ: StkType::Illegal, lit: 0 }),
            final(self).pop2 == (ExecVal { typ: StkType::Illegal, lit: 0 }),
            final(self).pop3 == (ExecVal { typ: StkType::Illegal, lit: 0 }),
            final(self)._default == 0,
    {
        *self = ExecCtx::new(pool);
    }

    /// Extends the stack's storage by one capacity increment.
    fn grow_stack(&mut self)
        requires
            old(self).wf(),
            old(self).lit_stk_size <= usize::MAX - LIT_STK_SIZE,
        ensures
            final(self).wf(),
            final(self).lit_stk_size == old(self).lit_stk_size + LIT_STK_SIZE,
            final(self).lit_stack@.subrange(0, old(self).lit_stack@.len() as int) == old(
                self,
            ).lit_stack@,
            final(self).lit_stk_ptr == old(self).lit_stk_ptr,
            final(self).pop1 == old(self).pop1,
            final(self).pop2 == old(self).pop2,
            final(self).pop3 == old(self).pop3,
            final(self).mess_with_entries == old(self).mess_with_entries,
            final(self).bib_str_ptr == old(self).bib_str_ptr,
            final(self)._default == old(self)._default,
    {
        let mut extra = filled_stack(LIT_STK_SIZE);
        self.lit_stack.append(&mut extra);
        self.lit_stk_size = self.lit_stk_size + LIT_STK_SIZE;
        proof {
            assert(self.lit_stack@.subrange(0, old(self).lit_stack@.len() as int) =~= old(
                self,
            ).lit_stack@);
        }
    }

    /// Pushes `val` on the logical top of the stack. The slot is written
    /// first; then, if the top has reached the capacity, every buffer of the
    /// stack grows by one increment before the pointer advances, so the next
    /// push finds its slot available.
    pub fn push_lit_stk(&mut self, val: ExecVal)
        requires
            old(self).wf(),
            old(self).lit_stk_size <= usize::MAX - LIT_STK_SIZE,
        ensures
            final(self).wf(),
            final(self).stack() == old(self).stack().push(val),
            final(self).lit_stk_ptr == old(self).lit_stk_ptr + 1,
            final(self).lit_stk_size == old(self).lit_stk_size + (if old(self).lit_stk_ptr >= old(
                self,
            ).lit_stk_size {
                LIT_STK_SIZE as int
            } else {
                0
            }),
            final(self).pop1 == old(self).pop1,
            final(self).pop2 == old(self).pop2,
            final(self).pop3 == old(self).pop3,
            final(self).mess_with_entries == old(self).mess_with_entries,
            final(self).bib_str_ptr == old(self).bib_str_ptr,
            final(self)._default == old(self)._default,
    {
        self.lit_stack.set(self.lit_stk_ptr, val);
        if self.lit_stk_ptr >= self.lit_stk_size {
            self.grow_stack();
        }
        self.lit_stk_ptr = self.lit_stk_ptr + 1;
        proof {
            assert(self.stack() =~= old(self).stack().push(val));
        }
    }

    /// Pops the logical top of the stack.
    ///
    /// On an empty stack this is a recoverable diagnostic: the underflow
    /// message and the entry/line trailer are printed, the error flag is
    /// raised, and a poisoned (Illegal) value is handed back with `true`
    /// unless the sink failed mid-diagnostic.
    ///
    /// A popped string literal interned during this frame (its number at or
    /// above the captured cursor, or negative) must be exactly the pool's
    /// newest string; then the pool's cursors are retracted by one string,
    /// releasing its storage. Anything else is a confusion: it is reported,
    /// a poisoned value is handed back, and `false` tells the caller to
    /// abort. Older string literals leave the pool untouched.
    pub fn pop_lit_stk(
        &mut self,
        glbl: &Bibtex,
        pool: &mut StringPool,
        cites: &CiteList,
        diag: &mut Diagnostics,
    ) -> (r: (ExecVal, bool))
        requires
            old(self).wf(),
            old(pool).wf(),
            old(self).lit_stk_ptr == 0 ==> old(diag).num_errors < u64::MAX,
            old(self).lit_stk_ptr == 0 && old(self).mess_with_entries ==> cites.ptr
                < cites.cites@.len(),
        ensures
            final(self).wf(),
            final(self).lit_stack@ == old(self).lit_stack@,
            final(self).lit_stk_size == old(self).lit_stk_size,
            final(self).lit_stk_ptr == (if old(self).lit_stk_ptr == 0 {
                0
            } else {
                old(self).lit_stk_ptr - 1
            }),
            final(self).stack() == (if old(self).lit_stk_ptr == 0 {
                old(self).stack()
            } else {
                old(self).stack().drop_last()
            }),
            final(self).pop1 == old(self).pop1,
            final(self).pop2 == old(self).pop2,
            final(self).pop3 == old(self).pop3,
            final(self).mess_with_entries == old(self).mess_with_entries,
            final(self).bib_str_ptr == old(self).bib_str_ptr,
            final(self)._default == old(self)._default,
            final(pool).wf(),
            final(pool).pool@ == old(pool).pool@,
            final(pool).str_start@ == old(pool).str_start@,
            final(diag).failed == old(diag).failed,
            ({
                let popped = old(self).stack().last();
                if old(self).lit_stk_ptr == 0 {
                    // Underflow: a recoverable diagnostic, the pool untouched.
                    &&& *final(pool) == *old(pool)
                    &&& r.0 == (ExecVal { typ: StkType::Illegal, lit: 0 })
                    &&& r.1 == (!old(diag).failed && bst_ex_warn_ok(*old(self), *old(pool), *cites))
                    &&& final(diag).log@ == log_after(
                        *old(diag),
                        ("You can't pop an empty literal stack").spec_bytes() + bst_ex_warn_out(
                            *old(self),
                            *glbl,
                            *old(pool),
                            *cites,
                        ),
                    )
                    &&& final(diag).num_errors == old(diag).num_errors + (if !old(diag).failed
                        && bst_ex_warn_ok(*old(self), *old(pool), *cites) {
                        1int
                    } else {
                        0int
                    })
                    &&& final(diag).fatal == (old(diag).fatal || (!old(diag).failed
                        && bst_ex_warn_fatal(*old(self), *glbl, *old(pool), *cites)))
                } else if !(popped.typ == StkType::String && (popped.lit < 0 || popped.lit as int
                    >= old(self).bib_str_ptr)) {
                    // Not a string of this frame: handed back, nothing else moves.
                    &&& *final(pool) == *old(pool)
                    &&& r.0 == popped
                    &&& r.1
                    &&& *final(diag) == *old(diag)
                } else if popped.lit >= 0 && old(pool).str_ptr >= 1 && popped.lit as int == old(
                    pool,
                ).str_ptr - 1 {
                    // The frame's newest temporary string: the pool is retracted.
                    &&& final(pool).str_ptr == old(pool).str_ptr - 1
                    &&& final(pool).pool_ptr == old(pool).str_start@[old(pool).str_ptr - 1]
                    &&& r.0 == popped
                    &&& r.1
                    &&& *final(diag) == *old(diag)
                } else {
                    // Stack and pool drifted out of lockstep: a confusion.
                    &&& *final(pool) == *old(pool)
                    &&& r.0 == (ExecVal { typ: StkType::Illegal, lit: 0 })
                    &&& !r.1
                    &&& final(diag).log@ == log_after(
                        *old(diag),
                        ("Nontop top of string stack").spec_bytes() + confusion_text(),
                    )
                    &&& final(diag).num_errors == old(diag).num_errors
                    &&& final(diag).fatal == (old(diag).fatal || !old(diag).failed)
                }
            }),
    {
        if self.lit_stk_ptr == 0 {
            if !diag.write_str("You can't pop an empty literal stack") {
                return (ExecVal::illegal(), false);
            }
            if !bst_ex_warn_print(self, glbl, pool, cites, diag) {
                return (ExecVal::illegal(), false);
            }
            (ExecVal::illegal(), true)
        } else {
            self.lit_stk_ptr = self.lit_stk_ptr - 1;
            let pop = self.lit_stack[self.lit_stk_ptr];
            proof {
                assert(pop == old(self).stack().last());
                assert(self.stack() =~= old(self).stack().drop_last());
            }
            if pop.typ == StkType::String && (pop.lit < 0 || pop.lit as usize >= self.bib_str_ptr)
            {
                let newest_matches: bool = pop.lit >= 0 && pool.str_ptr >= 1 && (pop.lit as usize)
                    == pool.str_ptr - 1;
                if !newest_matches {
                    if !diag.write_str("Nontop top of string stack") {
                        return (ExecVal::illegal(), false);
                    }
                    diag.print_confusion();
                    return (ExecVal::illegal(), false);
                }
                pool.str_ptr = pool.str_ptr - 1;
                pool.pool_ptr = pool.str_start[pool.str_ptr];
            }
            (pop, true)
        }
    }
}

/// A stack storage vector of `n` zeroed (poisoned-free, integer-zero) slots.
fn filled_stack(n: usize) -> (r: Vec<ExecVal>)
    ensures
        r@.len() == n,
{
    let mut r: Vec<ExecVal> = Vec::new();
    let mut i: usize = 0;
    while i < n
        invariant
            i <= n,
            r@.len() == i,
        decreases n - i,
    {
        r.push(ExecVal { typ: StkType::Integer, lit: 0 });
        i = i + 1;
    }
    r
}

/// The newline appended after a literal's own text.
pub open spec fn nl() -> Seq<u8> {
    ("\n").spec_bytes()
}

/// The report appended when a formatting operation meets an Illegal value.
pub open spec fn illegal_lit_text() -> Seq<u8> {
    ("Illegal literal type").spec_bytes() + confusion_text()
}

/// The string number a literal's text lives at: the payload itself for
/// string and missing-field literals, the hash table's entry for functions.
pub open spec fn lit_str_num(hash: HashTable, val: ExecVal) -> int {
    if val.typ == StkType::Function {
        hash.text@[val.lit as int] as int
    } else {
        val.lit as int
    }
}

/// Whether printing literal `val` succeeds, on a working sink: integers
/// always format; the others need their string number to be interned.
pub open spec fn lit_print_ok(pool: StringPool, hash: HashTable, val: ExecVal) -> bool {
    match val.typ {
        StkType::Integer => true,
        StkType::Illegal => false,
        _ => spec_valid_str(pool, lit_str_num(hash, val)),
    }
}

/// What printing literal `val` on its own line appends to the log.
pub open spec fn print_lit_out(pool: StringPool, hash: HashTable, val: ExecVal) -> Seq<u8> {
    match val.typ {
        StkType::Integer => int_repr(val.lit as int) + nl(),
        StkType::Illegal => illegal_lit_text(),
        _ => pool_str_out(pool, lit_str_num(hash, val)) + (if spec_valid_str(
            pool,
            lit_str_num(hash, val),
        ) {
            nl()
        } else {
            Seq::<u8>::empty()
        }),
    }
}

/// What printing the BST file's name appends to the log.
pub open spec fn print_bst_name_out(glbl: Bibtex, pool: StringPool) -> Seq<u8> {
    pool_str_out(pool, glbl.bst_str as int) + (if spec_valid_str(pool, glbl.bst_str as int) {
        (".bst\n").spec_bytes()
    } else {
        Seq::<u8>::empty()
    })
}

/// What printing the current BST line and file appends to the log.
pub open spec fn bst_ln_num_out(glbl: Bibtex, pool: StringPool) -> Seq<u8> {
    ("--line ").spec_bytes() + dec_digits(glbl.bst_line_num as nat) + (" of file ").spec_bytes()
        + print_bst_name_out(glbl, pool)
}

/// The string number of the citation key currently being processed.
pub open spec fn cur_cite(cites: CiteList) -> int {
    cites.cites@[cites.ptr as int] as int
}

/// Whether the entry/line trailer of a diagnostic runs to completion, on a
/// working sink: only an entry whose citation key is not interned stops it.
pub open spec fn bst_ex_warn_ok(ctx: ExecCtx, pool: StringPool, cites: CiteList) -> bool {
    !ctx.mess_with_entries || spec_valid_str(pool, cur_cite(cites))
}

/// What the entry/line trailer of a diagnostic appends to the log.
pub open spec fn bst_ex_warn_out(
    ctx: ExecCtx,
    glbl: Bibtex,
    pool: StringPool,
    cites: CiteList,
) -> Seq<u8> {
    let rest = ("\nwhile executing-").spec_bytes() + bst_ln_num_out(glbl, pool);
    if ctx.mess_with_entries {
        (" for entry ").spec_bytes() + pool_str_out(pool, cur_cite(cites)) + (if spec_valid_str(
            pool,
            cur_cite(cites),
        ) {
            rest
        } else {
            Seq::<u8>::empty()
        })
    } else {
        rest
    }
}

/// Whether the entry/line trailer reports a confusion: an uninterned
/// citation key, or an uninterned BST file name.
pub open spec fn bst_ex_warn_fatal(
    ctx: ExecCtx,
    glbl: Bibtex,
    pool: StringPool,
    cites: CiteList,
) -> bool {
    (ctx.mess_with_entries && !spec_valid_str(pool, cur_cite(cites))) || (bst_ex_warn_ok(
        ctx,
        pool,
        cites,
    ) && !spec_valid_str(pool, glbl.bst_str as int))
}

/// Prints the BST file's name and the `.bst` suffix.
pub fn print_bst_name(glbl: &Bibtex, pool: &StringPool, diag: &mut Diagnostics) -> (ok: bool)
    requires
        pool.wf(),
    ensures
        final(diag).log@ == log_after(*old(diag), print_bst_name_out(*glbl, *pool)),
        final(diag).failed == old(diag).failed,
        final(diag).num_errors == old(diag).num_errors,
        final(diag).fatal == (old(diag).fatal || (!old(diag).failed && !spec_valid_str(
            *pool,
            glbl.bst_str as int,
        ))),
        ok == (!old(diag).failed && spec_valid_str(*pool, glbl.bst_str as int)),
{
    if !print_a_pool_str(pool, diag, glbl.bst_str) {
        return false;
    }
    let r = diag.write_str(".bst\n");
    proof {
        assert(diag.log@ =~= log_after(*old(diag), print_bst_name_out(*glbl, *pool)));
    }
    r
}

/// Prints `--line N of file ` and then the BST file's name.
pub fn bst_ln_num_print(glbl: &Bibtex, pool: &StringPool, diag: &mut Diagnostics) -> (ok: bool)
    requires
        pool.wf(),
    ensures
        final(diag).log@ == log_after(*old(diag), bst_ln_num_out(*glbl, *pool)),
        final(diag).failed == old(diag).failed,
        final(diag).num_errors == old(diag).num_errors,
        final(diag).fatal == (old(diag).fatal || (!old(diag).failed && !spec_valid_str(
            *pool,
            glbl.bst_str as int,
        ))),
        ok == (!old(diag).failed && spec_valid_str(*pool, glbl.bst_str as int)),
{
    if !diag.write_str("--line ") {
        return false;
    }
    if !diag.write_usize(glbl.bst_line_num) {
        return false;
    }
    if !diag.write_str(" of file ") {
        return false;
    }
    let r = print_bst_name(glbl, pool, diag);
    proof {
        assert(diag.log@ =~= log_after(*old(diag), bst_ln_num_out(*glbl, *pool)));
    }
    r
}

/// Appends the entry/line trailer that closes a recoverable diagnostic:
/// ` for entry <key>` while entries are being processed, then the line and
/// file of the failing BST rule, and raises the error flag. Reports false
/// when the sink failed or the citation key was not interned.
pub fn bst_ex_warn_print(
    ctx: &ExecCtx,
    glbl: &Bibtex,
    pool: &StringPool,
    cites: &CiteList,
    diag: &mut Diagnostics,
) -> (ok: bool)
    requires
        pool.wf(),
        ctx.mess_with_entries ==> cites.ptr < cites.cites@.len(),
        old(diag).num_errors < u64::MAX,
    ensures
        final(diag).log@ == log_after(*old(diag), bst_ex_warn_out(*ctx, *glbl, *pool, *cites)),
        final(diag).failed == old(diag).failed,
        final(diag).num_errors == old(diag).num_errors + (if !old(diag).failed && bst_ex_warn_ok(
            *ctx,
            *pool,
            *cites,
        ) {
            1int
        } else {
            0int
        }),
        final(diag).fatal == (old(diag).fatal || (!old(diag).failed && bst_ex_warn_fatal(
            *ctx,
            *glbl,
            *pool,
            *cites,
        ))),
        ok == (!old(diag).failed && bst_ex_warn_ok(*ctx, *pool, *cites)),
{
    if ctx.mess_with_entries {
        if !diag.write_str(" for entry ") {
            return false;
        }
        if !print_a_pool_str(pool, diag, cites.cites[cites.ptr]) {
            proof {
                assert(diag.log@ =~= log_after(
                    *old(diag),
                    bst_ex_warn_out(*ctx, *glbl, *pool, *cites),
                ));
            }
            return false;
        }
    }
    if !diag.write_str("\nwhile executing-") {
        return false;
    }
    bst_ln_num_print(glbl, pool, diag);
    diag.mark_error();
    proof {
        assert(diag.log@ =~= log_after(
            *old(diag),
            bst_ex_warn_out(*ctx, *glbl, *pool, *cites),
        ));
    }
    true
}

/// Reports a formatting operation that met an Illegal value: a confusion.
pub fn illegl_literal_confusion(diag: &mut Diagnostics)
    ensures
        final(diag).log@ == log_after(*old(diag), illegal_lit_text()),
        final(diag).failed == old(diag).failed,
        final(diag).num_errors == old(diag).num_errors,
        final(diag).fatal == (old(diag).fatal || !old(diag).failed),
{
    if !diag.write_str("Illegal literal type") {
        return ;
    }
    diag.print_confusion();
}

/// Prints the value of literal `val` followed by a newline: an integer as
/// decimal text, the others as their interned text. An Illegal value is a
/// confusion: it is reported and never dereferenced. Reports false when the
/// sink failed, the string number was not interned, or the value was Illegal.
pub fn print_lit(
    pool: &StringPool,
    hash: &HashTable,
    diag: &mut Diagnostics,
    val: ExecVal,
) -> (ok: bool)
    requires
        pool.wf(),
        val.typ == StkType::Function ==> 0 <= val.lit && (val.lit as int) < hash.text@.len(),
    ensures
        final(diag).log@ == log_after(*old(diag), print_lit_out(*pool, *hash, val)),
        final(diag).failed == old(diag).failed,
        final(diag).num_errors == old(diag).num_errors,
        final(diag).fatal == (old(diag).fatal || (!old(diag).failed && !lit_print_ok(
            *pool,
            *hash,
            val,
        ))),
        ok == (!old(diag).failed && lit_print_ok(*pool, *hash, val)),
{
    match val.typ {
        StkType::Integer => {
            if !diag.write_i32(val.lit) {
                return false;
            }
            diag.write_str("\n")
        },
        StkType::String | StkType::Missing => {
            if val.lit < 0 {
                return illegal_string_number(diag);
            }
            if !print_a_pool_str(pool, diag, val.lit as usize) {
                return false;
            }
            diag.write_str("\n")
        },
        StkType::Function => {
            let s: usize = hash.text[val.lit as usize];
            if !print_a_pool_str(pool, diag, s) {
                return false;
            }
            diag.write_str("\n")
        },
        StkType::Illegal => {
            illegl_literal_confusion(diag);
            false
        },
    }
}

/// What printing literal `val` with its role description appends to the
/// log: the value's text wrapped as `N is an integer literal`,
/// `"…" is a string literal`, `` `…` is a function literal `` or
/// `` `…` is a missing field ``.
pub open spec fn print_stk_lit_out(pool: StringPool, hash: HashTable, val: ExecVal) -> Seq<u8> {
    match val.typ {
        StkType::Integer => int_repr(val.lit as int) + (" is an integer literal").spec_bytes(),
        StkType::String => ("\"").spec_bytes() + pool_str_out(pool, lit_str_num(hash, val)) + (
        if spec_valid_str(pool, lit_str_num(hash, val)) {
            ("\" is a string literal").spec_bytes()
        } else {
            Seq::<u8>::empty()
        }),
        StkType::Function => ("`").spec_bytes() + pool_str_out(pool, lit_str_num(hash, val)) + (
        if spec_valid_str(pool, lit_str_num(hash, val)) {
            ("` is a function literal").spec_bytes()
        } else {
            Seq::<u8>::empty()
        }),
        StkType::Missing => ("`").spec_bytes() + pool_str_out(pool, lit_str_num(hash, val)) + (
        if spec_valid_str(pool, lit_str_num(hash, val)) {
            ("` is a missing field").spec_bytes()
        } else {
            Seq::<u8>::empty()
        }),
        StkType::Illegal => illegal_lit_text(),
    }
}

/// Prints literal `val` with its role description. An Illegal value is a
/// confusion: it is reported and never dereferenced. Reports false when the
/// sink failed, the string number was not interned, or the value was Illegal.
pub fn print_stk_lit(
    pool: &StringPool,
    hash: &HashTable,
    diag: &mut Diagnostics,
    val: ExecVal,
) -> (ok: bool)
    requires
        pool.wf(),
        val.typ == StkType::Function ==> 0 <= val.lit && (val.lit as int) < hash.text@.len(),
    ensures
        final(diag).log@ == log_after(*old(diag), print_stk_lit_out(*pool, *hash, val)),
        final(diag).failed == old(diag).failed,
        final(diag).num_errors == old(diag).num_errors,
        final(diag).fatal == (old(diag).fatal || (!old(diag).failed && !lit_print_ok(
            *pool,
            *hash,
            val,
        ))),
        ok == (!old(diag).failed && lit_print_ok(*pool, *hash, val)),
{
    match val.typ {
        StkType::Integer => {
            if !diag.write_i32(val.lit) {
                return false;
            }
            let r = diag.write_str(" is an integer literal");
            proof {
                assert(diag.log@ =~= log_after(
                    *old(diag),
                    print_stk_lit_out(*pool, *hash, val),
                ));
            }
            r
        },
        StkType::String => {
            if !diag.write_str("\"") {
                return false;
            }
            let pr: bool = if val.lit < 0 {
                illegal_string_number(diag)
            } else {
                print_a_pool_str(pool, diag, val.lit as usize)
            };
            if !pr {
                proof {
                    assert(diag.log@ =~= log_after(
                        *old(diag),
                        print_stk_lit_out(*pool, *hash, val),
                    ));
                }
                return false;
            }
            let r = diag.write_str("\" is a string literal");
            proof {
                assert(diag.log@ =~= log_after(
                    *old(diag),
                    print_stk_lit_out(*pool, *hash, val),
                ));
            }
            r
        },
        StkType::Function => {
            if !diag.write_str("`") {
                return false;
            }
            let s: usize = hash.text[val.lit as usize];
            if !print_a_pool_str(pool, diag, s) {
                proof {
                    assert(diag.log@ =~= log_after(
                        *old(diag),
                        print_stk_lit_out(*pool, *hash, val),
                    ));
                }
                return false;
            }
            let r = diag.write_str("` is a function literal");
            proof {
                assert(diag.log@ =~= log_after(
                    *old(diag),
                    print_stk_lit_out(*pool, *hash, val),
                ));
            }
            r
        },
        StkType::Missing => {
            if !diag.write_str("`") {
                return false;
            }
            let pr: bool = if val.lit < 0 {
                illegal_string_number(diag)
            } else {
                print_a_pool_str(pool, diag, val.lit as usize)
            };
            if !pr {
                proof {
                    assert(diag.log@ =~= log_after(
                        *old(diag),
                        print_stk_lit_out(*pool, *hash, val),
                    ));
                }
                return false;
            }
            let r = diag.write_str("` is a missing field");
            proof {
                assert(diag.log@ =~= log_after(
                    *old(diag),
                    print_stk_lit_out(*pool, *hash, val),
                ));
            }
            r
        },
        StkType::Illegal => {
            illegl_literal_confusion(diag);
            false
        },
    }
}

/// Whether the expected-kind tag of a type-mismatch report can itself be
/// described: a literal can only be expected to be an integer, a string or
/// a function; expecting anything else is a confusion.
pub open spec fn mismatch_tag_ok(typ2: StkType) -> bool {
    typ2 == StkType::Integer || typ2 == StkType::String || typ2 == StkType::Function
}

/// The `, not an …,` piece of a type-mismatch report, or the confusion
/// report for an expected kind that cannot be described.
pub open spec fn mismatch_tag_out(typ2: StkType) -> Seq<u8> {
    match typ2 {
        StkType::Integer => (", not an integer,").spec_bytes(),
        StkType::String => (", not a string,").spec_bytes(),
        StkType::Function => (", not a function,").spec_bytes(),
        StkType::Missing | StkType::Illegal => illegal_lit_text(),
    }
}

/// What a whole type-mismatch report appends to the log: nothing for an
/// Illegal value (it was diagnosed at its origin), else the value's
/// description, the expected kind, and the entry/line trailer.
pub open spec fn wrong_stk_lit_out(
    ctx: ExecCtx,
    glbl: Bibtex,
    pool: StringPool,
    hash: HashTable,
    cites: CiteList,
    val: ExecVal,
    typ2: StkType,
) -> Seq<u8> {
    if val.typ == StkType::Illegal {
        Seq::<u8>::empty()
    } else {
        print_stk_lit_out(pool, hash, val) + (if !lit_print_ok(pool, hash, val) {
            Seq::<u8>::empty()
        } else {
            mismatch_tag_out(typ2) + (if mismatch_tag_ok(typ2) {
                bst_ex_warn_out(ctx, glbl, pool, cites)
            } else {
                Seq::<u8>::empty()
            })
        })
    }
}

/// Whether a whole type-mismatch report runs to completion, on a working
/// sink. An Illegal value succeeds silently.
pub open spec fn wrong_stk_lit_ok(
    ctx: ExecCtx,
    pool: StringPool,
    hash: HashTable,
    cites: CiteList,
    val: ExecVal,
    typ2: StkType,
) -> bool {
    val.typ == StkType::Illegal || (lit_print_ok(pool, hash, val) && mismatch_tag_ok(typ2)
        && bst_ex_warn_ok(ctx, pool, cites))
}

/// Whether a whole type-mismatch report raises a confusion.
pub open spec fn wrong_stk_lit_fatal(
    ctx: ExecCtx,
    glbl: Bibtex,
    pool: StringPool,
    hash: HashTable,
    cites: CiteList,
    val: ExecVal,
    typ2: StkType,
) -> bool {
    val.typ != StkType::Illegal && (!lit_print_ok(pool, hash, val) || !mismatch_tag_ok(typ2) || (
    lit_print_ok(pool, hash, val) && bst_ex_warn_fatal(ctx, glbl, pool, cites)))
}

/// Reports that literal `val` does not have the expected kind `typ2`:
/// prints its description, `, not an …,`, and the entry/line trailer, and
/// raises the error flag. Given an Illegal value this is a silent no-op
/// reporting success: the value was already diagnosed at its origin and
/// must not be reported twice.
pub fn print_wrong_stk_lit(
    ctx: &ExecCtx,
    glbl: &Bibtex,
    pool: &StringPool,
    hash: &HashTable,
    cites: &CiteList,
    diag: &mut Diagnostics,
    val: ExecVal,
    typ2: StkType,
) -> (ok: bool)
    requires
        pool.wf(),
        val.typ == StkType::Function ==> 0 <= val.lit && (val.lit as int) < hash.text@.len(),
        val.typ != StkType::Illegal && ctx.mess_with_entries ==> cites.ptr < cites.cites@.len(),
        val.typ != StkType::Illegal ==> old(diag).num_errors < u64::MAX,
    ensures
        final(diag).log@ == log_after(
            *old(diag),
            wrong_stk_lit_out(*ctx, *glbl, *pool, *hash, *cites, val, typ2),
        ),
        final(diag).failed == old(diag).failed,
        final(diag).num_errors == old(diag).num_errors + (if !old(diag).failed
            && val.typ != StkType::Illegal && lit_print_ok(*pool, *hash, val) && mismatch_tag_ok(
            typ2,
        ) && bst_ex_warn_ok(*ctx, *pool, *cites) {
            1int
        } else {
            0int
        }),
        final(diag).fatal == (old(diag).fatal || (!old(diag).failed && wrong_stk_lit_fatal(
            *ctx,
            *glbl,
            *pool,
            *hash,
            *cites,
            val,
            typ2,
        ))),
        ok == (val.typ == StkType::Illegal || (!old(diag).failed && wrong_stk_lit_ok(
            *ctx,
            *pool,
            *hash,
            *cites,
            val,
            typ2,
        ))),
{
    if val.typ != StkType::Illegal {
        if !print_stk_lit(pool, hash, diag, val) {
            return false;
        }
        let res: bool = match typ2 {
            StkType::Integer => diag.write_str(", not an integer,"),
            StkType::String => diag.write_str(", not a string,"),
            StkType::Function => diag.write_str(", not a function,"),
            StkType::Missing | StkType::Illegal => {
                illegl_literal_confusion(diag);
                false
            },
        };
        if !res {
            proof {
                assert(diag.log@ =~= log_after(
                    *old(diag),
                    wrong_stk_lit_out(*ctx, *glbl, *pool, *hash, *cites, val, typ2),
                ));
            }
            return false;
        }
        let r = bst_ex_warn_print(ctx, glbl, pool, cites, diag);
        proof {
            assert(diag.log@ =~= log_after(
                *old(diag),
                wrong_stk_lit_out(*ctx, *glbl, *pool, *hash, *cites, val, typ2),
            ));
        }
        r
    } else {
        proof {
            assert(diag.log@ =~= log_after(
                *old(diag),
                wrong_stk_lit_out(*ctx, *glbl, *pool, *hash, *cites, val, typ2),
            ));
        }
        true
    }
}

/// The values that `n` successive pops return from a stack whose logical
/// content is `s` (bottom first): the top first, then the rest.
pub open spec fn pops_of(s: Seq<ExecVal>, n: nat) -> Seq<ExecVal>
    recommends
        n <= s.len(),
    decreases n,
{
    if n == 0 {
        Seq::empty()
    } else {
        seq![s.last()] + pops_of(s.drop_last(), (n - 1) as nat)
    }
}

/// Law: pushing the values `vals` (in order) on a stack holding `base` and
/// then popping `vals.len()` times returns exactly `vals` in reverse order,
/// and leaves the stack holding `base` again. This is the shape
/// `push_lit_stk` and `pop_lit_stk` give the stack view: each push appends
/// `val`, and each successful pop returns the view's last value and drops it.
pub proof fn lemma_stack_lifo(base: Seq<ExecVal>, vals: Seq<ExecVal>)
    ensures
        pops_of(base + vals, vals.len()) == vals.reverse(),
        (base + vals).subrange(0, base.len() as int) == base,
    decreases vals.len(),
{
    assert((base + vals).subrange(0, base.len() as int) =~= base);
    if vals.len() == 0 {
        assert(pops_of(base + vals, 0) =~= vals.reverse());
    } else {
        let shorter = vals.drop_last();
        assert((base + vals).drop_last() =~= base + shorter);
        assert((base + vals).last() == vals.last());
        lemma_stack_lifo(base, shorter);
        assert(pops_of(base + vals, vals.len()) =~= seq![vals.last()] + shorter.reverse());
        assert(vals.reverse() =~= seq![vals.last()] + shorter.reverse());
    }
}

} // verus!
