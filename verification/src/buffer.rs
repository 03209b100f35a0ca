//! The buffer workspace: five independently-indexed growable byte buffers
//! plus one growable pointer array, all resized in lockstep so their
//! capacities stay aligned. Growth never shrinks and preserves content;
//! new bytes are zero-filled.

use crate::decimal::{dec_bytes_u64, int_repr, lemma_int_repr_i32_len};
use vstd::pervasive::VecAdditionalExecFns;
use vstd::prelude::*;

verus! {

/// The fixed increment every growth step adds to each buffer's capacity.
pub const BUF_SIZE: usize = 20000;

/// Which of the five byte buffers of the workspace an operation addresses.
#[derive(Copy, Clone, Debug, PartialEq, Eq, Structural)]
pub enum BufTy {
    /// The primary scratch buffer; it has two offset slots.
    Base,
    /// The "saved" secondary buffer; no offset slots.
    Sv,
    /// The expression buffer; one offset slot.
    Ex,
    /// The output buffer; no offset slots.
    Out,
    /// The name-separator buffer; no offset slots.
    NameSep,
}

/// How many bookmark offset slots a buffer kind defines.
pub open spec fn n_offsets(ty: BufTy) -> nat {
    match ty {
        BufTy::Base => 2,
        BufTy::Ex => 1,
        _ => 0,
    }
}

/// A sequence of `n` zero bytes: what growth appends to a byte buffer.
pub open spec fn zero_bytes(n: nat) -> Seq<u8> {
    Seq::new(n, |i: int| 0u8)
}

/// A sequence of `n` zero pointers: what growth appends to the pointer array.
pub open spec fn zero_ptrs(n: nat) -> Seq<usize> {
    Seq::new(n, |i: int| 0usize)
}

/// A vector of `n` zero bytes.
pub(crate) fn zeros_u8(n: usize) -> (r: Vec<u8>)
    ensures
        r@ == zero_bytes(n as nat),
{
    let mut r: Vec<u8> = Vec::new();
    let mut i: usize = 0;
    while i < n
        invariant
            i <= n,
            r@ == zero_bytes(i as nat),
        decreases n - i,
    {
        r.push(0);
        i = i + 1;
        assert(r@ =~= zero_bytes(i as nat));
    }
    r
}

/// A vector of `n` zero pointers.
pub(crate) fn zeros_usize(n: usize) -> (r: Vec<usize>)
    ensures
        r@ == zero_ptrs(n as nat),
{
    let mut r: Vec<usize> = Vec::new();
    let mut i: usize = 0;
    while i < n
        invariant
            i <= n,
            r@ == zero_ptrs(i as nat),
        decreases n - i,
    {
        r.push(0);
        i = i + 1;
        assert(r@ =~= zero_ptrs(i as nat));
    }
    r
}

/// Appends `n` zero bytes to `v`.
pub(crate) fn extend_zeros_u8(v: &mut Vec<u8>, n: usize)
    ensures
        final(v)@ == old(v)@ + zero_bytes(n as nat),
{
    let mut z = zeros_u8(n);
    v.append(&mut z);
}

/// Appends `n` zero pointers to `v`.
pub(crate) fn extend_zeros_usize(v: &mut Vec<usize>, n: usize)
    ensures
        final(v)@ == old(v)@ + zero_ptrs(n as nat),
{
    let mut z = zeros_usize(n);
    v.append(&mut z);
}

/// The shared buffer workspace. All five byte buffers, and the name-token
/// pointer array, always have exactly `buf_len` elements.
pub struct GlobalBuffer {
    /// The allocated length of every buffer.
    pub buf_len: usize,
    /// The primary scratch buffer.
    pub buffer: Vec<u8>,
    /// The secondary "saved" buffer.
    pub sv_buffer: Vec<u8>,
    /// The expression buffer.
    pub ex_buf: Vec<u8>,
    /// The output buffer.
    pub out_buf: Vec<u8>,
    /// The name-separator buffer.
    pub name_sep_char: Vec<u8>,
    /// The positions of name tokens, resized in lockstep with the buffers.
    pub name_tok: Vec<usize>,
    /// The two bookmark offsets of the primary buffer.
    pub buffer_offset: Vec<usize>,
    /// The single bookmark offset of the expression buffer.
    pub ex_buf_offset: Vec<usize>,
    /// The initialized (logical) length of the primary buffer.
    pub buffer_init: usize,
    /// The initialized length of the secondary buffer.
    pub sv_init: usize,
    /// The initialized length of the expression buffer.
    pub ex_init: usize,
    /// The initialized length of the output buffer.
    pub out_init: usize,
    /// The initialized length of the name-separator buffer.
    pub name_sep_init: usize,
}

impl GlobalBuffer {
    /// The content of the byte buffer of kind `ty`.
    pub open spec fn buf(&self, ty: BufTy) -> Seq<u8> {
        match ty {
            BufTy::Base => self.buffer@,
            BufTy::Sv => self.sv_buffer@,
            BufTy::Ex => self.ex_buf@,
            BufTy::Out => self.out_buf@,
            BufTy::NameSep => self.name_sep_char@,
        }
    }

    /// The bookmark offsets of the buffer of kind `ty`.
    pub open spec fn offs(&self, ty: BufTy) -> Seq<usize> {
        match ty {
            BufTy::Base => self.buffer_offset@,
            BufTy::Ex => self.ex_buf_offset@,
            _ => Seq::empty(),
        }
    }

    /// The initialized length of the buffer of kind `ty`.
    pub open spec fn spec_init(&self, ty: BufTy) -> usize {
        match ty {
            BufTy::Base => self.buffer_init,
            BufTy::Sv => self.sv_init,
            BufTy::Ex => self.ex_init,
            BufTy::Out => self.out_init,
            BufTy::NameSep => self.name_sep_init,
        }
    }

    /// Every buffer has exactly `buf_len` elements, and each buffer kind has
    /// exactly the offset slots it defines.
    pub open spec fn wf(&self) -> bool {
        &&& self.buffer@.len() == self.buf_len
        &&& self.sv_buffer@.len() == self.buf_len
        &&& self.ex_buf@.len() == self.buf_len
        &&& self.out_buf@.len() == self.buf_len
        &&& self.name_sep_char@.len() == self.buf_len
        &&& self.name_tok@.len() == self.buf_len
        &&& self.buffer_offset@.len() == 2
        &&& self.ex_buf_offset@.len() == 1
    }

    /// Everything but the byte buffers is the same in `self` and `other`:
    /// offsets, initialized lengths, the name-token array, and the capacity.
    pub open spec fn same_bookkeeping(&self, other: &GlobalBuffer) -> bool {
        &&& self.buf_len == other.buf_len
        &&& self.name_tok@ == other.name_tok@
        &&& self.buffer_offset@ == other.buffer_offset@
        &&& self.ex_buf_offset@ == other.ex_buf_offset@
        &&& self.buffer_init == other.buffer_init
        &&& self.sv_init == other.sv_init
        &&& self.ex_init == other.ex_init
        &&& self.out_init == other.out_init
        &&& self.name_sep_init == other.name_sep_init
    }

    /// A fresh workspace: capacity one more than the growth increment, all
    /// bytes and pointers zero, all offsets and initialized lengths zero.
    pub fn new() -> (r: GlobalBuffer)
        ensures
            r.wf(),
            r.buf_len == BUF_SIZE + 1,
            forall|ty: BufTy| r.buf(ty) == zero_bytes((BUF_SIZE + 1) as nat),
            r.name_tok@ == zero_ptrs((BUF_SIZE + 1) as nat),
            forall|ty: BufTy| r.offs(ty) == zero_ptrs(n_offsets(ty)),
            forall|ty: BufTy| r.spec_init(ty) == 0,
    {
        let buf_len: usize = BUF_SIZE + 1;
        let r = GlobalBuffer {
            buf_len,
            buffer: zeros_u8(buf_len),
            sv_buffer: zeros_u8(buf_len),
            ex_buf: zeros_u8(buf_len),
            out_buf: zeros_u8(buf_len),
            name_sep_char: zeros_u8(buf_len),
            name_tok: zeros_usize(buf_len),
            buffer_offset: zeros_usize(2),
            ex_buf_offset: zeros_usize(1),
            buffer_init: 0,
            sv_init: 0,
            ex_init: 0,
            out_init: 0,
            name_sep_init: 0,
        };
        proof {
            assert(forall|ty: BufTy| r.offs(ty) =~= zero_ptrs(n_offsets(ty)));
        }
        r
    }

    /// Discards all content and returns the workspace to its initial state.
    pub fn reset(&mut self)
        ensures
            final(self).wf(),
            final(self).buf_len == BUF_SIZE + 1,
            forall|ty: BufTy| final(self).buf(ty) == zero_bytes((BUF_SIZE + 1) as nat),
            final(self).name_tok@ == zero_ptrs((BUF_SIZE + 1) as nat),
            forall|ty: BufTy| final(self).offs(ty) == zero_ptrs(n_offsets(ty)),
            forall|ty: BufTy| final(self).spec_init(ty) == 0,
    {
        *self = GlobalBuffer::new();
    }

    /// The allocated length of every buffer.
    pub fn len(&self) -> (r: usize)
        ensures
            r == self.buf_len,
    {
        self.buf_len
    }

    /// Whether the buffers hold no storage at all.
    pub fn is_empty(&self) -> (r: bool)
        ensures
            r == (self.buf_len == 0),
    {
        self.buf_len == 0
    }

    /// The whole byte buffer of kind `ty`.
    pub fn buffer(&self, ty: BufTy) -> (r: &[u8])
        ensures
            r@ == self.buf(ty),
    {
        match ty {
            BufTy::Base => self.buffer.as_slice(),
            BufTy::Sv => self.sv_buffer.as_slice(),
            BufTy::Ex => self.ex_buf.as_slice(),
            BufTy::Out => self.out_buf.as_slice(),
            BufTy::NameSep => self.name_sep_char.as_slice(),
        }
    }

    /// The byte at `offset` of the buffer of kind `ty`.
    pub fn at(&self, ty: BufTy, offset: usize) -> (r: u8)
        requires
            self.wf(),
            offset < self.buf_len,
        ensures
            r == self.buf(ty)[offset as int],
    {
        match ty {
            BufTy::Base => self.buffer[offset],
            BufTy::Sv => self.sv_buffer[offset],
            BufTy::Ex => self.ex_buf[offset],
            BufTy::Out => self.out_buf[offset],
            BufTy::NameSep => self.name_sep_char[offset],
        }
    }

    /// Writes `val` at `offset` of the buffer of kind `ty`.
    pub fn set_at(&mut self, ty: BufTy, offset: usize, val: u8)
        requires
            old(self).wf(),
            offset < old(self).buf_len,
        ensures
            final(self).wf(),
            final(self).buf(ty) == old(self).buf(ty).update(offset as int, val),
            forall|t: BufTy| t != ty ==> final(self).buf(t) == old(self).buf(t),
            final(self).same_bookkeeping(old(self)),
    {
        match ty {
            BufTy::Base => self.buffer.set(offset, val),
            BufTy::Sv => self.sv_buffer.set(offset, val),
            BufTy::Ex => self.ex_buf.set(offset, val),
            BufTy::Out => self.out_buf.set(offset, val),
            BufTy::NameSep => self.name_sep_char.set(offset, val),
        }
    }

    /// The bookmark offset in slot `slot` (numbered from 1) of kind `ty`;
    /// only kinds that define offsets may be asked.
    pub fn offset(&self, ty: BufTy, slot: usize) -> (r: usize)
        requires
            self.wf(),
            1 <= slot <= n_offsets(ty),
        ensures
            r == self.offs(ty)[slot - 1],
    {
        match ty {
            BufTy::Base => self.buffer_offset[slot - 1],
            BufTy::Ex => self.ex_buf_offset[slot - 1],
            BufTy::Sv | BufTy::Out | BufTy::NameSep => unreached(),
        }
    }

    /// Sets the bookmark offset in slot `slot` (numbered from 1) of kind
    /// `ty`; only kinds that define offsets may be asked.
    pub fn set_offset(&mut self, ty: BufTy, slot: usize, val: usize)
        requires
            old(self).wf(),
            1 <= slot <= n_offsets(ty),
        ensures
            final(self).wf(),
            final(self).offs(ty) == old(self).offs(ty).update(slot - 1, val),
            forall|t: BufTy| t != ty ==> final(self).offs(t) == old(self).offs(t),
            forall|t: BufTy| final(self).buf(t) == old(self).buf(t),
            forall|t: BufTy| final(self).spec_init(t) == old(self).spec_init(t),
            final(self).buf_len == old(self).buf_len,
            final(self).name_tok@ == old(self).name_tok@,
    {
        match ty {
            BufTy::Base => self.buffer_offset.set(slot - 1, val),
            BufTy::Ex => self.ex_buf_offset.set(slot - 1, val),
            BufTy::Sv | BufTy::Out | BufTy::NameSep => unreached(),
        }
    }

    /// The byte the bookmark offset in `slot` of kind `ty` points at.
    pub fn at_offset(&self, ty: BufTy, slot: usize) -> (r: u8)
        requires
            self.wf(),
            1 <= slot <= n_offsets(ty),
            self.offs(ty)[slot - 1] < self.buf_len,
        ensures
            r == self.buf(ty)[self.offs(ty)[slot - 1] as int],
    {
        let pos: usize = self.offset(ty, slot);
        self.at(ty, pos)
    }

    /// The initialized length of the buffer of kind `ty`.
    pub fn init(&self, ty: BufTy) -> (r: usize)
        ensures
            r == self.spec_init(ty),
    {
        match ty {
            BufTy::Base => self.buffer_init,
            BufTy::Sv => self.sv_init,
            BufTy::Ex => self.ex_init,
            BufTy::Out => self.out_init,
            BufTy::NameSep => self.name_sep_init,
        }
    }

    /// Sets the initialized length of the buffer of kind `ty`.
    pub fn set_init(&mut self, ty: BufTy, val: usize)
        ensures
            final(self).spec_init(ty) == val,
            forall|t: BufTy| t != ty ==> final(self).spec_init(t) == old(self).spec_init(t),
            forall|t: BufTy| final(self).buf(t) == old(self).buf(t),
            forall|t: BufTy| final(self).offs(t) == old(self).offs(t),
            final(self).buf_len == old(self).buf_len,
            final(self).name_tok@ == old(self).name_tok@,
            old(self).wf() ==> final(self).wf(),
    {
        match ty {
            BufTy::Base => self.buffer_init = val,
            BufTy::Sv => self.sv_init = val,
            BufTy::Ex => self.ex_init = val,
            BufTy::Out => self.out_init = val,
            BufTy::NameSep => self.name_sep_init = val,
        }
    }

    /// The name-token position stored at `pos`.
    pub fn name_tok(&self, pos: usize) -> (r: usize)
        requires
            self.wf(),
            pos < self.buf_len,
        ensures
            r == self.name_tok@[pos as int],
    {
        self.name_tok[pos]
    }

    /// Stores a name-token position at `pos`.
    pub fn set_name_tok(&mut self, pos: usize, val: usize)
        requires
            old(self).wf(),
            pos < old(self).buf_len,
        ensures
            final(self).wf(),
            final(self).name_tok@ == old(self).name_tok@.update(pos as int, val),
            forall|t: BufTy| final(self).buf(t) == old(self).buf(t),
            forall|t: BufTy| final(self).offs(t) == old(self).offs(t),
            forall|t: BufTy| final(self).spec_init(t) == old(self).spec_init(t),
            final(self).buf_len == old(self).buf_len,
    {
        self.name_tok.set(pos, val);
    }

    /// Grows every buffer, and the name-token array, by the fixed increment.
    /// Existing content is preserved; the new tail is zero-filled. Offsets
    /// and initialized lengths are untouched.
    pub fn grow_all(&mut self)
        requires
            old(self).wf(),
            old(self).buf_len <= usize::MAX - BUF_SIZE,
        ensures
            final(self).wf(),
            final(self).buf_len == old(self).buf_len + BUF_SIZE,
            forall|t: BufTy| final(self).buf(t) == old(self).buf(t) + zero_bytes(BUF_SIZE as nat),
            final(self).name_tok@ == old(self).name_tok@ + zero_ptrs(BUF_SIZE as nat),
            forall|t: BufTy| final(self).offs(t) == old(self).offs(t),
            forall|t: BufTy| final(self).spec_init(t) == old(self).spec_init(t),
    {
        let new_len = self.buf_len + BUF_SIZE;
        extend_zeros_u8(&mut self.buffer, BUF_SIZE);
        extend_zeros_u8(&mut self.sv_buffer, BUF_SIZE);
        extend_zeros_u8(&mut self.ex_buf, BUF_SIZE);
        extend_zeros_u8(&mut self.out_buf, BUF_SIZE);
        extend_zeros_u8(&mut self.name_sep_char, BUF_SIZE);
        extend_zeros_usize(&mut self.name_tok, BUF_SIZE);
        self.buf_len = new_len;
    }

    /// In-place ASCII lower-casing of `[ptr, ptr + len)` of kind `ty`;
    /// non-ASCII and non-letter bytes pass through unchanged.
    pub fn lower_case(&mut self, ty: BufTy, ptr: usize, len: usize)
        requires
            old(self).wf(),
            ptr + len <= old(self).buf_len,
        ensures
            final(self).wf(),
            final(self).buf(ty) == Seq::new(
                old(self).buf(ty).len(),
                |i: int|
                    if ptr <= i < ptr + len {
                        ascii_lower(old(self).buf(ty)[i])
                    } else {
                        old(self).buf(ty)[i]
                    },
            ),
            forall|t: BufTy| t != ty ==> final(self).buf(t) == old(self).buf(t),
            final(self).same_bookkeeping(old(self)),
    {
        let end: usize = ptr + len;
        let mut i: usize = ptr;
        while i < end
            invariant
                ptr <= i <= end,
                end <= self.buf_len,
                self.wf(),
                self.buf_len == old(self).buf_len,
                forall|k: int|
                    0 <= k < self.buf_len ==> self.buf(ty)[k] == (if ptr <= k < i {
                        ascii_lower(old(self).buf(ty)[k])
                    } else {
                        old(self).buf(ty)[k]
                    }),
                forall|t: BufTy| t != ty ==> self.buf(t) == old(self).buf(t),
                self.same_bookkeeping(old(self)),
            decreases end - i,
        {
            let c: u8 = self.at(ty, i);
            if 65 <= c && c <= 90 {
                self.set_at(ty, i, c + 32);
            }
            i = i + 1;
        }
        proof {
            assert(self.buf(ty) =~= Seq::new(
                old(self).buf(ty).len(),
                |i: int|
                    if ptr <= i < ptr + len {
                        ascii_lower(old(self).buf(ty)[i])
                    } else {
                        old(self).buf(ty)[i]
                    },
            ));
        }
    }

    /// In-place ASCII upper-casing of `[ptr, ptr + len)` of kind `ty`;
    /// non-ASCII and non-letter bytes pass through unchanged.
    pub fn upper_case(&mut self, ty: BufTy, ptr: usize, len: usize)
        requires
            old(self).wf(),
            ptr + len <= old(self).buf_len,
        ensures
            final(self).wf(),
            final(self).buf(ty) == Seq::new(
                old(self).buf(ty).len(),
                |i: int|
                    if ptr <= i < ptr + len {
                        ascii_upper(old(self).buf(ty)[i])
                    } else {
                        old(self).buf(ty)[i]
                    },
            ),
            forall|t: BufTy| t != ty ==> final(self).buf(t) == old(self).buf(t),
            final(self).same_bookkeeping(old(self)),
    {
        let end: usize = ptr + len;
        let mut i: usize = ptr;
        while i < end
            invariant
                ptr <= i <= end,
                end <= self.buf_len,
                self.wf(),
                self.buf_len == old(self).buf_len,
                forall|k: int|
                    0 <= k < self.buf_len ==> self.buf(ty)[k] == (if ptr <= k < i {
                        ascii_upper(old(self).buf(ty)[k])
                    } else {
                        old(self).buf(ty)[k]
                    }),
                forall|t: BufTy| t != ty ==> self.buf(t) == old(self).buf(t),
                self.same_bookkeeping(old(self)),
            decreases end - i,
        {
            let c: u8 = self.at(ty, i);
            if 97 <= c && c <= 122 {
                self.set_at(ty, i, c - 32);
            }
            i = i + 1;
        }
        proof {
            assert(self.buf(ty) =~= Seq::new(
                old(self).buf(ty).len(),
                |i: int|
                    if ptr <= i < ptr + len {
                        ascii_upper(old(self).buf(ty)[i])
                    } else {
                        old(self).buf(ty)[i]
                    },
            ));
        }
    }

    /// Writes the decimal text of `the_int` into the buffer of kind
    /// `int_buf` starting at `int_begin`, growing every buffer once if the
    /// text would not fit, and returns the index one past the last byte
    /// written. A leading `-` precedes the digits of a negative value.
    pub fn int_to_ascii(&mut self, the_int: i32, int_buf: BufTy, int_begin: usize) -> (r: usize)
        requires
            old(self).wf(),
            the_int > i32::MIN,
            int_begin <= old(self).buf_len,
            old(self).buf_len <= usize::MAX - BUF_SIZE,
        ensures
            final(self).wf(),
            r == int_begin + int_repr(the_int as int).len(),
            r <= final(self).buf_len,
            final(self).buf(int_buf).subrange(int_begin as int, r as int) == int_repr(
                the_int as int,
            ),
            final(self).buf(int_buf).subrange(0, int_begin as int) == old(self).buf(
                int_buf,
            ).subrange(0, int_begin as int),
            forall|i: int|
                r <= i < final(self).buf_len ==> final(self).buf(int_buf)[i] == (if i < old(
                    self,
                ).buf_len {
                    old(self).buf(int_buf)[i]
                } else {
                    0
                }),
            final(self).buf_len == (if int_begin + int_repr(the_int as int).len() > old(
                self,
            ).buf_len {
                old(self).buf_len + BUF_SIZE
            } else {
                old(self).buf_len as int
            }),
            forall|t: BufTy|
                t != int_buf ==> final(self).buf(t) == old(self).buf(t) + zero_bytes(
                    (final(self).buf_len - old(self).buf_len) as nat,
                ),
            final(self).name_tok@ == old(self).name_tok@ + zero_ptrs(
                (final(self).buf_len - old(self).buf_len) as nat,
            ),
            forall|t: BufTy| final(self).offs(t) == old(self).offs(t),
            forall|t: BufTy| final(self).spec_init(t) == old(self).spec_init(t),
    {
        let mut rep: Vec<u8> = Vec::new();
        if the_int < 0 {
            rep.push(45);
        }
        let n: u64 = if the_int < 0 {
            (-(the_int as i64)) as u64
        } else {
            the_int as u64
        };
        let mut d = dec_bytes_u64(n);
        rep.append(&mut d);
        proof {
            assert(rep@ =~= int_repr(the_int as int));
            lemma_int_repr_i32_len(the_int as int);
        }
        let rl: usize = rep.len();
        let end: usize = int_begin + rl;
        if end > self.buf_len {
            self.grow_all();
        }
        let ghost mid = *self;
        let mut i: usize = 0;
        while i < rl
            invariant
                i <= rl,
                rl == rep@.len(),
                int_begin + rl <= self.buf_len,
                self.wf(),
                self.buf_len == mid.buf_len,
                forall|k: int|
                    0 <= k < self.buf_len ==> self.buf(int_buf)[k] == (if int_begin <= k
                        < int_begin + i {
                        rep@[k - int_begin]
                    } else {
                        mid.buf(int_buf)[k]
                    }),
                forall|t: BufTy| t != int_buf ==> self.buf(t) == mid.buf(t),
                self.same_bookkeeping(&mid),
            decreases rl - i,
        {
            self.set_at(int_buf, int_begin + i, rep[i]);
            i = i + 1;
        }
        proof {
            assert(self.buf(int_buf).subrange(int_begin as int, end as int) =~= rep@);
            assert(self.buf(int_buf).subrange(0, int_begin as int) =~= old(self).buf(
                int_buf,
            ).subrange(0, int_begin as int));
            assert forall|t: BufTy| t != int_buf implies self.buf(t) == old(self).buf(t)
                + zero_bytes((self.buf_len - old(self).buf_len) as nat) by {
                assert(self.buf(t) == mid.buf(t));
                assert(mid.buf(t) == old(self).buf(t) + zero_bytes(
                    (mid.buf_len - old(self).buf_len) as nat,
                ));
                assert(self.buf(t) =~= old(self).buf(t) + zero_bytes(
                    (self.buf_len - old(self).buf_len) as nat,
                ));
            }
            assert(self.name_tok@ =~= old(self).name_tok@ + zero_ptrs(
                (self.buf_len - old(self).buf_len) as nat,
            ));
        }
        end
    }
}

/// ASCII lower-casing of one byte: `A`..`Z` map to `a`..`z`.
pub open spec fn ascii_lower(b: u8) -> u8 {
    if 65 <= b <= 90 {
        (b + 32) as u8
    } else {
        b
    }
}

/// ASCII upper-casing of one byte: `a`..`z` map to `A`..`Z`.
pub open spec fn ascii_upper(b: u8) -> u8 {
    if 97 <= b <= 122 {
        (b - 32) as u8
    } else {
        b
    }
}

} // verus!
