//! Bottom-up buffer builder.
//!
//! The buffer conceptually grows from high addresses toward low addresses:
//! every write prepends bytes, so children are fully laid out — and their
//! positions fixed — before any parent that references them.  Positions are
//! therefore tracked as *end offsets*: the number of bytes between an
//! item's first byte and the buffer's end, which never changes once the
//! item is written.  An item at end offset `o` sits at location `len - o`
//! of the finished buffer.
//!
//! Finalizing a table serializes its vtable and looks the exact byte
//! sequence up in a cache; a previously written identical vtable is reused
//! rather than written again, and the table's back reference points at the
//! shared copy.

use crate::scalar::{bytes_eq, i32_to_bits, u16_le_bytes, u32_le_bytes, u64_le_bytes};
use crate::vtable::{lemma_slots_bytes_len, lemma_slots_bytes_push, slots_bytes, vtable_bytes};
use vstd::prelude::*;

verus! {

/// Largest buffer the builder will grow: keeps every offset, and every
/// signed back reference, comfortably inside 32 bits.
pub const MAX_BUFFER_BYTES: usize = 0x3fff_ffff;

/// Largest field index a table may push: keeps a vtable's size within its
/// own 16-bit size slot.
pub const MAX_FIELD_ID: u16 = 0x7ff0;

/// Largest inline payload of one table: keeps every field's offset from
/// the table start within a 16-bit slot.
pub const MAX_TABLE_INLINE_BYTES: usize = 0xff00;

/// `n` zero bytes, as written for padding.
pub open spec fn zeros(n: int) -> Seq<u8> {
    Seq::new(n as nat, |i: int| 0u8)
}

/// How many padding bytes bring `n` up to a multiple of `a`.
pub open spec fn pad_to(n: int, a: int) -> int {
    if n % a == 0 {
        0
    } else {
        a - n % a
    }
}

/// The end offset at which the next `end_table` call will place its table:
/// after padding, the table's 4-byte back reference lands 4-aligned.
pub open spec fn spec_table_pos(len: int) -> int {
    len + pad_to(len + 4, 4) + 4
}

/// The slot value for field `id` given the recorded fields of the current
/// table: the field's byte distance from the table position, the latest
/// record winning, or zero when the field was never pushed.
pub open spec fn slot_for(fields: Seq<(u16, int)>, t_off: int, id: int) -> int
    decreases fields.len(),
{
    if fields.len() == 0 {
        0
    } else if fields.last().0 == id {
        t_off - fields.last().1
    } else {
        slot_for(fields.drop_last(), t_off, id)
    }
}

/// One more than the largest field index recorded, so one slot per
/// declared field up to the highest pushed.
pub open spec fn num_slots(fields: Seq<(u16, int)>) -> int
    decreases fields.len(),
{
    if fields.len() == 0 {
        0
    } else if fields.last().0 + 1 > num_slots(fields.drop_last()) {
        fields.last().0 + 1
    } else {
        num_slots(fields.drop_last())
    }
}

/// The slot sequence of the vtable that `end_table` builds.
pub open spec fn table_slots(fields: Seq<(u16, int)>, t_off: int) -> Seq<u16> {
    Seq::new(num_slots(fields) as nat, |i: int| slot_for(fields, t_off, i) as u16)
}

/// The first cached vtable whose bytes equal `cand`, as its end offset.
pub open spec fn find_vtable(cache: Seq<(Seq<u8>, int)>, cand: Seq<u8>) -> Option<int>
    decreases cache.len(),
{
    if cache.len() == 0 {
        None
    } else if cache.first().0 == cand {
        Some(cache.first().1)
    } else {
        find_vtable(cache.drop_first(), cand)
    }
}

/// A cache entry is honest: the buffer really holds the entry's bytes at
/// the entry's end offset.
pub open spec fn cache_entry_ok(entry_bytes: Seq<u8>, buf: Seq<u8>, off: int) -> bool {
    &&& 4 <= entry_bytes.len() <= off <= buf.len()
    &&& buf.subrange(buf.len() - off, buf.len() - off + entry_bytes.len()) == entry_bytes
}

/// A single-writer builder session: the growing buffer, the vtable
/// deduplication cache, and the bracketing state of the table being built.
pub struct Builder {
    buf: Vec<u8>,
    vtables: Vec<(Vec<u8>, usize)>,
    fields: Vec<(u16, usize)>,
    table_start: usize,
    in_table: bool,
}

impl Builder {
    /// The bytes written so far, in the order the finished buffer has them.
    pub closed spec fn bytes(self) -> Seq<u8> {
        self.buf@
    }

    /// The number of bytes written so far.
    pub open spec fn len(self) -> int {
        self.bytes().len() as int
    }

    /// Whether a `start_table` is waiting for its `end_table`.
    pub closed spec fn table_open(self) -> bool {
        self.in_table
    }

    /// The end offset the buffer had when the open table started.
    pub closed spec fn table_start_spec(self) -> int {
        self.table_start as int
    }

    /// The fields recorded for the open table: index and data end offset.
    pub closed spec fn fields_spec(self) -> Seq<(u16, int)> {
        self.fields@.map_values(|e: (u16, usize)| (e.0, e.1 as int))
    }

    /// The deduplication cache: serialized vtable bytes and end offset.
    pub closed spec fn cache_spec(self) -> Seq<(Seq<u8>, int)> {
        self.vtables@.map_values(|e: (Vec<u8>, usize)| (e.0@, e.1 as int))
    }

    /// The builder's invariant: the buffer is within bounds, every cache
    /// entry is honest and no two cache entries hold the same bytes, and
    /// the open table's records lie between the table start and the front.
    pub closed spec fn wf(self) -> bool {
        &&& self.buf@.len() <= MAX_BUFFER_BYTES
        &&& forall|k: int|
            0 <= k < self.vtables@.len() ==> cache_entry_ok(
                (#[trigger] self.vtables@[k]).0@,
                self.buf@,
                self.vtables@[k].1 as int,
            )
        &&& forall|k1: int, k2: int|
            #![trigger self.vtables@[k1], self.vtables@[k2]]
            0 <= k1 < k2 < self.vtables@.len() ==> self.vtables@[k1].0@ != self.vtables@[k2].0@
        &&& self.in_table ==> self.table_start as int <= self.buf@.len()
        &&& self.in_table ==> forall|k: int|
            0 <= k < self.fields@.len() ==> {
                &&& (#[trigger] self.fields@[k]).0 <= MAX_FIELD_ID
                &&& self.table_start as int <= self.fields@[k].1 <= self.buf@.len()
            }
        &&& !self.in_table ==> self.fields@.len() == 0
    }

    /// Opens a fresh builder session with an empty buffer and cache.
    pub fn new() -> (r: Builder)
        ensures
            r.wf(),
            !r.table_open(),
            r.bytes() == Seq::<u8>::empty(),
            r.cache_spec() == Seq::<(Seq<u8>, int)>::empty(),
    {
        let r = Builder {
            buf: Vec::new(),
            vtables: Vec::new(),
            fields: Vec::new(),
            table_start: 0,
            in_table: false,
        };
        proof {
            assert(r.cache_spec() =~= Seq::<(Seq<u8>, int)>::empty());
        }
        r
    }

    /// Prepends one byte; every write funnels through here.
    fn prepend_byte(&mut self, b: u8)
        ensures
            final(self).buf@ == seq![b] + old(self).buf@,
            final(self).vtables == old(self).vtables,
            final(self).fields == old(self).fields,
            final(self).table_start == old(self).table_start,
            final(self).in_table == old(self).in_table,
    {
        self.buf.insert(0, b);
        proof {
            assert(self.buf@ =~= seq![b] + old(self).buf@);
        }
    }

    /// Prepends `s` in order, so the finished buffer reads `s` forward.
    fn prepend_slice(&mut self, s: &[u8])
        ensures
            final(self).buf@ == s@ + old(self).buf@,
            final(self).vtables == old(self).vtables,
            final(self).fields == old(self).fields,
            final(self).table_start == old(self).table_start,
            final(self).in_table == old(self).in_table,
    {
        let n: usize = s.len();
        let mut j: usize = 0;
        while j < n
            invariant
                j <= n,
                n == s@.len(),
                self.buf@ == s@.subrange(n - j, n as int) + old(self).buf@,
                self.vtables == old(self).vtables,
                self.fields == old(self).fields,
                self.table_start == old(self).table_start,
                self.in_table == old(self).in_table,
            decreases n - j,
        {
            self.prepend_byte(s[n - 1 - j]);
            j = j + 1;
            proof {
                assert(self.buf@ =~= s@.subrange(n - j, n as int) + old(self).buf@);
            }
        }
        proof {
            assert(s@.subrange(0, n as int) =~= s@);
        }
    }

    /// Prepends the two little-endian bytes of `v`.
    fn prepend_u16(&mut self, v: u16)
        ensures
            final(self).buf@ == u16_le_bytes(v) + old(self).buf@,
            final(self).vtables == old(self).vtables,
            final(self).fields == old(self).fields,
            final(self).table_start == old(self).table_start,
            final(self).in_table == old(self).in_table,
    {
        self.prepend_byte((v / 0x100) as u8);
        self.prepend_byte((v % 0x100) as u8);
        proof {
            assert(self.buf@ =~= u16_le_bytes(v) + old(self).buf@);
        }
    }

    /// Prepends the four little-endian bytes of `v`.
    fn prepend_u32(&mut self, v: u32)
        ensures
            final(self).buf@ == u32_le_bytes(v) + old(self).buf@,
            final(self).vtables == old(self).vtables,
            final(self).fields == old(self).fields,
            final(self).table_start == old(self).table_start,
            final(self).in_table == old(self).in_table,
    {
        self.prepend_byte((v / 0x1000000) as u8);
        self.prepend_byte(((v / 0x10000) % 0x100) as u8);
        self.prepend_byte(((v / 0x100) % 0x100) as u8);
        self.prepend_byte((v % 0x100) as u8);
        proof {
            assert(self.buf@ =~= u32_le_bytes(v) + old(self).buf@);
        }
    }

    /// Prepends zero bytes until `extra` more bytes would end `a`-aligned
    /// from the buffer's end.
    fn pad_align(&mut self, extra: usize, a: usize)
        requires
            a == 1 || a == 2 || a == 4 || a == 8,
            old(self).buf@.len() + extra + 8 <= MAX_BUFFER_BYTES,
        ensures
            final(self).buf@ == zeros(pad_to(old(self).buf@.len() + extra, a as int)) + old(
                self,
            ).buf@,
            (final(self).buf@.len() + extra) % (a as int) == 0,
            final(self).vtables == old(self).vtables,
            final(self).fields == old(self).fields,
            final(self).table_start == old(self).table_start,
            final(self).in_table == old(self).in_table,
    {
        let rem: usize = (self.buf.len() + extra) % a;
        let p: usize = if rem == 0 {
            0
        } else {
            a - rem
        };
        assert(p == pad_to(old(self).buf@.len() + extra, a as int));
        let mut j: usize = 0;
        while j < p
            invariant
                j <= p,
                p < 8,
                self.buf@ == zeros(j as int) + old(self).buf@,
                self.vtables == old(self).vtables,
                self.fields == old(self).fields,
                self.table_start == old(self).table_start,
                self.in_table == old(self).in_table,
            decreases p - j,
        {
            self.prepend_byte(0);
            j = j + 1;
            proof {
                assert(self.buf@ =~= zeros(j as int) + old(self).buf@);
            }
        }
    }

    /// Pushes a raw little-endian 16-bit scalar, aligned to its width.
    pub fn push_u16(&mut self, v: u16)
        requires
            old(self).wf(),
            old(self).len() + 16 <= MAX_BUFFER_BYTES as int,
        ensures
            final(self).wf(),
            final(self).bytes() == u16_le_bytes(v) + zeros(pad_to(old(self).len() + 2, 2)) + old(
                self,
            ).bytes(),
            final(self).table_open() == old(self).table_open(),
            final(self).table_start_spec() == old(self).table_start_spec(),
            final(self).fields_spec() == old(self).fields_spec(),
            final(self).cache_spec() == old(self).cache_spec(),
    {
        self.pad_align(2, 2);
        self.prepend_u16(v);
        proof {
            assert(self.buf@ =~= (u16_le_bytes(v) + zeros(pad_to(old(self).len() + 2, 2))) + old(
                self,
            ).buf@);
            assert(self.buf@.subrange(
                self.buf@.len() - old(self).buf@.len(),
                self.buf@.len() as int,
            ) =~= old(self).buf@);
            lemma_wf_prepend(*old(self), *self);
        }
    }

    /// Pushes a raw little-endian 32-bit scalar, aligned to its width.
    pub fn push_u32(&mut self, v: u32)
        requires
            old(self).wf(),
            old(self).len() + 16 <= MAX_BUFFER_BYTES as int,
        ensures
            final(self).wf(),
            final(self).bytes() == u32_le_bytes(v) + zeros(pad_to(old(self).len() + 4, 4)) + old(
                self,
            ).bytes(),
            final(self).table_open() == old(self).table_open(),
            final(self).table_start_spec() == old(self).table_start_spec(),
            final(self).fields_spec() == old(self).fields_spec(),
            final(self).cache_spec() == old(self).cache_spec(),
    {
        self.pad_align(4, 4);
        self.prepend_u32(v);
        proof {
            assert(self.buf@ =~= (u32_le_bytes(v) + zeros(pad_to(old(self).len() + 4, 4))) + old(
                self,
            ).buf@);
            assert(self.buf@.subrange(
                self.buf@.len() - old(self).buf@.len(),
                self.buf@.len() as int,
            ) =~= old(self).buf@);
            lemma_wf_prepend(*old(self), *self);
        }
    }

    /// Pushes a raw little-endian 64-bit scalar, aligned to its width.
    pub fn push_u64(&mut self, v: u64)
        requires
            old(self).wf(),
            old(self).len() + 16 <= MAX_BUFFER_BYTES as int,
        ensures
            final(self).wf(),
            final(self).bytes() == u64_le_bytes(v) + zeros(pad_to(old(self).len() + 8, 8)) + old(
                self,
            ).bytes(),
            final(self).table_open() == old(self).table_open(),
            final(self).table_start_spec() == old(self).table_start_spec(),
            final(self).fields_spec() == old(self).fields_spec(),
            final(self).cache_spec() == old(self).cache_spec(),
    {
        self.pad_align(8, 8);
        self.prepend_u32((v / 0x1_0000_0000) as u32);
        self.prepend_u32((v % 0x1_0000_0000) as u32);
        proof {
            assert(self.buf@ =~= (u64_le_bytes(v) + zeros(pad_to(old(self).len() + 8, 8))) + old(
                self,
            ).buf@);
            assert(self.buf@.subrange(
                self.buf@.len() - old(self).buf@.len(),
                self.buf@.len() as int,
            ) =~= old(self).buf@);
            lemma_wf_prepend(*old(self), *self);
        }
    }

    /// Pushes one raw byte.
    pub fn push_u8(&mut self, v: u8)
        requires
            old(self).wf(),
            old(self).len() + 16 <= MAX_BUFFER_BYTES as int,
        ensures
            final(self).wf(),
            final(self).bytes() == seq![v] + old(self).bytes(),
            final(self).table_open() == old(self).table_open(),
            final(self).table_start_spec() == old(self).table_start_spec(),
            final(self).fields_spec() == old(self).fields_spec(),
            final(self).cache_spec() == old(self).cache_spec(),
    {
        self.prepend_byte(v);
        proof {
            assert(self.buf@.subrange(
                self.buf@.len() - old(self).buf@.len(),
                self.buf@.len() as int,
            ) =~= old(self).buf@);
            lemma_wf_prepend(*old(self), *self);
        }
    }

    /// Records that the just-written bytes at the front are field `id`'s
    /// inline data.
    fn note_field(&mut self, id: u16)
        requires
            old(self).wf(),
            old(self).table_open(),
            id <= MAX_FIELD_ID,
        ensures
            final(self).wf(),
            final(self).table_open(),
            final(self).bytes() == old(self).bytes(),
            final(self).cache_spec() == old(self).cache_spec(),
            final(self).table_start_spec() == old(self).table_start_spec(),
            final(self).fields_spec() == old(self).fields_spec().push((id, old(self).len())),
    {
        let here: usize = self.buf.len();
        self.fields.push((id, here));
        proof {
            assert(self.fields_spec() =~= old(self).fields_spec().push((id, old(self).len())));
            assert forall|k: int| 0 <= k < self.fields@.len() implies {
                &&& (#[trigger] self.fields@[k]).0 <= MAX_FIELD_ID
                &&& self.table_start as int <= self.fields@[k].1 <= self.buf@.len()
            } by {
                if k < self.fields@.len() - 1 {
                    assert(self.fields@[k] == old(self).fields@[k]);
                }
            }
        }
    }

    /// Pushes field `id` with inline 16-bit data `v`.  A value equal to
    /// the schema default is not written at all: its slot stays zero, so
    /// on the wire a field written with its default value and a field
    /// never written are one and the same — absent.
    pub fn push_field_u16(&mut self, id: u16, v: u16, default: u16)
        requires
            old(self).wf(),
            old(self).table_open(),
            id <= MAX_FIELD_ID,
            old(self).len() + 16 <= MAX_BUFFER_BYTES as int,
        ensures
            final(self).wf(),
            final(self).table_open(),
            final(self).table_start_spec() == old(self).table_start_spec(),
            final(self).cache_spec() == old(self).cache_spec(),
            v == default ==> *final(self) == *old(self),
            v != default ==> final(self).bytes() == u16_le_bytes(v) + zeros(
                pad_to(old(self).len() + 2, 2),
            ) + old(self).bytes(),
            v != default ==> final(self).fields_spec() == old(self).fields_spec().push(
                (id, final(self).len()),
            ),
    {
        if v == default {
            return ;
        }
        self.push_u16(v);
        self.note_field(id);
    }

    /// Pushes field `id` with inline 32-bit data `v`; skipped when equal
    /// to the schema default, leaving the field absent on the wire.
    pub fn push_field_u32(&mut self, id: u16, v: u32, default: u32)
        requires
            old(self).wf(),
            old(self).table_open(),
            id <= MAX_FIELD_ID,
            old(self).len() + 16 <= MAX_BUFFER_BYTES as int,
        ensures
            final(self).wf(),
            final(self).table_open(),
            final(self).table_start_spec() == old(self).table_start_spec(),
            final(self).cache_spec() == old(self).cache_spec(),
            v == default ==> *final(self) == *old(self),
            v != default ==> final(self).bytes() == u32_le_bytes(v) + zeros(
                pad_to(old(self).len() + 4, 4),
            ) + old(self).bytes(),
            v != default ==> final(self).fields_spec() == old(self).fields_spec().push(
                (id, final(self).len()),
            ),
    {
        if v == default {
            return ;
        }
        self.push_u32(v);
        self.note_field(id);
    }

    /// Pushes field `id` with inline 64-bit data `v`; skipped when equal
    /// to the schema default, leaving the field absent on the wire.
    pub fn push_field_u64(&mut self, id: u16, v: u64, default: u64)
        requires
            old(self).wf(),
            old(self).table_open(),
            id <= MAX_FIELD_ID,
            old(self).len() + 16 <= MAX_BUFFER_BYTES as int,
        ensures
            final(self).wf(),
            final(self).table_open(),
            final(self).table_start_spec() == old(self).table_start_spec(),
            final(self).cache_spec() == old(self).cache_spec(),
            v == default ==> *final(self) == *old(self),
            v != default ==> final(self).bytes() == u64_le_bytes(v) + zeros(
                pad_to(old(self).len() + 8, 8),
            ) + old(self).bytes(),
            v != default ==> final(self).fields_spec() == old(self).fields_spec().push(
                (id, final(self).len()),
            ),
    {
        if v == default {
            return ;
        }
        self.push_u64(v);
        self.note_field(id);
    }

    /// Pushes field `id` with inline signed 32-bit data `v`, stored as its
    /// two's-complement bits; skipped when equal to the schema default.
    pub fn push_field_i32(&mut self, id: u16, v: i32, default: i32)
        requires
            old(self).wf(),
            old(self).table_open(),
            id <= MAX_FIELD_ID,
            old(self).len() + 16 <= MAX_BUFFER_BYTES as int,
        ensures
            final(self).wf(),
            final(self).table_open(),
            final(self).table_start_spec() == old(self).table_start_spec(),
            final(self).cache_spec() == old(self).cache_spec(),
            v == default ==> *final(self) == *old(self),
            v != default ==> final(self).bytes() == u32_le_bytes(i32_to_bits(v)) + zeros(
                pad_to(old(self).len() + 4, 4),
            ) + old(self).bytes(),
            v != default ==> final(self).fields_spec() == old(self).fields_spec().push(
                (id, final(self).len()),
            ),
    {
        if v == default {
            return ;
        }
        let bits: u32 = if v >= 0 {
            v as u32
        } else {
            (v as i64 + 0x1_0000_0000) as u32
        };
        self.push_u32(bits);
        self.note_field(id);
    }

    /// Pushes field `id` with one byte of inline data `v`; skipped when
    /// equal to the schema default.
    pub fn push_field_u8(&mut self, id: u16, v: u8, default: u8)
        requires
            old(self).wf(),
            old(self).table_open(),
            id <= MAX_FIELD_ID,
            old(self).len() + 16 <= MAX_BUFFER_BYTES as int,
        ensures
            final(self).wf(),
            final(self).table_open(),
            final(self).table_start_spec() == old(self).table_start_spec(),
            final(self).cache_spec() == old(self).cache_spec(),
            v == default ==> *final(self) == *old(self),
            v != default ==> final(self).bytes() == seq![v] + old(self).bytes(),
            v != default ==> final(self).fields_spec() == old(self).fields_spec().push(
                (id, final(self).len()),
            ),
    {
        if v == default {
            return ;
        }
        self.push_u8(v);
        self.note_field(id);
    }

    /// Pushes field `id` with a boolean, one byte on the wire; skipped
    /// when equal to the schema default.
    pub fn push_field_bool(&mut self, id: u16, v: bool, default: bool)
        requires
            old(self).wf(),
            old(self).table_open(),
            id <= MAX_FIELD_ID,
            old(self).len() + 16 <= MAX_BUFFER_BYTES as int,
        ensures
            final(self).wf(),
            final(self).table_open(),
            final(self).table_start_spec() == old(self).table_start_spec(),
            final(self).cache_spec() == old(self).cache_spec(),
            v == default ==> *final(self) == *old(self),
            v != default ==> final(self).bytes() == seq![(if v { 1u8 } else { 0u8 })] + old(
                self,
            ).bytes(),
            v != default ==> final(self).fields_spec() == old(self).fields_spec().push(
                (id, final(self).len()),
            ),
    {
        if v == default {
            return ;
        }
        let b: u8 = if v {
            1
        } else {
            0
        };
        self.push_u8(b);
        self.note_field(id);
    }

    /// Pushes field `id` as a forward reference to content already written
    /// at end offset `item_off`.  An end offset only exists once the
    /// content's own write has completed, so a parent can never reference
    /// an unfinished child: children-before-parents is structural.
    pub fn push_field_offset(&mut self, id: u16, item_off: usize)
        requires
            old(self).wf(),
            old(self).table_open(),
            id <= MAX_FIELD_ID,
            0 < item_off <= old(self).len(),
            old(self).len() + 16 <= MAX_BUFFER_BYTES as int,
        ensures
            final(self).wf(),
            final(self).table_open(),
            final(self).table_start_spec() == old(self).table_start_spec(),
            final(self).cache_spec() == old(self).cache_spec(),
            final(self).bytes() == u32_le_bytes(
                (old(self).len() + pad_to(old(self).len() + 4, 4) + 4 - item_off) as u32,
            ) + zeros(pad_to(old(self).len() + 4, 4)) + old(self).bytes(),
            final(self).fields_spec() == old(self).fields_spec().push((id, final(self).len())),
    {
        self.pad_align(4, 4);
        let val: u32 = (self.buf.len() + 4 - item_off) as u32;
        self.prepend_u32(val);
        proof {
            assert(self.buf@ =~= (u32_le_bytes(val) + zeros(pad_to(old(self).len() + 4, 4)))
                + old(self).buf@);
            assert(self.buf@.subrange(
                self.buf@.len() - old(self).buf@.len(),
                self.buf@.len() as int,
            ) =~= old(self).buf@);
            lemma_wf_prepend(*old(self), *self);
        }
        self.note_field(id);
    }

    /// Writes a length-prefixed byte vector — the wire form of strings and
    /// scalar vectors — and returns its end offset for later references.
    pub fn create_byte_vector(&mut self, data: &[u8]) -> (off: usize)
        requires
            old(self).wf(),
            !old(self).table_open(),
            old(self).len() + data@.len() + 16 <= MAX_BUFFER_BYTES as int,
        ensures
            final(self).wf(),
            !final(self).table_open(),
            final(self).cache_spec() == old(self).cache_spec(),
            final(self).table_start_spec() == old(self).table_start_spec(),
            off as int == final(self).len(),
            final(self).bytes() == u32_le_bytes(data@.len() as u32) + data@ + zeros(
                pad_to(old(self).len() + data@.len() + 4, 4),
            ) + old(self).bytes(),
    {
        self.pad_align(data.len() + 4, 4);
        self.prepend_slice(data);
        self.prepend_u32(data.len() as u32);
        proof {
            assert(self.buf@ =~= (u32_le_bytes(data@.len() as u32) + data@ + zeros(
                pad_to(old(self).len() + data@.len() + 4, 4),
            )) + old(self).buf@);
            assert(self.buf@.subrange(
                self.buf@.len() - old(self).buf@.len(),
                self.buf@.len() as int,
            ) =~= old(self).buf@);
            lemma_wf_prepend(*old(self), *self);
        }
        self.buf.len()
    }

    /// Writes a string as a length-prefixed byte vector and returns its
    /// end offset.
    pub fn create_string(&mut self, data: &[u8]) -> (off: usize)
        requires
            old(self).wf(),
            !old(self).table_open(),
            old(self).len() + data@.len() + 16 <= MAX_BUFFER_BYTES as int,
        ensures
            final(self).wf(),
            !final(self).table_open(),
            final(self).cache_spec() == old(self).cache_spec(),
            final(self).table_start_spec() == old(self).table_start_spec(),
            off as int == final(self).len(),
            final(self).bytes() == u32_le_bytes(data@.len() as u32) + data@ + zeros(
                pad_to(old(self).len() + data@.len() + 4, 4),
            ) + old(self).bytes(),
    {
        self.create_byte_vector(data)
    }

    /// Opens a table: every `push_field_*` call until the matching
    /// `end_table` records one of this table's fields.  The table start is
    /// 4-aligned, so a table's slot values depend only on what is pushed
    /// between the brackets — identical field patterns serialize to
    /// identical vtables wherever in the buffer the tables land, which is
    /// what lets deduplication find them.
    pub fn start_table(&mut self)
        requires
            old(self).wf(),
            !old(self).table_open(),
            old(self).len() + 16 <= MAX_BUFFER_BYTES as int,
        ensures
            final(self).wf(),
            final(self).table_open(),
            final(self).bytes() == zeros(pad_to(old(self).len(), 4)) + old(self).bytes(),
            final(self).cache_spec() == old(self).cache_spec(),
            final(self).fields_spec() == Seq::<(u16, int)>::empty(),
            final(self).table_start_spec() == final(self).len(),
            final(self).table_start_spec() % 4 == 0,
    {
        self.pad_align(0, 4);
        proof {
            assert(self.buf@.subrange(
                self.buf@.len() - old(self).buf@.len(),
                self.buf@.len() as int,
            ) =~= old(self).buf@);
            lemma_wf_prepend(*old(self), *self);
        }
        self.fields.clear();
        self.table_start = self.buf.len();
        self.in_table = true;
        proof {
            assert(self.fields_spec() =~= Seq::<(u16, int)>::empty());
        }
    }

    /// Ends the buffer: prepends the forward reference that leads from the
    /// buffer's start to the root table at end offset `root_off`.
    pub fn finish(&mut self, root_off: usize)
        requires
            old(self).wf(),
            !old(self).table_open(),
            0 < root_off <= old(self).len(),
            old(self).len() + 16 <= MAX_BUFFER_BYTES as int,
        ensures
            final(self).wf(),
            !final(self).table_open(),
            final(self).bytes() == u32_le_bytes(
                (old(self).len() + pad_to(old(self).len() + 4, 4) + 4 - root_off) as u32,
            ) + zeros(pad_to(old(self).len() + 4, 4)) + old(self).bytes(),
            final(self).len() % 4 == 0,
    {
        self.pad_align(4, 4);
        let v: u32 = (self.buf.len() + 4 - root_off) as u32;
        self.prepend_u32(v);
        proof {
            assert(self.buf@ =~= (u32_le_bytes(v) + zeros(pad_to(old(self).len() + 4, 4))) + old(
                self,
            ).buf@);
            assert(self.buf@.subrange(
                self.buf@.len() - old(self).buf@.len(),
                self.buf@.len() as int,
            ) =~= old(self).buf@);
            lemma_wf_prepend(*old(self), *self);
        }
    }

    /// Hands the finished bytes out; the builder session is over.
    pub fn output_bytes(self) -> (r: Vec<u8>)
        ensures
            r@ == self.bytes(),
    {
        self.buf
    }

    /// Finalizes the open table.  The candidate vtable is serialized from
    /// the recorded fields and looked up in the cache: an identical vtable
    /// written before is reused — only the table's back reference is
    /// written, pointing at the shared copy — otherwise the vtable is
    /// written in front of the table and cached.  Returns the table's end
    /// offset, for parent references and for `finish`.
    pub fn end_table(&mut self) -> (off: usize)
        requires
            old(self).wf(),
            old(self).table_open(),
            old(self).len() + 0x30000 <= MAX_BUFFER_BYTES as int,
            old(self).len() - old(self).table_start_spec() <= MAX_TABLE_INLINE_BYTES as int,
        ensures
            final(self).wf(),
            !final(self).table_open(),
            off as int == spec_table_pos(old(self).len()),
            find_vtable(old(self).cache_spec(), spec_candidate(*old(self))) matches Some(voff)
                ==> final(self).bytes() == u32_le_bytes(
                i32_to_bits((voff - spec_table_pos(old(self).len())) as i32),
            ) + zeros(pad_to(old(self).len() + 4, 4)) + old(self).bytes(),
            find_vtable(old(self).cache_spec(), spec_candidate(*old(self))) is Some
                ==> final(self).cache_spec() == old(self).cache_spec(),
            find_vtable(old(self).cache_spec(), spec_candidate(*old(self))) is None
                ==> final(self).bytes() == spec_candidate(*old(self)) + u32_le_bytes(
                spec_candidate(*old(self)).len() as u32,
            ) + zeros(pad_to(old(self).len() + 4, 4)) + old(self).bytes(),
            find_vtable(old(self).cache_spec(), spec_candidate(*old(self))) is None
                ==> final(self).cache_spec() == old(self).cache_spec().push(
                (
                    spec_candidate(*old(self)),
                    spec_table_pos(old(self).len()) + spec_candidate(*old(self)).len(),
                ),
            ),
    {
        self.pad_align(4, 4);
        proof {
            assert(self.buf@.subrange(
                self.buf@.len() - old(self).buf@.len(),
                self.buf@.len() as int,
            ) =~= old(self).buf@);
            lemma_wf_prepend(*old(self), *self);
        }
        let ghost p = pad_to(old(self).len() + 4, 4);
        let t_off: usize = self.buf.len() + 4;
        let ts: usize = self.table_start;
        let ghost s1 = *self;
        proof {
            assert(t_off as int == spec_table_pos(old(self).len()));
        }

        // one slot per declared field, up to the largest index pushed
        let nf: usize = self.fields.len();
        let mut nslots: usize = 0;
        let mut k: usize = 0;
        proof {
            assert(self.fields_spec().take(0) =~= Seq::<(u16, int)>::empty());
        }
        while k < nf
            invariant
                *self == s1,
                old(self).wf(),
                old(self).table_open(),
                self.fields == old(self).fields,
                k <= nf,
                nf == self.fields@.len(),
                nslots as int == num_slots(self.fields_spec().take(k as int)),
                nslots <= 0x7ff1,
            decreases nf - k,
        {
            let id: u16 = self.fields[k].0;
            proof {
                assert(old(self).fields@[k as int].0 <= MAX_FIELD_ID);
                assert(self.fields_spec().take(k as int + 1).drop_last() =~= self.fields_spec()
                    .take(k as int));
                assert(self.fields_spec().take(k as int + 1).last() == self.fields_spec()[
                    k as int]);
            }
            if id as usize + 1 > nslots {
                nslots = id as usize + 1;
            }
            k = k + 1;
        }
        proof {
            assert(self.fields_spec().take(nf as int) =~= self.fields_spec());
        }

        // slot values: each pushed field's distance from the table start
        let mut slots: Vec<u16> = vec![0u16; nslots];
        let mut k2: usize = 0;
        proof {
            assert(self.fields_spec().take(0) =~= Seq::<(u16, int)>::empty());
        }
        while k2 < nf
            invariant
                *self == s1,
                old(self).wf(),
                old(self).table_open(),
                self.fields == old(self).fields,
                self.table_start == old(self).table_start,
                k2 <= nf,
                nf == self.fields@.len(),
                slots@.len() == nslots,
                nslots as int == num_slots(self.fields_spec()),
                t_off as int == self.buf@.len() + 4,
                t_off as int == spec_table_pos(old(self).len()),
                ts == self.table_start,
                old(self).len() - old(self).table_start_spec() <= MAX_TABLE_INLINE_BYTES as int,
                self.buf@.len() == old(self).buf@.len() + p,
                0 <= p < 4,
                forall|j: int|
                    0 <= j < nslots ==> (#[trigger] slots@[j]) as int == slot_for(
                        self.fields_spec().take(k2 as int),
                        t_off as int,
                        j,
                    ),
            decreases nf - k2,
        {
            let id: u16 = self.fields[k2].0;
            let foff: usize = self.fields[k2].1;
            proof {
                lemma_num_slots_bound(self.fields_spec(), k2 as int);
                assert(old(self).fields@[k2 as int].0 <= MAX_FIELD_ID);
                assert(old(self).table_start as int <= old(self).fields@[k2 as int].1 <= old(
                    self,
                ).buf@.len());
            }
            let slot_v: u16 = (t_off - foff) as u16;
            slots[id as usize] = slot_v;
            k2 = k2 + 1;
            proof {
                assert(self.fields_spec().take(k2 as int).drop_last() =~= self.fields_spec().take(
                    k2 as int - 1,
                ));
                assert(self.fields_spec().take(k2 as int).last() == self.fields_spec()[k2 as int
                    - 1]);
                assert forall|j: int|
                    0 <= j < nslots implies (#[trigger] slots@[j]) as int == slot_for(
                        self.fields_spec().take(k2 as int),
                        t_off as int,
                        j,
                    ) by {}
            }
        }
        proof {
            assert(self.fields_spec().take(nf as int) =~= self.fields_spec());
            assert(slots@ =~= table_slots(self.fields_spec(), t_off as int));
        }

        // serialize the candidate vtable
        let inline_size: u16 = (t_off - ts) as u16;
        let size_slot: u16 = ((nslots + 2) * 2) as u16;
        let mut cand: Vec<u8> = Vec::new();
        cand.push((size_slot % 0x100) as u8);
        cand.push((size_slot / 0x100) as u8);
        cand.push((inline_size % 0x100) as u8);
        cand.push((inline_size / 0x100) as u8);
        proof {
            assert(slots@.take(0) =~= Seq::<u16>::empty());
            assert(cand@ =~= u16_le_bytes(size_slot) + u16_le_bytes(inline_size) + slots_bytes(
                slots@.take(0),
            ));
        }
        let mut k3: usize = 0;
        while k3 < nslots
            invariant
                *self == s1,
                k3 <= nslots,
                slots@.len() == nslots,
                nslots <= 0x7ff1,
                cand@ == u16_le_bytes(size_slot) + u16_le_bytes(inline_size) + slots_bytes(
                    slots@.take(k3 as int),
                ),
            decreases nslots - k3,
        {
            let sv: u16 = slots[k3];
            cand.push((sv % 0x100) as u8);
            cand.push((sv / 0x100) as u8);
            k3 = k3 + 1;
            proof {
                lemma_slots_bytes_push(slots@.take(k3 as int - 1), sv);
                assert(slots@.take(k3 as int) =~= slots@.take(k3 as int - 1).push(sv));
                assert(cand@ =~= u16_le_bytes(size_slot) + u16_le_bytes(inline_size) + slots_bytes(
                    slots@.take(k3 as int),
                ));
            }
        }
        let ghost candg = cand@;
        proof {
            assert(slots@.take(nslots as int) =~= slots@);
            lemma_slots_bytes_len(slots@);
            assert(candg == vtable_bytes(inline_size, slots@));
            assert(candg == spec_candidate(*old(self)));
            assert(candg.len() == 2 * nslots + 4);
        }

        // deduplication: linear lookup by exact byte equality
        let n5: usize = self.vtables.len();
        let mut hit: bool = false;
        let mut voff: usize = 0;
        let mut k4: usize = 0;
        while k4 < n5
            invariant
                *self == s1,
                self.wf(),
                n5 == self.vtables@.len(),
                k4 <= n5,
                cand@ == candg,
                !hit ==> forall|j: int|
                    0 <= j < k4 ==> (#[trigger] self.vtables@[j]).0@ != candg,
                hit ==> find_vtable(self.cache_spec(), candg) == Some(voff as int),
                hit ==> voff <= self.buf@.len(),
            decreases n5 - k4,
        {
            if !hit {
                let e_eq: bool = bytes_eq(self.vtables[k4].0.as_slice(), cand.as_slice());
                if e_eq {
                    hit = true;
                    voff = self.vtables[k4].1;
                    proof {
                        assert forall|j: int|
                            0 <= j < k4 implies (#[trigger] self.cache_spec()[j]).0 != candg by {
                            assert(self.cache_spec()[j].0 == self.vtables@[j].0@);
                        }
                        assert(self.cache_spec()[k4 as int].0 == self.vtables@[k4 as int].0@);
                        assert(self.cache_spec()[k4 as int].1 == self.vtables@[k4 as int].1 as int);
                        lemma_find_vtable_some(self.cache_spec(), candg, k4 as int);
                        assert(cache_entry_ok(
                            self.vtables@[k4 as int].0@,
                            self.buf@,
                            self.vtables@[k4 as int].1 as int,
                        ));
                    }
                }
            }
            k4 = k4 + 1;
        }
        proof {
            if !hit {
                assert forall|j: int|
                    0 <= j < self.cache_spec().len() implies (#[trigger] self.cache_spec()[j]).0
                    != candg by {
                    assert(self.cache_spec()[j].0 == self.vtables@[j].0@);
                }
                lemma_find_vtable_none(self.cache_spec(), candg);
            }
            assert(self.cache_spec() == old(self).cache_spec());
        }

        // back reference, and the vtable itself when it is new
        if hit {
            let delta: i64 = voff as i64 - t_off as i64;
            let bits: u32 = if delta >= 0 {
                delta as u32
            } else {
                (delta + 0x1_0000_0000) as u32
            };
            proof {
                assert(bits == i32_to_bits((voff as int - t_off as int) as i32));
            }
            self.prepend_u32(bits);
            self.in_table = false;
            self.fields.clear();
            proof {
                assert(self.buf@ =~= (u32_le_bytes(bits) + zeros(p)) + old(self).buf@);
                assert(self.buf@.subrange(
                    self.buf@.len() - s1.buf@.len(),
                    self.buf@.len() as int,
                ) =~= s1.buf@);
                lemma_entries_prepend(s1.buf@, self.buf@, self.vtables@);
                assert(self.fields_spec() =~= Seq::<(u16, int)>::empty());
                assert(self.wf());
            }
        } else {
            let clen: u32 = cand.len() as u32;
            self.prepend_u32(clen);
            self.prepend_slice(cand.as_slice());
            let new_off: usize = self.buf.len();
            self.vtables.push((cand, new_off));
            self.in_table = false;
            self.fields.clear();
            proof {
                assert(self.buf@ =~= (candg + u32_le_bytes(candg.len() as u32) + zeros(p)) + old(
                    self,
                ).buf@);
                assert(new_off as int == t_off as int + candg.len());
                assert(self.buf@.subrange(
                    self.buf@.len() - s1.buf@.len(),
                    self.buf@.len() as int,
                ) =~= s1.buf@);
                lemma_entries_prepend(s1.buf@, self.buf@, s1.vtables@);
                assert forall|k5: int|
                    0 <= k5 < self.vtables@.len() implies cache_entry_ok(
                    (#[trigger] self.vtables@[k5]).0@,
                    self.buf@,
                    self.vtables@[k5].1 as int,
                ) by {
                    if k5 < self.vtables@.len() - 1 {
                        assert(self.vtables@[k5] == s1.vtables@[k5]);
                    } else {
                        assert(self.vtables@[k5].0@ == candg);
                        assert(self.vtables@[k5].1 == new_off);
                        assert(self.buf@.subrange(
                            self.buf@.len() - new_off,
                            self.buf@.len() - new_off + candg.len(),
                        ) =~= candg);
                    }
                }
                assert forall|k1: int, k2a: int|
                    #![trigger self.vtables@[k1], self.vtables@[k2a]]
                    0 <= k1 < k2a < self.vtables@.len() implies self.vtables@[k1].0@
                    != self.vtables@[k2a].0@ by {
                    if k2a == self.vtables@.len() - 1 {
                        assert(s1.vtables@[k1].0@ != candg);
                    } else {
                        assert(self.vtables@[k1] == s1.vtables@[k1]);
                        assert(self.vtables@[k2a] == s1.vtables@[k2a]);
                    }
                }
                assert(self.fields_spec() =~= Seq::<(u16, int)>::empty());
                assert(self.cache_spec() =~= old(self).cache_spec().push(
                    (candg, new_off as int),
                ));
                assert(self.wf());
            }
        }
        t_off
    }
}

/// The vtable bytes that `end_table` serializes from a builder's state.
pub open spec fn spec_candidate(b: Builder) -> Seq<u8> {
    vtable_bytes(
        ((spec_table_pos(b.len()) - b.table_start_spec()) as u16),
        table_slots(b.fields_spec(), spec_table_pos(b.len())),
    )
}

proof fn lemma_num_slots_bound(fields: Seq<(u16, int)>, k: int)
    requires
        0 <= k < fields.len(),
    ensures
        fields[k].0 + 1 <= num_slots(fields),
    decreases fields.len(),
{
    if k == fields.len() - 1 {
    } else {
        assert(fields.drop_last()[k] == fields[k]);
        lemma_num_slots_bound(fields.drop_last(), k);
    }
}

proof fn lemma_find_vtable_some(cache: Seq<(Seq<u8>, int)>, cand: Seq<u8>, k: int)
    requires
        0 <= k < cache.len(),
        forall|j: int| 0 <= j < k ==> (#[trigger] cache[j]).0 != cand,
        cache[k].0 == cand,
    ensures
        find_vtable(cache, cand) == Some(cache[k].1),
    decreases k,
{
    assert(cache.first() == cache[0]);
    if k == 0 {
    } else {
        assert(cache[0].0 != cand);
        assert forall|j: int|
            0 <= j < k - 1 implies (#[trigger] cache.drop_first()[j]).0 != cand by {
            assert(cache.drop_first()[j] == cache[j + 1]);
        }
        assert(cache.drop_first()[k - 1] == cache[k]);
        lemma_find_vtable_some(cache.drop_first(), cand, k - 1);
    }
}

proof fn lemma_find_vtable_none(cache: Seq<(Seq<u8>, int)>, cand: Seq<u8>)
    requires
        forall|j: int| 0 <= j < cache.len() ==> (#[trigger] cache[j]).0 != cand,
    ensures
        find_vtable(cache, cand) is None,
    decreases cache.len(),
{
    if cache.len() > 0 {
        assert(cache.first() == cache[0]);
        assert forall|j: int|
            0 <= j < cache.drop_first().len() implies (#[trigger] cache.drop_first()[j]).0
            != cand by {
            assert(cache.drop_first()[j] == cache[j + 1]);
        }
        lemma_find_vtable_none(cache.drop_first(), cand);
    }
}

proof fn lemma_find_vtable_witness(cache: Seq<(Seq<u8>, int)>, cand: Seq<u8>)
    requires
        find_vtable(cache, cand) is Some,
    ensures
        exists|k: int|
            0 <= k < cache.len() && (#[trigger] cache[k]).0 == cand && find_vtable(cache, cand)
                == Some(cache[k].1),
    decreases cache.len(),
{
    assert(cache.first() == cache[0]);
    if cache[0].0 == cand {
        assert(0 <= 0 < cache.len() && cache[0].0 == cand && find_vtable(cache, cand) == Some(
            cache[0].1,
        ));
    } else {
        lemma_find_vtable_witness(cache.drop_first(), cand);
        let kk = choose|k: int|
            0 <= k < cache.drop_first().len() && (#[trigger] cache.drop_first()[k]).0 == cand
                && find_vtable(cache.drop_first(), cand) == Some(cache.drop_first()[k].1);
        assert(cache.drop_first()[kk] == cache[kk + 1]);
        assert(0 <= kk + 1 < cache.len() && cache[kk + 1].0 == cand && find_vtable(cache, cand)
            == Some(cache[kk + 1].1));
    }
}

/// Regions addressed by their end offset survive any prepend: growth at
/// the front leaves every already-written byte at its end offset.
proof fn lemma_entries_prepend(pre: Seq<u8>, post: Seq<u8>, tabs: Seq<(Vec<u8>, usize)>)
    requires
        post.len() >= pre.len(),
        post.subrange(post.len() - pre.len(), post.len() as int) == pre,
        forall|k: int|
            0 <= k < tabs.len() ==> cache_entry_ok(
                (#[trigger] tabs[k]).0@,
                pre,
                tabs[k].1 as int,
            ),
    ensures
        forall|k: int|
            0 <= k < tabs.len() ==> cache_entry_ok(
                (#[trigger] tabs[k]).0@,
                post,
                tabs[k].1 as int,
            ),
{
    let d: int = post.len() - pre.len();
    assert forall|k: int| 0 <= k < tabs.len() implies cache_entry_ok(
        (#[trigger] tabs[k]).0@,
        post,
        tabs[k].1 as int,
    ) by {
        let eb = tabs[k].0@;
        let off = tabs[k].1 as int;
        assert(cache_entry_ok(eb, pre, off));
        assert(post.subrange(post.len() - off, post.len() - off + eb.len()) =~= pre.subrange(
            pre.len() - off,
            pre.len() - off + eb.len(),
        )) by {
            assert forall|i: int|
                0 <= i < eb.len() implies #[trigger] post[post.len() - off + i] == pre[pre.len()
                - off + i] by {
                assert(post[d + (pre.len() - off + i)] == post.subrange(
                    d,
                    post.len() as int,
                )[pre.len() - off + i]);
            }
        }
    }
}

/// Law: bytes already written never move relative to the buffer's end.
/// Every write prepends, so a child's content — addressed by its end
/// offset — is identical before and after any number of later writes;
/// this is what makes offsets handed out by `end_table` and `create_*`
/// stable until `finish`.
pub proof fn lemma_end_offset_stable(pre: Seq<u8>, post: Seq<u8>, off: int, m: int)
    requires
        post.len() >= pre.len(),
        post.subrange(post.len() - pre.len(), post.len() as int) == pre,
        0 <= m <= off <= pre.len(),
    ensures
        post.subrange(post.len() - off, post.len() - off + m) == pre.subrange(
            pre.len() - off,
            pre.len() - off + m,
        ),
{
    let d: int = post.len() - pre.len();
    assert(post.subrange(post.len() - off, post.len() - off + m) =~= pre.subrange(
        pre.len() - off,
        pre.len() - off + m,
    )) by {
        assert forall|i: int|
            0 <= i < m implies #[trigger] post[post.len() - off + i] == pre[pre.len() - off
            + i] by {
            assert(post[d + (pre.len() - off + i)] == post.subrange(
                d,
                post.len() as int,
            )[pre.len() - off + i]);
        }
    }
}

/// Law: the deduplication cache never holds the same vtable twice — a
/// candidate is cached only after the lookup for its exact bytes failed,
/// so each distinct field-presence pattern puts exactly one vtable into
/// the buffer.
pub proof fn lemma_cache_distinct(b: Builder)
    requires
        b.wf(),
    ensures
        forall|k1: int, k2: int|
            #![trigger b.cache_spec()[k1], b.cache_spec()[k2]]
            0 <= k1 < k2 < b.cache_spec().len() ==> b.cache_spec()[k1].0 != b.cache_spec()[k2].0,
{
    assert forall|k1: int, k2: int|
        #![trigger b.cache_spec()[k1], b.cache_spec()[k2]]
        0 <= k1 < k2 < b.cache_spec().len() implies b.cache_spec()[k1].0 != b.cache_spec()[
        k2].0 by {
        assert(b.cache_spec()[k1].0 == b.vtables@[k1].0@);
        assert(b.cache_spec()[k2].0 == b.vtables@[k2].0@);
        assert(b.vtables@[k1].0@ != b.vtables@[k2].0@);
    }
}

/// Law: deduplication reuses identical bytes.  Whenever the cache finds a
/// previously written vtable for a candidate byte sequence, the buffer
/// already holds exactly that byte sequence at the reused end offset, so
/// a table pointed at the shared vtable is read under the very bytes its
/// own vtable would have had.
pub proof fn lemma_dedup_shares_bytes(b: Builder, cand: Seq<u8>)
    requires
        b.wf(),
        find_vtable(b.cache_spec(), cand) is Some,
    ensures
        find_vtable(b.cache_spec(), cand) matches Some(off) ==> cand.len() <= off <= b.len(),
        find_vtable(b.cache_spec(), cand) matches Some(off) ==> b.bytes().subrange(
            b.len() - off,
            b.len() - off + cand.len(),
        ) == cand,
{
    lemma_find_vtable_witness(b.cache_spec(), cand);
    let k = choose|k: int|
        0 <= k < b.cache_spec().len() && (#[trigger] b.cache_spec()[k]).0 == cand && find_vtable(
            b.cache_spec(),
            cand,
        ) == Some(b.cache_spec()[k].1);
    assert(b.cache_spec()[k].0 == b.vtables@[k].0@);
    assert(b.cache_spec()[k].1 == b.vtables@[k].1 as int);
    assert(cache_entry_ok(b.vtables@[k].0@, b.buf@, b.vtables@[k].1 as int));
}

/// Prepending bytes moves every end offset's content nowhere: a region
/// addressed from the buffer's end is unchanged by growth at the front,
/// so the invariant survives any prepend that leaves the rest alone.
proof fn lemma_wf_prepend(pre: Builder, post: Builder)
    requires
        pre.wf(),
        post.buf@.len() >= pre.buf@.len(),
        post.buf@.len() <= MAX_BUFFER_BYTES,
        post.buf@.subrange(
            post.buf@.len() - pre.buf@.len(),
            post.buf@.len() as int,
        ) == pre.buf@,
        post.vtables == pre.vtables,
        post.fields == pre.fields,
        post.table_start == pre.table_start,
        post.in_table == pre.in_table,
    ensures
        post.wf(),
{
    lemma_entries_prepend(pre.buf@, post.buf@, post.vtables@);
}

} // verus!
