//! Read-only interpretation of a vtable region.
//!
//! A vtable is a run of little-endian 16-bit slots: two header slots (the
//! vtable's own size in bytes, then the referencing table's inline size)
//! followed by one slot per declared field, holding the field's byte offset
//! from the table start, or zero when the field is absent.  A `VTable` is a
//! transient view over a borrowed buffer; it owns and copies nothing, and
//! every read it makes is bounds-checked against the buffer.

use crate::error::Error;
use crate::scalar::{bytes_eq, le16, read_u16_le, u16_le_bytes, SIZE_VOFFSET};
use vstd::prelude::*;

verus! {

/// A view of the vtable starting at byte `loc` of `buf`.
pub struct VTable<'a> {
    buf: &'a [u8],
    loc: usize,
}

impl<'a> VTable<'a> {
    /// The bytes of the underlying buffer.
    pub closed spec fn buf_spec(self) -> Seq<u8> {
        self.buf@
    }

    /// The vtable's starting offset within the buffer.
    pub closed spec fn loc_spec(self) -> int {
        self.loc as int
    }

    /// True when the vtable's size slot lies within the buffer.
    pub open spec fn size_slot_in_bounds(self) -> bool {
        self.loc_spec() + 2 <= self.buf_spec().len()
    }

    /// The declared size of the vtable in bytes (its first header slot).
    pub open spec fn spec_num_bytes(self) -> int {
        le16(self.buf_spec(), self.loc_spec()) as int
    }

    /// True when the declared size describes a layout a vtable can have:
    /// room for the two header slots, and a whole number of slots.
    pub open spec fn header_well_formed(self) -> bool {
        &&& self.size_slot_in_bounds()
        &&& self.spec_num_bytes() >= 4
        &&& self.spec_num_bytes() % 2 == 0
    }

    /// The number of field slots the vtable declares.
    pub open spec fn spec_num_fields(self) -> int {
        self.spec_num_bytes() / 2 - 2
    }

    /// Wraps `buf` at `loc` as a vtable view; no bytes are inspected yet.
    pub fn init(buf: &'a [u8], loc: usize) -> (r: Self)
        ensures
            r.buf_spec() == buf@,
            r.loc_spec() == loc as int,
    {
        VTable { buf, loc }
    }

    /// The vtable's size in bytes, read from its first header slot.
    pub fn num_bytes(&self) -> (r: Result<usize, Error>)
        ensures
            self.size_slot_in_bounds() ==> r == Ok::<usize, Error>(
                self.spec_num_bytes() as usize,
            ),
            !self.size_slot_in_bounds() ==> r == Err::<usize, Error>(Error::OutOfBounds),
    {
        match read_u16_le(self.buf, self.loc) {
            Ok(v) => Ok(v as usize),
            Err(e) => Err(e),
        }
    }

    /// The number of field slots.  A declared size with room for fewer than
    /// the two header slots, or not a whole number of slots, is a malformed
    /// vtable and is reported as `OutOfBounds`.
    pub fn num_fields(&self) -> (r: Result<usize, Error>)
        ensures
            self.header_well_formed() ==> r == Ok::<usize, Error>(
                self.spec_num_fields() as usize,
            ),
            !self.header_well_formed() ==> r == Err::<usize, Error>(Error::OutOfBounds),
    {
        let nb: usize = match self.num_bytes() {
            Ok(n) => n,
            Err(e) => {
                return Err(e);
            },
        };
        if nb < 2 * SIZE_VOFFSET || nb % SIZE_VOFFSET != 0 {
            return Err(Error::OutOfBounds);
        }
        Ok(nb / SIZE_VOFFSET - 2)
    }

    /// The referencing table's fixed-width inline size, read from the second
    /// header slot.
    pub fn object_inline_num_bytes(&self) -> (r: Result<usize, Error>)
        ensures
            self.loc_spec() + 4 <= self.buf_spec().len() ==> r == Ok::<usize, Error>(
                le16(self.buf_spec(), self.loc_spec() + 2) as usize,
            ),
            self.loc_spec() + 4 > self.buf_spec().len() ==> r == Err::<usize, Error>(
                Error::OutOfBounds,
            ),
    {
        if self.buf.len() < 2 * SIZE_VOFFSET || self.loc > self.buf.len() - 2 * SIZE_VOFFSET {
            return Err(Error::OutOfBounds);
        }
        let n: u16 = match read_u16_le(self.buf, self.loc + SIZE_VOFFSET) {
            Ok(n) => n,
            Err(e) => {
                return Err(e);
            },
        };
        Ok(n as usize)
    }

    /// The slot for field index `idx`, or `None` when the index lies past
    /// the slots this vtable declares — an old buffer read under a newer
    /// schema reports the newer fields as absent rather than failing.
    pub fn get_field(&self, idx: usize) -> (r: Result<Option<u16>, Error>)
        ensures
            !self.header_well_formed() ==> r == Err::<Option<u16>, Error>(Error::OutOfBounds),
            self.header_well_formed() && idx > self.spec_num_fields() ==> r == Ok::<
                Option<u16>,
                Error,
            >(None),
            self.header_well_formed() && idx <= self.spec_num_fields() && self.loc_spec() + 6 + 2
                * idx <= self.buf_spec().len() ==> r == Ok::<Option<u16>, Error>(
                Some(le16(self.buf_spec(), self.loc_spec() + 4 + 2 * idx)),
            ),
            self.header_well_formed() && idx <= self.spec_num_fields() && self.loc_spec() + 6 + 2
                * idx > self.buf_spec().len() ==> r == Err::<Option<u16>, Error>(
                Error::OutOfBounds,
            ),
    {
        let nf: usize = match self.num_fields() {
            Ok(n) => n,
            Err(e) => {
                return Err(e);
            },
        };
        if idx > nf {
            return Ok(None);
        }
        let idx2: usize = SIZE_VOFFSET * idx;
        let need: usize = idx2 + 3 * SIZE_VOFFSET;
        if self.buf.len() < need || self.loc > self.buf.len() - need {
            return Err(Error::OutOfBounds);
        }
        match read_u16_le(self.buf, self.loc + 2 * SIZE_VOFFSET + idx2) {
            Ok(v) => Ok(Some(v)),
            Err(e) => Err(e),
        }
    }

    /// The slot at byte offset `byte_loc` within the vtable, or `None` when
    /// `byte_loc` lies at or past the vtable's declared end — a defensive
    /// bounds check for the table-accessor layer.
    pub fn get(&self, byte_loc: u16) -> (r: Result<Option<u16>, Error>)
        ensures
            !self.size_slot_in_bounds() ==> r == Err::<Option<u16>, Error>(Error::OutOfBounds),
            self.size_slot_in_bounds() && byte_loc >= self.spec_num_bytes() ==> r == Ok::<
                Option<u16>,
                Error,
            >(None),
            self.size_slot_in_bounds() && byte_loc < self.spec_num_bytes() && self.loc_spec()
                + byte_loc + 2 <= self.buf_spec().len() ==> r == Ok::<Option<u16>, Error>(
                Some(le16(self.buf_spec(), self.loc_spec() + byte_loc)),
            ),
            self.size_slot_in_bounds() && byte_loc < self.spec_num_bytes() && self.loc_spec()
                + byte_loc + 2 > self.buf_spec().len() ==> r == Err::<Option<u16>, Error>(
                Error::OutOfBounds,
            ),
    {
        let nb: usize = match self.num_bytes() {
            Ok(n) => n,
            Err(e) => {
                return Err(e);
            },
        };
        let bl: usize = byte_loc as usize;
        if bl >= nb {
            return Ok(None);
        }
        if self.buf.len() < bl + 2 || self.loc > self.buf.len() - bl - 2 {
            return Err(Error::OutOfBounds);
        }
        match read_u16_le(self.buf, self.loc + bl) {
            Ok(v) => Ok(Some(v)),
            Err(e) => Err(e),
        }
    }

    /// The vtable's own serialized bytes, `[loc, loc + num_bytes())`, or
    /// `OutOfBounds` when that range exceeds the buffer.  Byte-for-byte
    /// equality of these regions is the builder's sole deduplication
    /// criterion.
    pub fn as_bytes(&self) -> (r: Result<&'a [u8], Error>)
        ensures
            self.size_slot_in_bounds() && self.loc_spec() + self.spec_num_bytes()
                <= self.buf_spec().len() ==> (r matches Ok(b) && b@ == self.buf_spec().subrange(
                self.loc_spec(),
                self.loc_spec() + self.spec_num_bytes(),
            )),
            !(self.size_slot_in_bounds() && self.loc_spec() + self.spec_num_bytes()
                <= self.buf_spec().len()) ==> (r matches Err(e) && e == Error::OutOfBounds),
    {
        let nb: usize = match self.num_bytes() {
            Ok(n) => n,
            Err(e) => {
                return Err(e);
            },
        };
        if self.buf.len() < nb || self.loc > self.buf.len() - nb {
            return Err(Error::OutOfBounds);
        }
        Ok(&self.buf[self.loc..self.loc + nb])
    }
}

impl<'a> VTable<'a> {
    /// True when `as_bytes` succeeds: the declared byte range lies within
    /// the buffer.
    pub open spec fn bytes_ok(self) -> bool {
        &&& self.size_slot_in_bounds()
        &&& self.loc_spec() + self.spec_num_bytes() <= self.buf_spec().len()
    }

    /// The vtable's serialized bytes, where `bytes_ok` holds.
    pub open spec fn spec_bytes(self) -> Seq<u8> {
        self.buf_spec().subrange(self.loc_spec(), self.loc_spec() + self.spec_num_bytes())
    }
}

impl<'a> vstd::std_specs::cmp::PartialEqSpecImpl for VTable<'a> {
    open spec fn obeys_eq_spec() -> bool {
        true
    }

    open spec fn eq_spec(&self, other: &VTable<'a>) -> bool {
        ||| self.bytes_ok() && other.bytes_ok() && self.spec_bytes() == other.spec_bytes()
        ||| !self.bytes_ok() && !other.bytes_ok()
    }
}

/// Two vtables are equal exactly when their serialized bytes are equal —
/// the deduplication criterion — with two unreadable vtables comparing
/// equal, as their identical errors do.
impl<'a> PartialEq for VTable<'a> {
    fn eq(&self, other: &VTable<'a>) -> (r: bool) {
        match (self.as_bytes(), other.as_bytes()) {
            (Ok(a), Ok(b)) => bytes_eq(a, b),
            (Err(_), Err(_)) => true,
            _ => false,
        }
    }
}

/// The vtable byte offset of field index `i`: the two header slots precede
/// all field slots.
pub open spec fn spec_field_index_to_field_offset(i: int) -> int {
    (i + 2) * 2
}

/// The field index whose slot sits at vtable byte offset `o`.
pub open spec fn spec_field_offset_to_field_index(o: int) -> int {
    o / 2 - 2
}

/// Converts a field index to the byte offset of its slot within a vtable.
pub fn field_index_to_field_offset(field_id: u16) -> (r: u16)
    requires
        field_id <= 0x7ffd,
    ensures
        r == spec_field_index_to_field_offset(field_id as int),
{
    let fixed_fields: u16 = 2;
    let slot_width: u16 = 2;
    (field_id + fixed_fields) * slot_width
}

/// Converts a slot's byte offset back to its field index.  Only the builder
/// calls this, on offsets it produced itself, so an offset inside the
/// header is a caller bug, excluded by contract rather than checked.
pub fn field_offset_to_field_index(field_o: u16) -> (r: u16)
    requires
        field_o >= 4,
    ensures
        r == spec_field_offset_to_field_index(field_o as int),
{
    let fixed_fields: u16 = 2;
    let slot_width: u16 = 2;
    field_o / slot_width - fixed_fields
}

/// Law: converting a field index to its slot's byte offset and back yields
/// the index, for every index.
pub proof fn lemma_field_index_offset_bijection(i: int)
    requires
        0 <= i,
    ensures
        spec_field_offset_to_field_index(spec_field_index_to_field_offset(i)) == i,
{
}

/// Law: converting a slot's byte offset to its field index and back yields
/// the offset, for every whole-slot offset past the header.
pub proof fn lemma_field_offset_index_bijection(o: int)
    requires
        o >= 4,
        o % 2 == 0,
    ensures
        spec_field_index_to_field_offset(spec_field_offset_to_field_index(o)) == o,
{
}

/// The serialized slots of a vtable, one 16-bit little-endian value each.
pub open spec fn slots_bytes(slots: Seq<u16>) -> Seq<u8>
    decreases slots.len(),
{
    if slots.len() == 0 {
        Seq::empty()
    } else {
        u16_le_bytes(slots[0]) + slots_bytes(slots.drop_first())
    }
}

/// The full serialized form of a vtable: its own size, the referencing
/// table's inline size, then one slot per declared field.
pub open spec fn vtable_bytes(inline_size: u16, slots: Seq<u16>) -> Seq<u8> {
    u16_le_bytes(((slots.len() + 2) * 2) as u16) + u16_le_bytes(inline_size) + slots_bytes(slots)
}

pub proof fn lemma_slots_bytes_len(slots: Seq<u16>)
    ensures
        slots_bytes(slots).len() == 2 * slots.len(),
    decreases slots.len(),
{
    if slots.len() > 0 {
        lemma_slots_bytes_len(slots.drop_first());
    }
}

pub proof fn lemma_slots_bytes_push(slots: Seq<u16>, x: u16)
    ensures
        slots_bytes(slots.push(x)) == slots_bytes(slots) + u16_le_bytes(x),
    decreases slots.len(),
{
    if slots.len() == 0 {
        assert(slots.push(x).len() == 1);
        assert(slots.push(x)[0] == x);
        assert(slots.push(x).drop_first() =~= Seq::<u16>::empty());
        assert(slots_bytes(slots.push(x).drop_first()) == Seq::<u8>::empty());
        assert(slots_bytes(slots.push(x)) == u16_le_bytes(x) + Seq::<u8>::empty());
        assert(slots_bytes(slots) == Seq::<u8>::empty());
        assert(u16_le_bytes(x) + Seq::<u8>::empty() =~= slots_bytes(slots) + u16_le_bytes(x));
    } else {
        assert(slots.push(x)[0] == slots[0]);
        assert(slots.push(x).drop_first() =~= slots.drop_first().push(x));
        lemma_slots_bytes_push(slots.drop_first(), x);
        assert(slots_bytes(slots.push(x)) == u16_le_bytes(slots[0]) + (slots_bytes(
            slots.drop_first(),
        ) + u16_le_bytes(x)));
        assert(slots_bytes(slots.push(x)) =~= slots_bytes(slots) + u16_le_bytes(x));
    }
}

pub proof fn lemma_slots_bytes_index(slots: Seq<u16>, i: int)
    requires
        0 <= i < slots.len(),
    ensures
        le16(slots_bytes(slots), 2 * i) == slots[i],
    decreases i,
{
    lemma_slots_bytes_len(slots.drop_first());
    if i == 0 {
        assert(slots_bytes(slots)[0] == u16_le_bytes(slots[0])[0]);
        assert(slots_bytes(slots)[1] == u16_le_bytes(slots[0])[1]);
    } else {
        lemma_slots_bytes_index(slots.drop_first(), i - 1);
        assert(slots_bytes(slots)[2 * i] == slots_bytes(slots.drop_first())[2 * (i - 1)]);
        assert(slots_bytes(slots)[2 * i + 1] == slots_bytes(slots.drop_first())[2 * (i - 1) + 1]);
    }
}

/// Law: a vtable serialized from an inline size and a slot sequence reads
/// back exactly — the size slot, the inline-size slot and every field slot
/// hold the values they were built from.
pub proof fn lemma_vtable_bytes_round_trip(inline_size: u16, slots: Seq<u16>)
    requires
        slots.len() <= 0x7ffd,
    ensures
        vtable_bytes(inline_size, slots).len() == 2 * slots.len() + 4,
        le16(vtable_bytes(inline_size, slots), 0) == (slots.len() + 2) * 2,
        le16(vtable_bytes(inline_size, slots), 2) == inline_size,
        forall|i: int|
            0 <= i < slots.len() ==> le16(vtable_bytes(inline_size, slots), 4 + 2 * i)
                == slots[i],
{
    let vb = vtable_bytes(inline_size, slots);
    lemma_slots_bytes_len(slots);
    crate::scalar::lemma_u16_round_trip(((slots.len() + 2) * 2) as u16);
    crate::scalar::lemma_u16_round_trip(inline_size);
    assert(le16(vb, 0) == (slots.len() + 2) * 2) by {
        assert(vb[0] == u16_le_bytes(((slots.len() + 2) * 2) as u16)[0]);
        assert(vb[1] == u16_le_bytes(((slots.len() + 2) * 2) as u16)[1]);
    }
    assert(le16(vb, 2) == inline_size) by {
        assert(vb[2] == u16_le_bytes(inline_size)[0]);
        assert(vb[3] == u16_le_bytes(inline_size)[1]);
    }
    assert forall|i: int| 0 <= i < slots.len() implies le16(vb, 4 + 2 * i) == slots[i] by {
        lemma_slots_bytes_index(slots, i);
        assert(vb[4 + 2 * i] == slots_bytes(slots)[2 * i]);
        assert(vb[4 + 2 * i + 1] == slots_bytes(slots)[2 * i + 1]);
    }
}

/// Law: a 16-bit read inside a region of a buffer sees the region's bytes.
pub proof fn lemma_le16_in_region(buf: Seq<u8>, region: Seq<u8>, loc: int, k: int)
    requires
        0 <= loc,
        loc + region.len() <= buf.len(),
        buf.subrange(loc, loc + region.len() as int) == region,
        0 <= k,
        k + 2 <= region.len(),
    ensures
        le16(buf, loc + k) == le16(region, k),
{
    assert(buf[loc + k] == buf.subrange(loc, loc + region.len() as int)[k]);
    assert(buf[loc + k + 1] == buf.subrange(loc, loc + region.len() as int)[k + 1]);
}

} // verus!
