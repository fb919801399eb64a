//! Table accessor protocol.
//!
//! A table is a buffer location holding a signed back reference to its
//! vtable.  Resolving field `i` follows that back reference, asks the
//! vtable for slot `i`, and — when the slot is present and non-zero —
//! yields the field's data location, `table location + slot`.  A zero
//! slot means the field is absent and the caller substitutes its schema
//! default.  Forward references (roots, strings, vectors) are unsigned
//! displacements leading onward from the referencing slot.

use crate::error::Error;
use crate::scalar::{bits_to_i32, le16, le32, read_i32_le, read_u32_le};
use crate::vtable::{lemma_le16_in_region, lemma_vtable_bytes_round_trip, vtable_bytes, VTable};
use vstd::prelude::*;

verus! {

/// The signed back reference stored at a table's location.
pub open spec fn spec_soffset(buf: Seq<u8>, loc: int) -> int {
    bits_to_i32(le32(buf, loc)) as int
}

/// Where a table's vtable lives: the back reference leads backward from
/// the table to its layout descriptor.
pub open spec fn spec_vtable_loc(buf: Seq<u8>, loc: int) -> int {
    loc - spec_soffset(buf, loc)
}

/// True when the back reference at `loc` can be read and leads to a
/// location inside the buffer.
pub open spec fn backref_resolvable(buf: Seq<u8>, loc: int) -> bool {
    &&& loc + 4 <= buf.len()
    &&& 0 <= spec_vtable_loc(buf, loc) <= buf.len()
}

/// What resolving field `idx` of the table at `loc` yields: the field's
/// data location, `None` when the field is absent (slot zero, or an index
/// past the vtable's slots), or `OutOfBounds` when any read on the way
/// would leave the buffer.
pub open spec fn spec_field_data_loc(buf: Seq<u8>, loc: int, idx: int) -> Result<
    Option<int>,
    Error,
> {
    if !backref_resolvable(buf, loc) {
        Err(Error::OutOfBounds)
    } else {
        let v = spec_vtable_loc(buf, loc);
        if !(v + 2 <= buf.len() && le16(buf, v) >= 4 && le16(buf, v) % 2 == 0) {
            Err(Error::OutOfBounds)
        } else if idx > le16(buf, v) / 2 - 2 {
            Ok(None)
        } else if v + 6 + 2 * idx > buf.len() {
            Err(Error::OutOfBounds)
        } else {
            let slot = le16(buf, v + 4 + 2 * idx) as int;
            if slot == 0 {
                Ok(None)
            } else if loc + slot <= buf.len() {
                Ok(Some(loc + slot))
            } else {
                Err(Error::OutOfBounds)
            }
        }
    }
}

/// Law: wherever a buffer holds the encoded bits of a signed back
/// reference — as the builder writes them at every table start — the back
/// reference read at that spot yields the signed value, so the vtable
/// location the reader derives is the one the builder encoded.
pub proof fn lemma_backref_reads(buf: Seq<u8>, l: int, r: i32)
    requires
        0 <= l,
        l + 4 <= buf.len(),
        buf.subrange(l, l + 4) == crate::scalar::u32_le_bytes(crate::scalar::i32_to_bits(r)),
    ensures
        spec_soffset(buf, l) == r,
        spec_vtable_loc(buf, l) == l - r,
{
    crate::scalar::lemma_le32_at(buf, l, crate::scalar::i32_to_bits(r));
    crate::scalar::lemma_i32_round_trip(r);
}

/// Law (round trip of the table layer): in any buffer holding, at `t`, a
/// back reference that leads to a vtable serialized from an inline size
/// and a slot sequence, resolving a field of the table at `t` yields
/// exactly what the vtable was built from — the data location `t + slot`
/// where the slot is nonzero, absent where the slot is zero, and absent
/// for any index beyond the slots the vtable declares.
pub proof fn lemma_table_resolution_round_trip(
    buf: Seq<u8>,
    t: int,
    inline: u16,
    slots: Seq<u16>,
    i: int,
)
    requires
        slots.len() <= 0x7ffd,
        0 <= t,
        t + 4 <= buf.len(),
        0 <= spec_vtable_loc(buf, t),
        spec_vtable_loc(buf, t) + vtable_bytes(inline, slots).len() <= buf.len(),
        buf.subrange(
            spec_vtable_loc(buf, t),
            spec_vtable_loc(buf, t) + vtable_bytes(inline, slots).len() as int,
        ) == vtable_bytes(inline, slots),
        0 <= i,
    ensures
        i < slots.len() && slots[i] == 0 ==> spec_field_data_loc(buf, t, i) == Ok::<
            Option<int>,
            Error,
        >(None),
        i < slots.len() && slots[i] != 0 && t + slots[i] <= buf.len() ==> spec_field_data_loc(
            buf,
            t,
            i,
        ) == Ok::<Option<int>, Error>(Some(t + slots[i])),
        i > slots.len() ==> spec_field_data_loc(buf, t, i) == Ok::<Option<int>, Error>(None),
{
    let v = spec_vtable_loc(buf, t);
    let vb = vtable_bytes(inline, slots);
    lemma_vtable_bytes_round_trip(inline, slots);
    lemma_le16_in_region(buf, vb, v, 0);
    assert(le16(buf, v) == (slots.len() + 2) * 2);
    if i < slots.len() {
        lemma_le16_in_region(buf, vb, v, 4 + 2 * i);
        assert(le16(buf, v + 4 + 2 * i) == slots[i]);
    }
}

/// Law (write–read round trip): a table finalized with a fresh vtable
/// reads back.  `after` is the buffer as `end_table` leaves it — the
/// serialized vtable, then the table's back reference, then everything
/// written earlier — and `final_buf` is any later buffer that still ends
/// with `after` (writes only prepend).  Resolving field `i` of that table
/// in the final buffer yields exactly what its vtable was built from:
/// the data location `table + slot` where slot `i` is nonzero, absent
/// where it is zero or beyond the declared slots.
pub proof fn lemma_fresh_table_reads_back(
    final_buf: Seq<u8>,
    after: Seq<u8>,
    t_off: int,
    inline: u16,
    slots: Seq<u16>,
    i: int,
)
    requires
        slots.len() <= 0x7ffd,
        4 <= t_off,
        after.len() == t_off + vtable_bytes(inline, slots).len(),
        after.subrange(0, vtable_bytes(inline, slots).len() as int) == vtable_bytes(
            inline,
            slots,
        ),
        after.subrange(
            vtable_bytes(inline, slots).len() as int,
            vtable_bytes(inline, slots).len() + 4 as int,
        ) == crate::scalar::u32_le_bytes(vtable_bytes(inline, slots).len() as u32),
        final_buf.len() >= after.len(),
        final_buf.subrange(final_buf.len() - after.len(), final_buf.len() as int) == after,
        0 <= i,
    ensures
        i < slots.len() && slots[i] == 0 ==> spec_field_data_loc(
            final_buf,
            final_buf.len() - t_off,
            i,
        ) == Ok::<Option<int>, Error>(None),
        i < slots.len() && slots[i] != 0 && final_buf.len() - t_off + slots[i]
            <= final_buf.len() ==> spec_field_data_loc(final_buf, final_buf.len() - t_off, i)
            == Ok::<Option<int>, Error>(Some(final_buf.len() - t_off + slots[i])),
        i > slots.len() ==> spec_field_data_loc(final_buf, final_buf.len() - t_off, i) == Ok::<
            Option<int>,
            Error,
        >(None),
{
    let cand = vtable_bytes(inline, slots);
    let l = final_buf.len() - t_off;
    crate::vtable::lemma_vtable_bytes_round_trip(inline, slots);
    // the back reference sits at the table's location
    crate::builder::lemma_end_offset_stable(after, final_buf, t_off, 4);
    assert(after.subrange(after.len() - t_off, after.len() - t_off + 4) == after.subrange(
        cand.len() as int,
        cand.len() + 4 as int,
    ));
    crate::scalar::lemma_i32_round_trip(cand.len() as i32);
    lemma_backref_reads(final_buf, l, cand.len() as i32);
    // the vtable's bytes sit just in front of the table
    crate::builder::lemma_end_offset_stable(
        after,
        final_buf,
        after.len() as int,
        cand.len() as int,
    );
    assert(after.subrange(0, cand.len() as int) == after.subrange(
        after.len() - after.len(),
        after.len() - after.len() + cand.len() as int,
    ));
    assert(final_buf.subrange(
        spec_vtable_loc(final_buf, l),
        spec_vtable_loc(final_buf, l) + cand.len() as int,
    ) == cand);
    lemma_table_resolution_round_trip(final_buf, l, inline, slots, i);
}

/// A transient view of the table at byte `loc` of `buf`; resolved anew on
/// every access, owning nothing.
pub struct Table<'a> {
    buf: &'a [u8],
    loc: usize,
}

impl<'a> Table<'a> {
    /// The bytes of the underlying buffer.
    pub closed spec fn buf_spec(self) -> Seq<u8> {
        self.buf@
    }

    /// The table's location within the buffer.
    pub closed spec fn loc_spec(self) -> int {
        self.loc as int
    }

    /// Wraps `buf` at `loc` as a table view; no bytes are inspected yet.
    pub fn init(buf: &'a [u8], loc: usize) -> (r: Self)
        ensures
            r.buf_spec() == buf@,
            r.loc_spec() == loc as int,
    {
        Table { buf, loc }
    }

    /// Follows the table's back reference to its vtable's location.
    pub fn vtable_loc(&self) -> (r: Result<usize, Error>)
        ensures
            backref_resolvable(self.buf_spec(), self.loc_spec()) ==> r == Ok::<usize, Error>(
                spec_vtable_loc(self.buf_spec(), self.loc_spec()) as usize,
            ),
            !backref_resolvable(self.buf_spec(), self.loc_spec()) ==> r == Err::<usize, Error>(
                Error::OutOfBounds,
            ),
    {
        let br: i32 = match read_i32_le(self.buf, self.loc) {
            Ok(v) => v,
            Err(e) => {
                return Err(e);
            },
        };
        if br >= 0 {
            let o: usize = br as usize;
            if o > self.loc {
                Err(Error::OutOfBounds)
            } else {
                Ok(self.loc - o)
            }
        } else {
            let o: usize = (-(br as i64)) as usize;
            if o > self.buf.len() - self.loc {
                Err(Error::OutOfBounds)
            } else {
                Ok(self.loc + o)
            }
        }
    }

    /// Resolves the table's vtable as a view.
    pub fn vtable(&self) -> (r: Result<VTable<'a>, Error>)
        ensures
            backref_resolvable(self.buf_spec(), self.loc_spec()) ==> (r matches Ok(vt)
                && vt.buf_spec() == self.buf_spec() && vt.loc_spec() == spec_vtable_loc(
                self.buf_spec(),
                self.loc_spec(),
            )),
            !backref_resolvable(self.buf_spec(), self.loc_spec()) ==> r == Err::<
                VTable<'a>,
                Error,
            >(Error::OutOfBounds),
    {
        let vloc: usize = match self.vtable_loc() {
            Ok(v) => v,
            Err(e) => {
                return Err(e);
            },
        };
        let blen: usize = self.buf.len();
        proof {
            assert(blen == self.buf_spec().len());
            assert(vloc as int == spec_vtable_loc(self.buf_spec(), self.loc_spec()));
        }
        Ok(VTable::init(self.buf, vloc))
    }

    /// Resolves field `idx` to its data location: `None` means absent —
    /// the slot is zero, or the vtable is too old to know the field — and
    /// the caller substitutes the schema default.
    pub fn field_data_loc(&self, idx: usize) -> (r: Result<Option<usize>, Error>)
        ensures
            spec_field_data_loc(self.buf_spec(), self.loc_spec(), idx as int) matches Ok(Some(l))
                ==> r == Ok::<Option<usize>, Error>(Some(l as usize)),
            spec_field_data_loc(self.buf_spec(), self.loc_spec(), idx as int) == Ok::<
                Option<int>,
                Error,
            >(None) ==> r == Ok::<Option<usize>, Error>(None),
            spec_field_data_loc(self.buf_spec(), self.loc_spec(), idx as int) is Err ==> r
                == Err::<Option<usize>, Error>(Error::OutOfBounds),
    {
        let vt: VTable<'a> = match self.vtable() {
            Ok(v) => v,
            Err(e) => {
                return Err(e);
            },
        };
        let slot: u16 = match vt.get_field(idx) {
            Ok(Some(s)) => s,
            Ok(None) => {
                return Ok(None);
            },
            Err(e) => {
                return Err(e);
            },
        };
        if slot == 0 {
            return Ok(None);
        }
        let s: usize = slot as usize;
        if s > self.buf.len() || self.loc > self.buf.len() - s {
            return Err(Error::OutOfBounds);
        }
        Ok(Some(self.loc + s))
    }
}

/// Follows the unsigned forward reference stored at `loc`: the referenced
/// content lives `displacement` bytes onward from the reference itself.
pub fn read_forward_ref(buf: &[u8], loc: usize) -> (r: Result<usize, Error>)
    ensures
        loc + 4 <= buf@.len() && loc + le32(buf@, loc as int) <= buf@.len() ==> r == Ok::<
            usize,
            Error,
        >((loc + le32(buf@, loc as int)) as usize),
        !(loc + 4 <= buf@.len() && loc + le32(buf@, loc as int) <= buf@.len()) ==> r == Err::<
            usize,
            Error,
        >(Error::OutOfBounds),
{
    let d: u32 = match read_u32_le(buf, loc) {
        Ok(v) => v,
        Err(e) => {
            return Err(e);
        },
    };
    let du: usize = d as usize;
    if du > buf.len() || loc > buf.len() - du {
        return Err(Error::OutOfBounds);
    }
    Ok(loc + du)
}

/// Resolves the root table: the buffer starts with a forward reference to
/// it.
pub fn get_root(buf: &[u8]) -> (r: Result<Table<'_>, Error>)
    ensures
        4 <= buf@.len() && le32(buf@, 0) <= buf@.len() ==> (r matches Ok(t) && t.buf_spec()
            == buf@ && t.loc_spec() == le32(buf@, 0)),
        !(4 <= buf@.len() && le32(buf@, 0) <= buf@.len()) ==> (r matches Err(e) && e
            == Error::OutOfBounds),
{
    let loc: usize = match read_forward_ref(buf, 0) {
        Ok(l) => l,
        Err(e) => {
            return Err(e);
        },
    };
    Ok(Table::init(buf, loc))
}

/// Reads the length-prefixed byte run (a string or scalar vector) that
/// starts at `loc`: a 32-bit length, then that many bytes.
pub fn read_byte_vector(buf: &[u8], loc: usize) -> (r: Result<&[u8], Error>)
    ensures
        loc + 4 <= buf@.len() && loc + 4 + le32(buf@, loc as int) <= buf@.len() ==> (r matches Ok(
            b,
        ) && b@ == buf@.subrange(loc + 4, loc + 4 + le32(buf@, loc as int))),
        !(loc + 4 <= buf@.len() && loc + 4 + le32(buf@, loc as int) <= buf@.len()) ==> (r
            matches Err(e) && e == Error::OutOfBounds),
{
    let n: u32 = match read_u32_le(buf, loc) {
        Ok(v) => v,
        Err(e) => {
            return Err(e);
        },
    };
    let nu: usize = n as usize;
    if nu > buf.len() - 4 || loc > buf.len() - 4 - nu {
        return Err(Error::OutOfBounds);
    }
    Ok(&buf[loc + 4..loc + 4 + nu])
}

} // verus!
