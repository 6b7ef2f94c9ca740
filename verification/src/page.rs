//! Page identifiers and a read-only view of the slotted page layout.

use vstd::prelude::*;

use crate::config::PAGE_SIZE;

verus! {

/// A non-negative integer naming a page; also its offset-index in the
/// backing store: page `i` occupies bytes `[i * PAGE_SIZE, (i + 1) * PAGE_SIZE)`.
pub type PageId = u32;

/// Each slot is a 16-bit big-endian offset followed by a 16-bit big-endian length.
pub const SLOTTED_PAGE_SLOT_SIZE: usize = 4;

/// The big-endian 16-bit integer stored at byte position `i` of `s`.
pub open spec fn be16(s: Seq<u8>, i: int) -> int {
    s[i] * 256 + s[i + 1]
}

/// A raw tuple: a run of bytes inside a page, to be interpreted by a schema.
pub struct Tuple<'a> {
    data: &'a [u8],
}

impl<'a> View for Tuple<'a> {
    type V = Seq<u8>;

    closed spec fn view(&self) -> Seq<u8> {
        self.data@
    }
}

impl<'a> Tuple<'a> {
    /// Wraps a run of bytes as a tuple.
    pub fn from(data: &'a [u8]) -> (r: Tuple<'a>)
        ensures
            r@ == data@,
    {
        Tuple { data }
    }

    /// The tuple's bytes.
    pub fn bytes(&self) -> (r: &'a [u8])
        ensures
            r@ == self@,
    {
        self.data
    }
}

/// A read-only view of one page laid out as a slotted page: an array of
/// slots at the front, each naming the offset and length of one tuple.
pub struct SlottedPage<'a> {
    data: &'a [u8],
}

impl<'a> View for SlottedPage<'a> {
    type V = Seq<u8>;

    closed spec fn view(&self) -> Seq<u8> {
        self.data@
    }
}

impl<'a> SlottedPage<'a> {
    /// Wraps one page worth of bytes.
    pub fn new(data: &'a [u8]) -> (r: SlottedPage<'a>)
        requires
            data@.len() == PAGE_SIZE,
        ensures
            r@ == data@,
    {
        SlottedPage { data }
    }

    /// Looks up the slot array for the given slot number and returns the
    /// tuple bytes that the slot names; `None` when the slot number lies
    /// outside the page or the slot reports a range past the page's end.
    pub fn get_n_tuple(self, n: usize) -> (r: Option<Tuple<'a>>)
        requires
            self@.len() == PAGE_SIZE,
        ensures
            match r {
                Option::Some(t) => {
                    let off = be16(self@, SLOTTED_PAGE_SLOT_SIZE * n);
                    let len = be16(self@, SLOTTED_PAGE_SLOT_SIZE * n + 2);
                    &&& SLOTTED_PAGE_SLOT_SIZE * n + SLOTTED_PAGE_SLOT_SIZE <= PAGE_SIZE
                    &&& off + len <= PAGE_SIZE
                    &&& t@ == self@.subrange(off, off + len)
                },
                Option::None => SLOTTED_PAGE_SLOT_SIZE * n + SLOTTED_PAGE_SLOT_SIZE > PAGE_SIZE
                    || be16(self@, SLOTTED_PAGE_SLOT_SIZE * n) + be16(
                    self@,
                    SLOTTED_PAGE_SLOT_SIZE * n + 2,
                ) > PAGE_SIZE,
            },
    {
        if n > (PAGE_SIZE - SLOTTED_PAGE_SLOT_SIZE) / SLOTTED_PAGE_SLOT_SIZE {
            return None;
        }
        let slot_offset = n * SLOTTED_PAGE_SLOT_SIZE;
        let offset = (self.data[slot_offset] as usize) * 256 + (self.data[slot_offset + 1]
            as usize);
        let length = (self.data[slot_offset + 2] as usize) * 256 + (self.data[slot_offset + 3]
            as usize);
        if offset > PAGE_SIZE || length > PAGE_SIZE - offset {
            return None;
        }
        Some(Tuple::from(&self.data[offset..offset + length]))
    }
}

} // verus!
