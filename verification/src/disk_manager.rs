//! The backing store: a byte-addressed, in-memory store laid out as the
//! concatenation of fixed-size pages, with reads past the current end
//! extending the store with a zeroed page.

use vstd::prelude::*;

use crate::config::PAGE_SIZE;
use crate::page::PageId;

verus! {

/// The byte offset at which a page begins in the store.
pub open spec fn page_offset(page_id: PageId) -> int {
    page_id as int * PAGE_SIZE as int
}

/// Whether a page's byte range can be addressed on this machine at all.
pub open spec fn page_in_bounds(page_id: PageId) -> bool {
    page_offset(page_id) + PAGE_SIZE <= usize::MAX
}

/// Whether the store already extends past the end of the page's byte range.
pub open spec fn covers_page(s: Seq<u8>, page_id: PageId) -> bool {
    page_offset(page_id) + PAGE_SIZE <= s.len()
}

/// The bytes of one page of the store.
pub open spec fn page_at(s: Seq<u8>, page_id: PageId) -> Seq<u8> {
    s.subrange(page_offset(page_id), page_offset(page_id) + PAGE_SIZE)
}

/// One page worth of zero bytes.
pub open spec fn zero_page() -> Seq<u8> {
    Seq::new(PAGE_SIZE as nat, |i: int| 0u8)
}

/// The store after writing one page at its offset: the page's byte range
/// holds `bytes`, everything else is kept, and any gap opened between the
/// old end and the page is filled with zeros.
pub open spec fn store_after_write(s: Seq<u8>, page_id: PageId, bytes: Seq<u8>) -> Seq<u8> {
    let off = page_offset(page_id);
    let n = if off + PAGE_SIZE <= s.len() {
        s.len() as int
    } else {
        off + PAGE_SIZE
    };
    Seq::new(
        n as nat,
        |i: int|
            if off <= i < off + PAGE_SIZE {
                bytes[i - off]
            } else if i < s.len() {
                s[i]
            } else {
                0u8
            },
    )
}

/// Writing a page and reading it back yields the same bytes.
pub proof fn lemma_page_round_trip(s: Seq<u8>, page_id: PageId, bytes: Seq<u8>)
    requires
        bytes.len() == PAGE_SIZE,
    ensures
        covers_page(store_after_write(s, page_id, bytes), page_id),
        page_at(store_after_write(s, page_id, bytes), page_id) == bytes,
{
    assert(page_at(store_after_write(s, page_id, bytes), page_id) =~= bytes);
}

/// Writing one page leaves every other page of the store unchanged.
pub proof fn lemma_write_preserves_other_pages(
    s: Seq<u8>,
    page_id: PageId,
    bytes: Seq<u8>,
    other: PageId,
)
    requires
        bytes.len() == PAGE_SIZE,
        other != page_id,
        covers_page(s, other),
    ensures
        covers_page(store_after_write(s, page_id, bytes), other),
        page_at(store_after_write(s, page_id, bytes), other) == page_at(s, other),
{
    assert(page_offset(other) + PAGE_SIZE <= page_offset(page_id) || page_offset(page_id)
        + PAGE_SIZE <= page_offset(other)) by (nonlinear_arith)
        requires
            other != page_id,
    ;
    assert(page_at(store_after_write(s, page_id, bytes), other) =~= page_at(s, other));
}

/// The byte offset at which a page begins in the backing store; the mapping
/// from page id to offset is structural, with no indirection table.
pub fn page_id_to_file_offset(id: PageId) -> (r: u64)
    ensures
        r == page_offset(id),
{
    proof {
        assert((id as int) * (PAGE_SIZE as int) <= (u32::MAX as int) * (PAGE_SIZE as int))
            by (nonlinear_arith)
            requires
                id <= u32::MAX,
        ;
    }
    id as u64 * PAGE_SIZE as u64
}

/// The byte-addressed backing store. The on-disk format is the concatenation
/// of fixed-size pages; there is no header, footer or checksum.
pub struct DiskManager {
    data: Vec<u8>,
}

impl View for DiskManager {
    type V = Seq<u8>;

    closed spec fn view(&self) -> Seq<u8> {
        self.data@
    }
}

impl DiskManager {
    /// Opens a store over the given initial bytes.
    pub fn new(data: Vec<u8>) -> (r: DiskManager)
        ensures
            r@ == data@,
    {
        DiskManager { data }
    }

    /// The store's current bytes, for persisting them elsewhere.
    pub fn bytes(&self) -> (r: &Vec<u8>)
        ensures
            r@ == self@,
    {
        &self.data
    }

    /// Writes one page worth of bytes at the page's offset, zero-filling any
    /// gap between the store's old end and the page.
    pub fn write_page(&mut self, page_id: PageId, bytes: &Vec<u8>)
        requires
            page_in_bounds(page_id),
            bytes@.len() == PAGE_SIZE,
        ensures
            final(self)@ == store_after_write(old(self)@, page_id, bytes@),
    {
        let ghost orig = self.data@;
        let off: usize = (page_id as usize) * PAGE_SIZE;
        while self.data.len() < off + PAGE_SIZE
            invariant
                off == page_offset(page_id),
                off + PAGE_SIZE <= usize::MAX,
                self.data@.len() >= orig.len(),
                self.data@.len() == orig.len() || self.data@.len() <= off + PAGE_SIZE,
                forall|i: int| 0 <= i < orig.len() ==> self.data@[i] == orig[i],
                forall|i: int| orig.len() <= i < self.data@.len() ==> self.data@[i] == 0u8,
            decreases off + PAGE_SIZE - self.data@.len(),
        {
            self.data.push(0u8);
        }
        let mut i: usize = 0;
        while i < PAGE_SIZE
            invariant
                off == page_offset(page_id),
                0 <= i <= PAGE_SIZE,
                off + PAGE_SIZE <= self.data@.len(),
                bytes@.len() == PAGE_SIZE,
                self.data@.len() >= orig.len(),
                self.data@.len() == if orig.len() >= off + PAGE_SIZE {
                    orig.len() as int
                } else {
                    off + PAGE_SIZE
                },
                forall|j: int| 0 <= j < orig.len() && !(off <= j < off + i) ==> self.data@[j]
                    == orig[j],
                forall|j: int| orig.len() <= j < self.data@.len() && !(off <= j < off + i)
                    ==> self.data@[j] == 0u8,
                forall|j: int| off <= j < off + i ==> self.data@[j] == bytes@[j - off],
            decreases PAGE_SIZE - i,
        {
            self.data[off + i] = bytes[i];
            i = i + 1;
        }
        proof {
            assert(self.data@ =~= store_after_write(orig, page_id, bytes@));
        }
    }

    /// Reads one page worth of bytes at the page's offset. A read past the
    /// store's current end is treated as a read of an empty page: a zeroed
    /// page is written to the store at that offset and returned.
    pub fn read_page(&mut self, page_id: PageId) -> (r: Vec<u8>)
        requires
            page_in_bounds(page_id),
        ensures
            r@.len() == PAGE_SIZE,
            covers_page(old(self)@, page_id) ==> final(self)@ == old(self)@ && r@ == page_at(
                old(self)@,
                page_id,
            ),
            !covers_page(old(self)@, page_id) ==> r@ == zero_page() && final(self)@
                == store_after_write(old(self)@, page_id, zero_page()),
    {
        let off: usize = (page_id as usize) * PAGE_SIZE;
        if PAGE_SIZE <= self.data.len() && off <= self.data.len() - PAGE_SIZE {
            let mut out: Vec<u8> = Vec::with_capacity(PAGE_SIZE);
            let mut i: usize = 0;
            while i < PAGE_SIZE
                invariant
                    off == page_offset(page_id),
                    0 <= i <= PAGE_SIZE,
                    off + PAGE_SIZE <= self.data@.len(),
                    out@.len() == i,
                    forall|j: int| 0 <= j < i ==> out@[j] == self.data@[off + j],
                decreases PAGE_SIZE - i,
            {
                out.push(self.data[off + i]);
                i = i + 1;
            }
            proof {
                assert(out@ =~= page_at(self.data@, page_id));
            }
            out
        } else {
            let mut zeros: Vec<u8> = Vec::with_capacity(PAGE_SIZE);
            let mut i: usize = 0;
            while i < PAGE_SIZE
                invariant
                    0 <= i <= PAGE_SIZE,
                    zeros@.len() == i,
                    forall|j: int| 0 <= j < i ==> zeros@[j] == 0u8,
                decreases PAGE_SIZE - i,
            {
                zeros.push(0u8);
                i = i + 1;
            }
            proof {
                assert(zeros@ =~= zero_page());
            }
            self.write_page(page_id, &zeros);
            zeros
        }
    }
}

} // verus!
