//! The disk scheduler: serializes all backing-store I/O, carries out each
//! request against the store, and delivers the outcome through a one-shot
//! completion channel. A read past the store's current end is handled
//! transparently as a read of an empty page.

use vstd::prelude::*;

use crate::config::PAGE_SIZE;
use crate::disk_manager::{
    covers_page, page_at, page_in_bounds, store_after_write, zero_page, DiskManager,
};
use crate::errors::ScheduleError;
use crate::oneshot::{channel, OneshotChannel, OneshotChannelReceiver};
use crate::page::PageId;

verus! {

/// What a completed request produced.
pub enum ScheduleOutcome {
    /// The bytes of the requested page, for a read request.
    ReadDone(Vec<u8>),
    /// A completed write request.
    WriteDone,
}

/// The result of one scheduled request, as delivered through its completion
/// channel.
pub type ScheduleResult = Result<ScheduleOutcome, ScheduleError>;

/// Whether `r` reports a successful read of exactly `bytes`.
pub open spec fn is_read_reply(r: ScheduleResult, bytes: Seq<u8>) -> bool {
    match r {
        Result::Ok(ScheduleOutcome::ReadDone(v)) => v@ == bytes,
        _ => false,
    }
}

/// Whether `r` reports a successful write.
pub open spec fn is_write_reply(r: ScheduleResult) -> bool {
    match r {
        Result::Ok(ScheduleOutcome::WriteDone) => true,
        _ => false,
    }
}

/// The receiving end of one request's completion channel. Waiting on it
/// yields the request's result exactly once.
pub struct Completion {
    chan: OneshotChannel<ScheduleResult>,
    receiver: OneshotChannelReceiver,
}

impl Completion {
    /// A completion is well-formed when its result has been deposited and
    /// nobody has taken it yet.
    pub closed spec fn wf(&self) -> bool {
        self.chan.spec_value() is Some && self.chan.receiver_live()
    }

    /// The result that waiting on this completion will yield.
    pub closed spec fn reply(&self) -> ScheduleResult {
        self.chan.spec_value()->0
    }

    /// Blocks until the request's result is delivered and returns it.
    pub fn recv(self) -> (r: ScheduleResult)
        requires
            self.wf(),
        ensures
            r == self.reply(),
    {
        let Completion { mut chan, receiver } = self;
        match receiver.recv(&mut chan) {
            Ok(r) => r,
            Err(_) => {
                proof {
                    assert(false);
                }
                Err(ScheduleError::Unknown)
            },
        }
    }
}

/// Serializes all backing-store I/O: requests are carried out one at a time,
/// in submission order, against the store the scheduler owns; nothing else
/// ever touches the store.
pub struct DiskScheduler {
    disk: DiskManager,
}

impl View for DiskScheduler {
    type V = Seq<u8>;

    /// The bytes of the backing store the scheduler owns.
    closed spec fn view(&self) -> Seq<u8> {
        self.disk@
    }
}

impl DiskScheduler {
    /// Starts a scheduler that owns the given backing store.
    pub fn new(disk: DiskManager) -> (r: DiskScheduler)
        ensures
            r@ == disk@,
    {
        DiskScheduler { disk }
    }

    /// Gives the backing store up, for persisting its bytes elsewhere.
    pub fn into_disk(self) -> (r: DiskManager)
        ensures
            r@ == self@,
    {
        self.disk
    }

    /// The backing store's current bytes.
    pub fn bytes(&self) -> (r: &Vec<u8>)
        ensures
            r@ == self@,
    {
        self.disk.bytes()
    }

    /// Submits a read of exactly one page at offset `page_id * PAGE_SIZE`.
    /// A read past the store's current end is treated as a read of an empty
    /// page: a zeroed page is written to the store at that offset and the
    /// read reports success with zeroed bytes. The result is delivered
    /// through the returned completion channel.
    pub fn schedule_read(&mut self, page_id: PageId) -> (c: Completion)
        requires
            page_in_bounds(page_id),
        ensures
            c.wf(),
            covers_page(old(self)@, page_id) ==> final(self)@ == old(self)@ && is_read_reply(
                c.reply(),
                page_at(old(self)@, page_id),
            ),
            !covers_page(old(self)@, page_id) ==> final(self)@ == store_after_write(
                old(self)@,
                page_id,
                zero_page(),
            ) && is_read_reply(c.reply(), zero_page()),
    {
        let (mut chan, sender, receiver) = channel::<ScheduleResult>();
        let bytes = self.disk.read_page(page_id);
        let sent = sender.send(&mut chan, Ok(ScheduleOutcome::ReadDone(bytes)));
        proof {
            assert(sent is Ok);
        }
        Completion { chan, receiver }
    }

    /// Submits a write of one page worth of bytes at offset
    /// `page_id * PAGE_SIZE`. The result is delivered through the returned
    /// completion channel.
    pub fn schedule_write(&mut self, page_id: PageId, data: &Vec<u8>) -> (c: Completion)
        requires
            page_in_bounds(page_id),
            data@.len() == PAGE_SIZE,
        ensures
            c.wf(),
            final(self)@ == store_after_write(old(self)@, page_id, data@),
            is_write_reply(c.reply()),
    {
        let (mut chan, sender, receiver) = channel::<ScheduleResult>();
        self.disk.write_page(page_id, data);
        let sent = sender.send(&mut chan, Ok(ScheduleOutcome::WriteDone));
        proof {
            assert(sent is Ok);
        }
        Completion { chan, receiver }
    }
}

} // verus!
