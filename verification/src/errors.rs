use vstd::prelude::*;

verus! {

/// Error returned when receiving on a one-shot channel fails.
#[derive(Debug, PartialEq, Eq)]
pub enum ReceiveError {
    /// The sender was dropped before depositing a value.
    Closed,
    /// Any other failure while waiting for the value.
    Other(String),
}

/// Error returned when sending on a one-shot channel fails.
#[derive(Debug, PartialEq, Eq)]
pub enum SendError {
    /// The receiver was dropped before the value could be delivered.
    Closed,
    /// Any other failure while delivering the value.
    Other(String),
}

/// Error produced by the disk scheduler while carrying out a request.
#[derive(Debug, PartialEq, Eq)]
pub enum ScheduleError {
    /// The backing store failed during a read or a write.
    IOError(String),
    /// A short read that could not be handled as an empty page.
    UnexpectedEof,
    /// Any other failure.
    Unknown,
}

/// Error surfaced by the buffer pool to its callers.
#[derive(Debug, PartialEq, Eq)]
pub enum BufferPoolError {
    /// The buffer pool is full and cannot accommodate more pages.
    BufferPoolFull,
    /// The requested page is not found in the buffer pool.
    PageNotFound,
    /// The requested page is dirty and cannot be evicted.
    PageDirty,
    /// The requested page is not pinned.
    PageNotPinned,
    /// Derived error from the scheduler.
    SchedulerError(ScheduleError),
}

} // verus!
