//! Core of a disk-backed page cache: a fixed pool of in-memory frames with a
//! page table and pin accounting, an LRU-K eviction policy, a scheduler that
//! serializes page I/O against a byte-addressed backing store, and a one-shot
//! completion channel.

pub mod buffer_pool;
pub mod config;
pub mod database;
pub mod disk_manager;
pub mod disk_scheduler;
pub mod errors;
pub mod eviction;
pub mod frame;
pub mod lruk_eviction;
pub mod oneshot;
pub mod page;
