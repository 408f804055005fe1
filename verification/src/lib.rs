//! Building blocks of a producer that turns a compressed crawl index into
//! batches of English-language records for a work queue.
//!
//! The producer fetches an index of paths, takes the first path that leads
//! to an index file, fetches that file, reads one record from each of its
//! lines, keeps the records of pages in English, cuts them into batches and
//! publishes each batch as one message. The requests and the traffic with
//! the broker are the caller's; what is decided and computed in between is
//! here.

pub mod batch;
pub mod cdx;
pub mod encode;
pub mod fetch;
pub mod json;
pub mod paths;
pub mod publisher;
pub mod text;
