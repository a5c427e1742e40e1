//! Key-value separation over two append-only log groups.
//!
//! A write appends the key and value bytes, back to back, to the value log,
//! then appends a fixed-width record describing where they landed to the
//! meta log. Reading and writing the log files happens outside this library;
//! it decides what is appended where, in what order, and what each record
//! holds, and where a log group places each append.
pub mod record;
pub mod store;
pub mod laws;
pub mod group;
