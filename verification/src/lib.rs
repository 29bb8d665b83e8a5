//! A verified core for a small CRUD backend: compiling untrusted filter
//! requests into predicate trees over whitelisted columns, resolving sort
//! requests, computing pagination windows and range headers, merging
//! tri-state partial updates, and an in-memory event store that ties the
//! pieces together. HTTP transport and the relational storage engine live
//! outside this crate; they exchange plain values with it.

pub mod decode;
pub mod events;
pub mod filter;
pub mod models;
pub mod pagination;
pub mod sort;
pub mod store;
pub mod text;
