//! Keeps a local directory and a remote mirror of it in agreement: digests of
//! whole trees, a three-way decision against the last agreed digest, and the
//! plans for replacing one side by the other.

pub mod error;
pub mod hashsum;
pub mod dirhash;
pub mod config;
pub mod sync;
pub mod operations;
pub mod run;
