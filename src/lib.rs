//! Counting the markdown files among the immediate entries of a directory.
//!
//! The library decides; the caller reads the filesystem. A directory
//! listing reaches the library as the raw bytes of each entry's name, and
//! the library takes each name's extension, keeps those that are exactly
//! `md` or `markdown`, and reports the count or the reason the scan failed.
use vstd::prelude::*;

pub mod extension;
pub mod laws;
pub mod scan;

verus! {

} // verus!
