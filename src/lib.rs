//! Extraction of an owner's video links from saved pages, and the
//! retry policy that drives the external downloader for each link.
use vstd::prelude::*;

pub mod download;
pub mod extract;
pub mod pipeline;

verus! {

} // verus!
