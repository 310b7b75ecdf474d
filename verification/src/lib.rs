//! A personal photo-library server's background media-transcoding
//! subsystem, with its behaviour stated in contracts and verified.
//!
//! The library holds everything that decides: how file names map to
//! identity keys, which files count as video work, the scan diff between
//! the source and publish trees, the watch phase's event handling, the
//! job queue's exactly-once delivery, the HDR/SDR classification of probe
//! output, and the exact argument lists and publish/discard rules of an
//! encoder invocation. The unverified binary around it walks and watches
//! directories, runs the external probe and encoder processes, and moves
//! files, feeding every outcome back in as plain values.

use vstd::prelude::*;

pub mod db;
pub mod paths;
pub mod queue;
pub mod settings;
pub mod transcoder;

verus! {

} // verus!
