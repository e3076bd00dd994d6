//! Management of installable plugin bundles: manifest parsing, scanning and
//! classification of installed bundles, archive installation, removal, and the
//! single-slot notification state that reports outcomes.
use vstd::prelude::*;

pub mod archive;
pub mod manifest;
pub mod message;
pub mod plugin;
pub mod scan;
pub mod text;

verus! {

} // verus!
