//! Stored objects and multipart uploads.
use vstd::prelude::*;

pub mod checksum;
pub mod commit;
pub mod complete_checksum;
pub mod completion;
pub mod error;
pub mod files;
pub mod model;
pub mod multipart;
pub mod object;
pub mod part_commit;
pub mod part_files;
pub mod publication;
pub mod sessions;
pub mod staged;
pub mod stored;

verus! {

} // verus!
