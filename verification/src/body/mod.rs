//! Request bodies: payload headers, chunked framing, checksums and upload state.
use vstd::prelude::*;

pub mod aws_chunked;
pub mod checksum;
pub mod chunked_upload;
pub mod digests;
pub mod parser;
pub mod payload;
pub mod signed;
pub mod upload;

verus! {

} // verus!
