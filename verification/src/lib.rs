use vstd::prelude::*;

pub mod admission;
pub mod auth;
pub mod body;
pub mod collections;
pub mod config;
pub mod credentials;
pub mod encoding;
pub mod error;
pub mod handlers;
pub mod hashing;
pub mod hooks;
pub mod http;
pub mod init;
pub mod middleware;
pub mod response;
pub mod s3;
pub mod signed_requests;
pub mod signing;
pub mod storage;
pub mod text;
pub mod time;

verus! {

} // verus!
