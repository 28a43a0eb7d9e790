//! The scanners: what each makes of what it reads. Walking directories,
//! reading files and talking to TLS endpoints is left to the caller.

pub mod cert;
pub mod cert_store;
pub mod codebase;
pub mod patterns;
pub mod tls;
