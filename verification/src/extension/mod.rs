//! Hello extensions.

pub mod extension_use_srtp;
