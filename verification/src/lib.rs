//! MD5 message digests of byte streams, with the digest proved to be the one
//! that RFC 1321 defines.

pub mod lemmas;
pub mod md5;
pub mod spec;
pub mod theorems;
