//! An encrypted local store of provider credentials.
//!
//! The verified library holds the mapping of provider names to credentials,
//! the authenticated cipher over its serialised form, the custody of the
//! master key, and the read-modify-write protocol of the store. The files of
//! the configuration directory reach it as plain values.

pub mod cipher;
pub mod custody;
pub mod mapping;
pub mod store;
