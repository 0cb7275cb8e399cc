//! Decoding and validation of the binary layout of Java class files.
//!
//! The core of the crate is the constant-pool model: a tag-dispatched decoder
//! producing one of thirteen constant variants, and a cross-reference
//! validator that certifies every symbolic reference among the decoded
//! constants as well-typed. Around the pool, a class assembler reads the
//! surrounding version, access-flag, field, method and attribute records.
//! All input is consumed strictly forward from an in-memory byte stream;
//! the caller is responsible for obtaining the bytes.

pub mod access_flags;
pub mod attribute;
pub mod big_endian;
pub mod class;
pub mod constant_pool;
pub mod field;
pub mod method;
pub mod reader;
