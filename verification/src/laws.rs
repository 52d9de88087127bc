//! What the operations are for, seen from outside: each law relates what goes
//! into an operation to what comes out of it, for all inputs, in the terms of
//! texts, trees, refs and JSON members.

pub mod blob;
pub mod cache;
pub mod code;
pub mod errors;
pub mod listings;
pub mod log;
pub mod options;
pub mod refs;
pub mod requests;
pub mod revision;
pub mod search;
pub mod texts;
pub mod tree;
pub mod urls;
pub mod wire;
