//! A small paste store: short numeric keys handed out by random probing, and
//! records that count how often they were fetched.

pub mod codec;
pub mod error;
pub mod keys;
pub mod laws;
pub mod paste;
pub mod store;
pub mod utils;
