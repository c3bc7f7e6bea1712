//! Google sign-in.

pub mod drive;
