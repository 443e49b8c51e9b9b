//! The ROM library: identity hashes and the rules of a directory scan.

pub mod hasher;
pub mod scanner;
