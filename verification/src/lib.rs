//! Nullbyte: the verified core of a libretro emulation frontend — input mapping,
//! pixel conversion, PNG preview encoding, ROM metadata helpers and scraper logic.

pub mod archive;
pub mod audio;
pub mod checksum;
pub mod commands;
pub mod emulation;
pub mod db;
pub mod error;
pub mod input;
pub mod ipc;
pub mod library;
pub mod pathname;
pub mod paths;
pub mod scraper;
pub mod text;
pub mod video;
