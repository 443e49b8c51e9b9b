//! The library database: its rows and the queries' rules.

pub mod models;
pub mod games;
