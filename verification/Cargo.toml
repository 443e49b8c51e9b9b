[package]
name = "nullbyte"
version = "0.1.0"
edition = "2021"
publish = false

[dependencies]
crc32fast = "1"
md-5 = "0.10"
sha1 = "0.10"
serde = { version = "1", features = ["derive"] }
serde_json = "1"
rusqlite = { version = "0.32", features = ["bundled"] }
zip = { version = "2", default-features = false, features = ["deflate"] }
sevenz-rust = "0.6"
walkdir = "2"
dotenvy = "0.15"
rtrb = "0.3"
rubato = "0.15"
libloading = "0.8"
tracing = "0.1"
thiserror = "1"

[dev-dependencies]
png = "0.17"
