[package]
name = "discrete_event_simulator"
version = "0.1.0"
edition = "2021"
publish = false

[dependencies]
rand = "0.8"
uuid = { version = "1", features = ["v4"] }
fake = "2"
serde = { version = "1", features = ["derive"] }
serde_json = "1"
serde_with = "3"
plotters = { version = "0.3", default-features = false, features = ["bitmap_backend", "bitmap_encoder", "line_series", "ab_glyph"] }
crossterm = "0.27"
