[package]
name = "dataloader"
version = "0.1.0"
edition = "2021"
publish = false

[dependencies]
chrono = "0.4"
chrono-tz = "*"
polars = { version = "*", default-features = false, features = ["lazy", "parquet", "dtype-datetime", "dynamic_group_by"] }
serde = { version = "1", features = ["derive"] }
serde_json = "1"
anyhow = "1"
