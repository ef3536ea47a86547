[package]
name = "corporate-nayose"
version = "0.1.0"
edition = "2021"
publish = false

[dependencies]
polars = { version = "*", features = ["lazy", "csv", "parquet", "strings", "temporal", "dtype-date"] }
clap = { version = "*", features = ["derive"] }
