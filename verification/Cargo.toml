[package]
name = "data_transform"
version = "0.1.0"
edition = "2021"
publish = false

[dependencies]
polars = { version = "*", default-features = false, features = ["csv", "json", "parquet", "fmt"] }
regex = "1"
clap = { version = "4", features = ["derive"] }
colored = "*"
rustyline = "*"
thiserror = "*"
