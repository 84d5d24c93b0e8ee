[package]
name = "fallow"
version = "0.1.0"
edition = "2021"
publish = false

[dependencies]
regex = "=1.13.1"
fixedbitset = "=0.5.7"
globset = "=0.4.21"
serde = { version = "=1.0.229", features = ["derive"] }
serde_json = "=1.0.154"
bincode = "=1.3.3"
clap = { version = "=4.6.7", features = ["derive"] }
notify-debouncer-mini = "=0.7.0"
ignore = "=0.4.34"
tower-lsp = "0.20"
tokio = { version = "1", features = ["rt-multi-thread", "io-std", "macros", "sync"] }
