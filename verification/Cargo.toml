[package]
name = "typst_preview"
version = "0.1.0"
edition = "2021"
publish = false

[dependencies]
clap = { version = "=4.6.7", features = ["derive", "env"] }
comemo = "=0.4.0"
futures = "=0.3.34"
log = "=0.4.34"
once_cell = "=1.21.4"
serde = { version = "=1.0.229", features = ["derive"] }
serde_json = "=1.0.154"
tokio = { version = "=1.54.1", features = ["full"] }
tokio-tungstenite = "=0.21.0"
typst = "=0.11.1"
typst-ide = "=0.11.1"
typst-ts-core = { version = "=0.4.2-rc9", features = ["no-content-hint"] }
typst-ts-svg-exporter = { version = "=0.4.2-rc9", features = ["no-content-hint"] }
