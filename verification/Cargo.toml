[package]
name = "geotop"
version = "0.1.0"
edition = "2021"
publish = false

[dependencies]
anyhow = "=1.0.104"
arc-swap = "=1.9.3"
chrono = { version = "=0.4.45", default-features = false, features = ["clock", "std"] }
clap = { version = "=4.6.7", default-features = false, features = ["std", "derive", "env", "help", "usage", "error-context"] }
crossterm = { version = "=0.29.0", default-features = false, features = ["events"] }
dashmap = "=6.2.1"
directories = "=6.0.0"
futures-util = { version = "=0.3.34", default-features = false, features = ["std"] }
geojson = { version = "=1.0.0", default-features = false }
image = { version = "=0.25.10", default-features = false }
ip2location = "=0.6.1"
lru = "=0.16.4"
notify = "=8.2.1"
notify-debouncer-mini = "=0.7.0"
parking_lot = "=0.12.5"
pnet = "=0.35.0"
ratatui = { version = "=0.30.2", default-features = false, features = ["crossterm", "layout-cache"] }
ratatui-image = { version = "=11.1.0", default-features = false, features = ["crossterm"] }
reqwest = { version = "=0.12.28", default-features = false, features = ["stream", "rustls-tls"] }
resvg = { version = "=0.45.1", default-features = false }
serde = { version = "=1.0.229", features = ["derive"] }
serde_json = "=1.0.154"
tokio = { version = "=1.54.1", features = ["rt-multi-thread", "macros", "sync", "fs", "time", "io-util"] }
tokio-util = "=0.7.20"
tracing = "=0.1.44"
tracing-subscriber = { version = "=0.3.23", default-features = false, features = ["fmt", "env-filter"] }
webbrowser = "1"
zip = { version = "=7.4.0", default-features = false, features = ["deflate"] }

[dev-dependencies]
regex = "=1.13.1"
