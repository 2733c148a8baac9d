[package]
name = "cosmic-order"
version = "0.1.0"
edition = "2021"
publish = false

[dependencies]
clap = { version = "4", features = ["derive"] }
serde = { version = "1", features = ["derive"] }
serde_json = "1"
toml = "*"
ron = "*"
directories = "*"
tokio = { version = "1", features = ["rt-multi-thread", "fs", "process", "time", "macros"] }
zbus = { version = "*", default-features = false, features = ["tokio"] }
image = "*"
reqwest = { version = "*", default-features = false }
tempfile = "3"
once_cell = "1"
thiserror = "*"
tracing = "0.1"
tracing-subscriber = { version = "0.3", features = ["env-filter"] }
wayland-client = "*"
wayland-protocols = { version = "*", features = ["client", "staging"] }
i18n-embed = { version = "*", features = ["fluent-system", "desktop-requester"] }
i18n-embed-fl = "*"
rust-embed = "*"
