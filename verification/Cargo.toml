[package]
name = "dioxus_lints"
version = "0.1.0"
edition = "2021"
publish = false

[dependencies]
heck = "0.5"
minijinja = { version = "2", features = ["serde"] }
proc-macro2 = { version = "1", features = ["span-locations"] }
quote = "1"
schemars = { version = "1", features = ["derive"] }
serde = { version = "1", features = ["derive"] }
serde_json = "1"
syn = { version = "2", features = ["full", "extra-traits"] }
time = { version = "0.3", features = ["formatting", "parsing"] }
tokio = { version = "1", features = ["macros", "rt", "sync"] }
walkdir = "2"
