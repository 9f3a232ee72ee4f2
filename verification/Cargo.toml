[package]
name = "rusterm_panels"
version = "0.1.0"
edition = "2021"
publish = false

[dependencies]
chrono = "=0.4.45"
regex = "=1.13.1"
serde_json = "=1.0.154"
uuid = { version = "=1.29.0", features = ["v4"] }
dioxus = { version = "=0.7.10", default-features = false, features = ["macro", "html", "signals", "hooks", "document", "launch"] }
tokio = { version = "=1.54.1", features = ["time", "fs"] }
dirs = "=7.0.0"
tracing = "0.1"
rfd = { version = "=0.17.2", default-features = false, features = ["xdg-portal"] }
