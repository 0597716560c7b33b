[package]
name = "gammon"
version = "0.1.0"
edition = "2021"
publish = false

[dependencies]
serde = { version = "1", features = ["derive"] }
serde_json = "1"
chrono = { version = "0.4", features = ["serde"] }
good-ormning-runtime = { version = "*", features = ["sqlite"] }
tokio = { version = "1", features = ["rt", "net", "time", "macros"] }
htwrap = "*"
http = "1"
http-body-util = "*"
loga = "*"
flowcontrol = "*"
native-windows-gui = "*"
native-windows-derive = "*"
