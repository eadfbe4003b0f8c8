[package]
name = "mud"
version = "0.1.0"
edition = "2021"
publish = false

[dependencies]
md5 = "*"
mime_guess = "*"
image = "*"
color-thief = "*"
lrc = "*"
uuid = { version = "*", features = ["v4"] }
lofty = "*"
glob = "*"
dirs = "*"
serde = { version = "*", features = ["derive"] }
axum = "*"
axum-extra = { version = "*", features = ["typed-header"] }
axum-range = "*"
tokio = { version = "*", features = ["macros", "rt-multi-thread", "net", "fs"] }
tower = "*"
tower-http = { version = "*", features = ["cors"] }
tracing = "*"
tracing-subscriber = "*"
socketioxide = "*"
