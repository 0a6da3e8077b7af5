[package]
name = "vmdesk"
version = "1.0.0"
edition = "2021"
publish = false

[dependencies]
anyhow = "1"
async-trait = "0.1"
axum = { version = "0.8", default-features = false, features = ["http1", "json", "tokio"] }
bytes = "1"
clap = { version = "4", default-features = false, features = ["derive", "std", "help", "usage", "error-context"] }
drm = "0.14"
drm-ffi = "0.9"
evdev = "0.13"
if-addrs = "0.15"
libc = "0.2"
log = { version = "0.4", features = ["std"] }
memmap2 = "0.9"
openh264 = "0.9"
openh264-sys2 = "0.9"
png = "0.18"
rayon = "1"
reqwest = { version = "0.13", default-features = false, features = ["json"] }
rtc = "0.21"
serde = { version = "1", features = ["derive"] }
serde_json = "1"
softbuffer = { version = "0.4", default-features = false, features = ["x11", "x11-dlopen"] }
tokio = { version = "1", default-features = false, features = ["rt-multi-thread", "macros", "sync", "time", "net", "signal"] }
toml = "0.9"
tracing = "0.1"
tracing-log = "0.2"
tracing-subscriber = { version = "0.3", features = ["env-filter"] }
webrtc = "0.21"
winit = { version = "0.30", default-features = false, features = ["rwh_06", "x11"] }
xxhash-rust = { version = "0.8", features = ["xxh3"] }
