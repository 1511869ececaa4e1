[package]
name = "windowcast"
version = "0.1.0"
edition = "2021"
publish = false

[dependencies]
ed25519-dalek = { version = "=2.2.0", features = ["rand_core"] }
rand_core = { version = "=0.6.4", features = ["getrandom"] }
argon2 = "=0.5.3"
hkdf = "=0.12.4"
hmac = "=0.12.1"
sha2 = "=0.10.9"
spake2 = "=0.4.0"
zeroize = "=1.9.1"
rusty_paseto = "=0.7.2"
time = { version = "=0.3.55", features = ["formatting", "parsing"] }
serde = { version = "=1.0.229", features = ["derive"] }
serde_json = "=1.0.154"
bincode = "=1.3.3"
quick-xml = { version = "=0.42.0", features = ["serialize"] }
thiserror = "=1.0.69"
reqwest = { version = "=0.12.28", default-features = false }
tokio = { version = "=1.54.1", features = ["rt-multi-thread", "macros"] }
webrtc = "=0.12.0"
bytes = "=1.12.1"
wayland-client = "=0.31.15"
wayland-protocols-wlr = { version = "=0.3.12", features = ["client"] }
