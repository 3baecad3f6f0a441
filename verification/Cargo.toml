[package]
name = "peerwatch"
version = "0.1.0"
edition = "2021"
publish = false

[dependencies]
anyhow = "=1.0.104"
bao-tree = { version = "=0.17.0", default-features = false }
bytemuck = "1"
data-encoding = "=2.11.1"
iroh = { version = "=1.4.1", default-features = false, features = ["tls-ring"] }
iroh-blobs = { version = "=0.104.0", default-features = false }
iroh-gossip = { version = "=0.101.0", default-features = false, features = ["net"] }
iroh-tickets = "=1.0.0"
n0-future = "=0.3.2"
postcard = { version = "=1.1.3", features = ["use-std"] }
rand = "=0.10.3"
ringbuf = "=0.4.8"
serde = { version = "=1.0.229", features = ["derive"] }
serde_json = "=1.0.154"
sha2 = "=0.11.1"
tokio = { version = "=1.54.1", features = ["rt-multi-thread"] }
tracing = "=0.1.44"
tracing-subscriber = { version = "=0.3.23", features = ["env-filter"] }
