[package]
name = "easyto_init"
version = "0.1.0"
edition = "2021"
publish = false

[dependencies]
anyhow = "=1.0.104"
base64 = "=0.22.1"
blkpg = "=0.2.0"
chrono = { version = "=0.4.45", features = ["serde"] }
crossbeam = "=0.8.5"
dhcproto = "=0.15.0"
futures = "=0.3.34"
gpt = "=4.1.0"
k8s-expand = "=0.1.0"
log = "=0.4.34"
netlink-packet-route = "=0.33.0"
nvme-amz = { version = "=0.4.0", features = ["ioctl-rustix"] }
once_cell = "=1.21.4"
rand = "=0.9.5"
rtnetlink = "=0.23.0"
rustix = { version = "=1.1.5", features = ["fs", "mount", "net", "process", "runtime", "system", "thread"] }
serde = { version = "=1.0.229", features = ["derive"] }
serde_json = "=1.0.154"
serde_yaml2 = "=0.1.3"
signal-hook = "=0.3.18"
socket2 = { version = "=0.6.5", features = ["all"] }
tokio = { version = "=1.54.1", features = ["rt", "rt-multi-thread", "time"] }
