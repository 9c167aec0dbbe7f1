[package]
name = "subniri"
version = "0.1.0"
edition = "2021"
publish = false

[dependencies]
url = "=2.5.8"
jiff = "=0.2.39"
zbus = "=5.19.0"
chrono = { version = "=0.4.45", default-features = false, features = ["std"] }
uuid = { version = "=1.29.0", features = ["v4"] }
kdl = "=6.7.1"
notify = "=8.2.1"
undo = "=0.52.0"
serde_json = "=1.0.154"
lru = "=0.19.0"
zbus_xml = "=5.2.1"
niri-ipc = "*"
