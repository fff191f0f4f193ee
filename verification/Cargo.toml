[package]
name = "imonitor"
version = "0.1.0"
edition = "2021"
publish = false

[dependencies]
chrono = "=0.4.45"
serde_json = "=1.0.151"
serde = { version = "=1.0.229", features = ["derive"] }
tokio = { version = "=1.53.2", features = ["full"] }
toml = "=1.1.6"
plist = "=1.10.1"
tar = "=0.4.46"
uuid = { version = "=1.27.0", features = ["v4"] }
idevice = { version = "=0.1.68", features = ["heartbeat", "crashreportcopymobile", "syslog_relay", "tcp"] }
