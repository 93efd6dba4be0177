[package]
name = "kubeowler"
version = "0.1.0"
edition = "2021"
publish = false

[dependencies]
anyhow = "=1.0.104"
base64 = "=0.23.1"
chrono = "=0.4.45"
clap = { version = "=4.6.7", features = ["derive"] }
colored = "=3.1.1"
comrak = "=0.56.0"
env_logger = "=0.11.11"
http = "=1.5.0"
k8s-openapi = { version = "=0.27.1", features = ["latest"] }
kube = "=3.1.0"
log = "=0.4.34"
rand = "=0.10.3"
serde = { version = "=1.0.229", features = ["derive"] }
serde_json = "=1.0.151"
time = "=0.3.55"
tokio = { version = "=1.53.2", features = ["macros", "rt-multi-thread", "time"] }
uuid = { version = "=1.27.0", features = ["v4"] }
x509-parser = "=0.18.1"
