[package]
name = "kube_subcontroller"
version = "0.1.0"
edition = "2021"
publish = false

[dependencies]
futures = "*"
k8s-openapi = { version = "*", features = ["latest"] }
kube-client = "*"
kube-core = "*"
kube-runtime = "*"
log = "*"
serde = "*"
tokio = { version = "*", features = ["full"] }
tokio-util = { version = "*", features = ["rt"] }
