[package]
name = "kube_resources"
version = "0.1.0"
edition = "2021"
publish = false

[dependencies]
bpaf = { version = "0.7", features = ["derive"] }
hyper = { version = "0.14", features = ["client", "http1", "tcp"] }
k8s-openapi = { version = "0.20", features = ["v1_28"] }
kube = { version = "0.87", default-features = false, features = ["client", "openssl-tls", "rustls-tls"] }
serde = { version = "1", features = ["derive"] }
tabled = "0.10"
tokio = { version = "1", features = ["macros", "rt-multi-thread"] }
tower = "0.4"
