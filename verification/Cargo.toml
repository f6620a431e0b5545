[package]
name = "lux"
version = "0.1.0"
edition = "2021"
publish = false

[dependencies]
cranelift-codegen = "=0.129.2"
cranelift-frontend = "=0.129.2"
cranelift-module = "=0.129.2"
cranelift-native = "=0.129.2"
cranelift-object = "=0.129.2"
serde_json = "=1.0.154"
ureq = { version = "=2.12.1", default-features = false, features = ["json"] }
