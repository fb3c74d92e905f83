[package]
name = "networking"
version = "0.1.0"
edition = "2021"
publish = false

[dependencies]
bytemuck = { version = "=1.25.2", features = ["min_const_generics"] }
log = "0.4"
netwatcher = "0.6"
parking_lot = "0.12"
rand = "0.8"
tokio = { version = "1", default-features = false, features = ["macros", "net", "rt-multi-thread", "sync", "time"] }
tracing = "0.1"
zenoh = { version = "=1.7.2", default-features = false, features = ["internal", "plugins", "transport_tcp", "transport_udp", "unstable"] }
zenoh-plugin-storage-manager = { version = "=1.7.2", default-features = false }
zenoh-plugin-trait = { version = "=1.7.2", default-features = false }
