[package]
name = "jq-ble"
version = "0.1.0"
edition = "2021"
publish = false

[dependencies]
blew = "*"
bytes = "1"
futures-core = "0.3"
futures-util = "0.3"
hex = "0.4"
jacquard-adapter = "*"
jacquard-cast-support = "*"
jacquard-core = "*"
jacquard-host-support = "*"
jacquard-mem-link-profile = "*"
jacquard-mem-node-profile = "*"
jacquard-mercator = "*"
jacquard-router = "*"
jacquard-traits = "*"
serde = { version = "1", features = ["derive"] }
thiserror = "2"
tokio = { version = "1", features = ["full"] }
tokio-stream = { version = "0.1", features = ["sync"] }
tokio-util = { version = "0.7", features = ["codec"] }
uuid = "1"

[dev-dependencies]
jacquard-reference-client = "*"
jacquard-testkit = "*"
