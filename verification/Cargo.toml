[package]
name = "eth_tx_util"
version = "0.1.0"
edition = "2021"
publish = false

[dependencies]
ethereum-types = "=0.11.0"
ethsign = "=0.9.0"
rlp = "=0.5.2"
rustc-hex = "=2.1.0"
serde_json = "=1.0.154"
tiny-keccak = { version = "=2.0.2", features = ["keccak"] }
structopt = "=0.3.26"
env_logger = "=0.11.11"
rpassword = "=7.5.4"
tokio = { version = "=1.54.1", features = ["rt", "rt-multi-thread"] }
web3 = { version = "=0.19.0", default-features = false, features = ["http"] }

[dev-dependencies]
ethereum-transaction = "=0.6.0"
