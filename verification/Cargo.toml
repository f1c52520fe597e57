[package]
name = "berg_compiler"
version = "0.1.0"
edition = "2021"
publish = false

[dependencies]
num = "=0.4.3"
fnv = "=1.0.7"
string-interner = "0.7"
docopt = "=1.1.1"
serde = { version = "=1.0.229", features = ["derive"] }
serde_derive = "=1.0.229"
env_logger = "=0.11.11"
