[package]
name = "teller"
version = "0.1.0"
edition = "2021"
publish = false

[dependencies]
chrono = "0.2"
itertools = "0.4"
tabwriter = "0.1"
rustc-serialize = "0.3"
hyper = { version = "0.10", default-features = false }
docopt = "0.6"
log = "0.3"
env_logger = "0.3"
