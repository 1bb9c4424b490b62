[package]
name = "c4dart"
version = "0.1.0"
edition = "2021"
publish = false

[dependencies]
regex = "1"
clang = { version = "*", features = ["runtime", "clang_3_7"] }
log = "0.4"
structopt = { version = "0.3", features = ["paw"] }
paw = "1"
pretty_env_logger = "*"
