[package]
name = "cca_vmm"
version = "0.1.0"
edition = "2021"
publish = false

[dependencies]
anyhow = "1"
cfg-if = "1"
clap = { version = "4", features = ["derive"] }
fs-err = "3"
log = "0.4"
nix = { version = "0.30", default-features = false, features = ["feature"] }
object = { version = "=0.36.7", default-features = false, features = ["std", "read_core", "elf", "unaligned"] }
parking_lot = "0.12"
static_assertions = "1"
thiserror = "2"
tracing = "0.1"
xshell = "0.2"
