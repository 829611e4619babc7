[package]
name = "jeprof"
version = "0.1.0"
edition = "2021"
publish = false

[dependencies]
anyhow = "=1.0.104"
aya = "=0.13.1"
aya-ebpf = "=0.1.1"
aya-log = "=0.2.1"
blazesym = "=0.2.6"
bytesize = "=1.3.3"
clap = { version = "=4.6.7", features = ["derive"] }
crossterm = "=0.29.0"
csv = "=1.4.0"
derive_more = { version = "=2.1.1", features = ["display", "from_str"] }
env_logger = "=0.11.11"
inferno = { version = "=0.12.8", default-features = false }
itertools = "=0.15.0"
libc = "=0.2.191"
log = "=0.4.34"
minus = { version = "=5.8.0", features = ["dynamic_output"] }
rustc-hash = "=2.1.3"
scopeguard = "=1.2.0"
tokio = { version = "=1.54.1", features = ["macros", "rt-multi-thread", "signal", "time"] }
