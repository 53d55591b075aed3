[package]
name = "hmalloc"
version = "0.1.0"
edition = "2021"
publish = false

[dependencies]
libc = "0.2"
tikv-jemalloc-sys = "0.5"
once_cell = "1"
clap = { version = "4", features = ["derive"] }
