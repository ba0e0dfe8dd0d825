[package]
name = "git_hooks_dispatch"
version = "0.1.0"
edition = "2021"
publish = false

[dependencies]
anyhow = "*"
env_logger = "*"
git2 = { version = "*", default-features = false }
log = "*"
structopt = "*"

[dev-dependencies]
tempdir = "*"
fs_extra = "*"
