[package]
name = "git_remote_s3"
version = "0.1.0"
edition = "2021"
publish = false

[dependencies]
anyhow = "1"
git-hash = "0.3"
git-object = "0.9"
git-odb = "0.15"
log = "0.4"
rust-s3 = "0.26"
stderrlog = "0.5"
structopt = "0.3"
