[package]
name = "memebox"
version = "0.1.0"
edition = "2021"
publish = false

[dependencies]
rand = "=0.8.8"
log = "=0.4.35"
pretty_env_logger = "=0.4.0"
emoji_searcher = "=0.1.0"
rmp = "=0.8.9"
glib = "=0.10.3"
ibus = "=0.2.0"
