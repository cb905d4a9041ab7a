[package]
name = "hl-spray-size-calculator"
version = "0.1.0"
edition = "2021"
publish = false

[dependencies]
teloxide = { version = "=0.17.0", default-features = false, features = ["rustls", "ctrlc_handler"] }
tokio = { version = "=1.54.1", features = ["macros", "rt-multi-thread"] }
image = { version = "=0.25.10", default-features = false, features = ["png", "jpeg", "gif", "webp", "bmp"] }
dptree = "=0.5.1"
log = "=0.4.35"
pretty_env_logger = "=0.5.0"
takecell = "=0.1.1"
