[package]
name = "menu_lowering"
version = "0.1.0"
edition = "2021"
publish = false

[dependencies]
anyhow = "=1.0.104"
xshell = "=0.2.7"
i-slint-common = "=1.9.2"
i-slint-core = "=1.9.2"
i-slint-backend-selector = { version = "=1.9.2", default-features = false }
