[package]
name = "bull"
version = "0.1.0"
edition = "2021"
publish = false

[dependencies]
httparse = "=1.10.1"
regex = "=1.13.1"
rustygit = "=0.5.0"
serde = { version = "=1.0.229", features = ["derive"] }
serde_derive = "=1.0.229"
serde_json = "=1.0.154"
toml = "=0.5.11"
rm_rf = "=0.6.2"
iron = "=0.6.1"
mount = "=0.4.0"
staticfile = "=0.5.0"
termion = "=1.5.6"
tui = { version = "=0.19.0", default-features = false, features = ["termion"] }
