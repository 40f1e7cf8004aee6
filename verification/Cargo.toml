[package]
name = "faber"
version = "0.1.0"
edition = "2021"
publish = false

[dependencies]
base64 = "0.22"
chrono = "0.4"
clap = { version = "4", features = ["derive"] }
console = "*"
cron = "*"
ctrlc = "3"
dirs = "*"
env_logger = "0.11"
glob = "0.3"
libc = "0.2"
log = "0.4"
pathrs = "0.2"
prettytable-rs = "0.10"
pulldown-cmark = "0.13"
reqwest = { version = "0.12", default-features = false, features = ["blocking", "json", "rustls-tls"] }
rusqlite = { version = "*", features = ["bundled"] }
rustix = { version = "1", features = ["fs"] }
rustyline = "*"
serde = { version = "1", features = ["derive"] }
serde_json = "1"
terminal-trx = "*"
xterm-color = "*"
