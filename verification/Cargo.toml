[package]
name = "kvault"
version = "0.1.0"
edition = "2021"
publish = false

[dependencies]
fixed = "=1.31.0"
borsh = "=0.10.4"
anchor-lang = { version = "=0.29.0", features = ["event-cpi", "init-if-needed"] }
anchor-spl = { version = "=0.29.0", features = ["metadata"] }
solana-program = "=1.18.26"
solana-security-txt = "1.1.1"
static_assertions = "1.1.0"
strum = { version = "0.25", features = ["derive"] }
