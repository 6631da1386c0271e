[package]
name = "delorean"
version = "0.1.0"
edition = "2021"
publish = false

[dependencies]
solana-sdk-ids = "3"
solana-pubkey = { version = "*", features = ["wincode", "serde"] }
solana-signature = { version = "*", features = ["wincode", "serde"] }
solana-hash = { version = "*", features = ["wincode", "serde", "decode"] }
solana-loader-v3-interface = { version = "*", features = ["serde"] }
solana-loader-v4-interface = "*"
solana-instructions-sysvar = "*"
solana-instruction = "*"
solana-version = { version = "=4.0.2", features = ["agave-unstable-api"] }
solana-account = "*"
solana-rent = { version = "*", features = ["serde"] }
solana-transaction = { version = "*", features = ["serde", "verify", "blake3"] }
solana-message = "*"
solana-svm-transaction = "*"
agave-feature-set = { version = "=4.0.2", features = ["agave-unstable-api"] }
agave-precompiles = { version = "=4.0.2", features = ["agave-unstable-api"] }
solana-precompile-error = "*"
bincode = "=1.3.3"
base64 = "=0.23.1"
wincode = { version = "*", features = ["derive"] }
thiserror = "=2.0.21"
serde_json = "=1.0.154"
