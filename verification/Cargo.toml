[package]
name = "xcm_currency_adapter"
version = "0.1.0"
edition = "2021"
publish = false

[dependencies]
frame-support = "=49.0.1"
parity-scale-codec = "=3.7.5"
sp-runtime = "=49.0.0"
sp-std = "=14.0.0"
staging-xcm = "=25.0.0"
staging-xcm-executor = "=29.0.1"

# Holds a transitive dependency to a release without its optional time zone back end.
[dev-dependencies]
serde_with = { version = "=3.14.0", default-features = false }
