[package]
name = "omni_led"
version = "0.1.0"
edition = "2021"
publish = false

[dependencies]
regex = "=1.13.1"
convert_case = "=0.12.0"
log = "=0.4.35"
log4rs = "=1.4.0"
ciborium = "=0.2.2"
serde_json = "=1.0.154"
ureq = "=3.5.1"
libc = "=0.2.191"
mlua = { version = "=0.10.5", features = ["lua54", "vendored"] }
rusb = { version = "=0.9.4", features = ["vendored"] }
