[package]
name = "native_voice"
version = "0.1.0"
edition = "2021"
publish = false

[dependencies]
xsalsa20poly1305 = "*"
audiopus = "*"
rand = "*"
tungstenite = "*"
native-tls = "*"
parking_lot = "*"
