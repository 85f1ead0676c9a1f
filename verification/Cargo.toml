[package]
name = "xmpp"
version = "0.1.0"
edition = "2021"
publish = false

[dependencies]
RustyXML = "0.3"
openssl = "0.10"
base64 = "0.13"
