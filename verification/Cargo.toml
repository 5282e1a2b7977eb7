[package]
name = "suricatasc"
version = "0.1.0"
edition = "2021"
publish = false

[dependencies]
serde_json = "1"
getopts = "*"
rustyline = "*"
rustyline-derive = "*"
suricata_client = "=0.1.0-alpha.2"
thiserror = "1"
