[package]
name = "cyclos_core"
version = "0.1.0"
edition = "2021"
publish = false

[dependencies]
muldiv = "1.0.1"
uint = "0.9.5"
anchor-lang = "0.24.2"
anchor-spl = "0.24.2"
