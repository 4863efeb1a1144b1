[package]
name = "vaultwalker"
version = "0.1.0"
edition = "2021"
publish = false

[dependencies]
clipboard = "0.5"
crossterm = "0.27"
ctrlc = "3"
gumdrop = "0.8"
home = "0.5"
serde = "1"
serde_derive = "1"
serde_json = "1"
ureq = "2"
