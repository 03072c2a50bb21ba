[package]
name = "yandex-mail"
version = "0.1.0"
edition = "2021"
publish = false

[dependencies]
async-imap = { version = "0.11", default-features = false, features = ["runtime-tokio"] }
base64 = "=0.22.1"
dirs = "6"
futures = "0.3"
keyring = "=3.6.3"
lettre = { version = "=0.11.23", default-features = false, features = ["builder", "smtp-transport", "tokio1-native-tls"] }
mail-parser = "0.11"
native-tls = "0.2"
serde = { version = "1", features = ["derive"] }
serde_json = "1"
tokio = { version = "1", features = ["net", "time", "rt"] }
tokio-native-tls = "0.3"
utf7-imap = "=0.3.2"
