[package]
name = "aias_gm"
version = "0.1.0"
edition = "2021"
publish = false

[dependencies]
base64 = "0.13"
rand = "0.8"
bls12_381 = "0.8"
openssl = "0.10"
rmp-serde = "1"
serde = { version = "1", features = ["derive"] }
actix-web = { version = "4", default-features = false, features = ["macros", "cookies"] }
actix-session = { version = "0.10", features = ["cookie-session"] }
actix-rt = "2"
awc = { version = "3", default-features = false }
rbatis = "2"
