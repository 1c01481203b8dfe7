[package]
name = "jwt_auth"
version = "0.1.0"
edition = "2021"
publish = false

[dependencies]
bcrypt = "*"
jsonwebtoken = "9"
base64 = "0.13"
