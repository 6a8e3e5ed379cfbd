[package]
name = "jsxrs"
version = "0.1.0"
edition = "2021"
publish = false

[dependencies]
serde_json = "1"
encre-css = "*"
swc_common = "*"
swc_ecma_ast = "*"
swc_ecma_parser = "*"
bytes-str = "*"
axum = "*"
thiserror = "*"
