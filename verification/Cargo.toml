[package]
name = "headwind"
version = "0.1.0"
edition = "2021"
publish = false

[dependencies]
blake3 = "=1.8.7"
indexmap = { version = "=2.14.2", features = ["serde"] }
serde = { version = "=1.0.229", features = ["derive"] }
serde_json = "=1.0.154"
swc_core = { version = "*", features = ["common", "ecma_ast", "ecma_parser", "ecma_codegen", "ecma_visit"] }
swc_common = "*"
swc_css_ast = "*"
swc_css_codegen = "*"
wasm-bindgen = "*"
serde-wasm-bindgen = "*"
console_error_panic_hook = "*"
