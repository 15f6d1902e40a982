[package]
name = "endpoint_api"
version = "0.1.0"
edition = "2021"
publish = false

[dependencies]
serde_json = "1"
serde = { version = "1", features = ["derive"] }
http = "1"
bytes = "1"
js_int = "0.2"
serde_html_form = "0.2"
