[package]
name = "schedule_pdf"
version = "0.1.0"
edition = "2021"
publish = false

[dependencies]
lopdf = "*"
base64 = "*"
chrono = "*"
serde = { version = "*", features = ["derive"] }
serde_json = "*"
printpdf = "0.7"
oxidize-pdf = "*"
