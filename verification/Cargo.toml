[package]
name = "docreader"
version = "0.1.0"
edition = "2021"
publish = false

[dependencies]
ab_glyph = "=0.2.32"
anyhow = "=1.0.104"
chrono = { version = "=0.4.45", default-features = false, features = ["std", "now", "serde"] }
directories = "=5.0.1"
egui = { version = "=0.29.1", default-features = false, features = ["default_fonts"] }
image = { version = "=0.25.10", default-features = false }
imageproc = { version = "=0.25.1", default-features = false }
lru = "=0.12.5"
notify = { version = "=6.1.1", default-features = false }
once_cell = "=1.21.4"
pdfium-render = "=0.8.37"
quick-xml = "=0.36.2"
rbook = "=0.5.0"
serde = { version = "=1.0.229", features = ["derive"] }
serde_json = "=1.0.154"
sha2 = "=0.10.9"
uuid = { version = "=1.29.0", features = ["v4"] }

[dev-dependencies]
zip = { version = "=0.6.6", default-features = false }
