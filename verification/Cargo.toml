[package]
name = "rustromm"
version = "0.2.0"
edition = "2021"
publish = false

[dependencies]
anyhow = "=1.0.104"
cpal = "*"
directories = "=6.0.0"
eframe = { version = "*", default-features = false, features = ["default_fonts", "glow", "x11"] }
egui = "*"
egui_extras = { version = "*", default-features = false }
gilrs = "*"
libloading = "=0.9.0"
reqwest = { version = "=0.13.5", default-features = false, features = ["blocking", "json", "query"] }
rfd = "*"
serde = { version = "=1.0.229", features = ["derive"] }
serde_json = "=1.0.154"
urlencoding = "=2.1.3"
zip = { version = "=9.2.2", default-features = false, features = ["deflate"] }
