[package]
name = "ana-convert"
version = "0.10.0"
edition = "2021"
publish = false

[dependencies]
clap = { version = "=4.6.7", features = ["derive"] }
ctrlc = "=3.5.2"
eframe = { version = "=0.37.0", default-features = false, features = ["default_fonts", "glow", "x11"] }
egui = "=0.37.0"
rayon = "=1.12.0"
rfd = { version = "=0.17.2", default-features = false, features = ["xdg-portal"] }
serde = { version = "=1.0.229", features = ["derive"] }
serde_json = { version = "=1.0.154", features = ["float_roundtrip"] }
thiserror = "=2.0.21"
