[package]
name = "window_list_overlay"
version = "0.1.0"
edition = "2021"
publish = false

[dependencies]
gdk4 = "*"
gio = "*"
glib = "*"
gtk4 = "*"
gtk4-layer-shell = "*"
libc = "*"
serde = { version = "1", features = ["derive"] }
serde_json = "1"
toml = "*"
