[package]
name = "cmux"
version = "0.1.0"
edition = "2021"
publish = false

[dependencies]
uuid = { version = "1", features = ["v4"] }
tokio = { version = "1", features = ["sync", "rt", "rt-multi-thread"] }
tracing = "0.1"
tracing-subscriber = { version = "0.3", features = ["env-filter"] }
gtk4 = "*"
gdk4 = "*"
gio = "*"
glib = "*"
libadwaita = { version = "*", features = ["v1_5"] }
vte4 = "*"
webkit6 = "*"
