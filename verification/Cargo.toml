[package]
name = "todo_list"
version = "0.1.0"
edition = "2021"
publish = false

[dependencies]
chrono = "0.4"
clap = { version = "4", features = ["derive"] }
rand = "0.8"
rusqlite = { version = "*", features = ["bundled"] }
unicode-segmentation = "1"
