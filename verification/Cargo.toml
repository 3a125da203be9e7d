[package]
name = "zebra-epl2-printer"
version = "0.1.0"
edition = "2021"
publish = false

[dependencies]
unicode-bidi = "0.3"
ar-reshaper = "*"
rusttype = "0.9"
image = { version = "0.24", default-features = false }
serde = { version = "1", features = ["derive"] }
winapi = { version = "0.3", features = ["winspool", "minwindef", "ntdef", "errhandlingapi", "winbase"] }
