[package]
name = "pyoxidizer"
version = "0.1.0"
edition = "2021"
publish = false

[dependencies]
anyhow = "1"
cpython = "0.7"
duct = "0.13"
glob = "0.3"
libc = "0.2"
python3-sys = "0.7"
semver = "1"
thiserror = "1"
uuid = { version = "1", features = ["v4"] }
winapi = { version = "0.3", features = ["combaseapi", "knownfolders", "ntdef", "shlobj", "shtypes", "winerror"] }
