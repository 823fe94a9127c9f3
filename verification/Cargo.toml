[package]
name = "pinenote_dbus_service"
version = "0.1.0"
edition = "2021"
publish = false

[dependencies]
dbus = { version = "=0.9.12", features = ["vendored"] }
dbus-crossroads = "=0.5.3"
libc = "=0.2.191"
nix = { version = "=0.29.0", features = ["ioctl"] }
