[package]
name = "compile_typst_site"
version = "0.1.0"
edition = "2021"
publish = false

[dependencies]
anyhow = "=1.0.104"
bstr = "=1.13.1"
error-iter = "*"
globset = "=0.4.20"
json = "=0.12.4"
log = "=0.4.34"
notify-debouncer-full = "=0.7.0"
onlyargs = "*"
onlyerror = "*"
simple_logger = "=5.2.0"
toml = "*"
walkdir = "=2.5.0"
