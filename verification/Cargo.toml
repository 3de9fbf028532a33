[package]
name = "skunk"
version = "0.1.0"
edition = "2021"
publish = false

[dependencies]
inkwell = { version = "=0.1.1", features = ["llvm14-0"] }
# inkwell's own binding to LLVM. It is named here only to make it link
# LLVM's shared library: not every installation of LLVM 14 has all of the
# static libraries.
llvm-sys = { version = "=140.1.3", features = ["prefer-dynamic"] }
