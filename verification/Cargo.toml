[package]
name = "pcb"
version = "0.1.0"
edition = "2021"
publish = false

[dependencies]
libc = "=0.2.191"
llvm-sys = { version = "=231.0.1", default-features = false, features = ["no-llvm-linking", "disable-alltargets-init"] }
typed-arena = "2"
