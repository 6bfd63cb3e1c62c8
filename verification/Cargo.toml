[package]
name = "dwarf_structs"
version = "0.1.0"
edition = "2021"
publish = false

[dependencies]
gimli = { version = "*", features = ["fallible-iterator"] }
fallible-iterator = "*"
object = "*"
memmap2 = "*"
