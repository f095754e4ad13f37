[package]
name = "vtable_dwarf"
version = "0.1.0"
edition = "2021"
publish = false

[dependencies]
gimli = "*"
object = "*"
memmap = "0.7"
typed-arena = "*"
