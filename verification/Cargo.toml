[package]
name = "earlyboot"
version = "0.1.0"
edition = "2021"
publish = false

[dependencies]
vm-fdt = "*"
pci_types = "*"
hermit-dtb = "*"
multiboot = "*"
volatile = { version = "*", features = ["derive"] }
x86 = "*"
aarch64-cpu = "*"
sptr = "*"
