[package]
name = "polyhal2"
version = "0.1.0"
edition = "2021"
publish = false

[dependencies]
aarch64-cpu = "=11.2.0"
arm_pl011 = "=0.1.1"
fdt = "=0.1.5"
log = "=0.4.34"
loongArch64 = "=0.2.6"
multiboot = "=0.8.0"
raw-cpuid = "=11.6.0"
riscv = "=0.16.1"
spin = "=0.12.3"
uart_16550 = "=0.8.1"
x86_64 = { version = "=0.15.5", default-features = false, features = ["instructions"] }
