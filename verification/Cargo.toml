[package]
name = "bastille"
version = "0.1.0"
edition = "2021"
publish = false

[dependencies]
libc = "=0.2.190"
caps = "=0.5.6"
ipc-channel = "=0.23.0"
openat = "=0.1.21"
os_pipe = "=1.2.3"
netlink-packet-core = "=0.7.0"
netlink-packet-route = "=0.19.0"
netlink-sys = "=0.8.8"
