[package]
name = "mbl2"
version = "0.1.10"
edition = "2021"
publish = false

[dependencies]
android_logger = "*"
atoi = "*"
bhook = "*"
bstr = "*"
clear-cache = "*"
ctor = "*"
cxx = "*"
jni = "0.21"
libc = "*"
log = "*"
memchr = "*"
ndk = "*"
ndk-sys = "*"
once_cell = "*"
plt-rs = "*"
region = "*"
scroll = "*"
