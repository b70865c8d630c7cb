[package]
name = "hi_kafka"
version = "0.1.0"
edition = "2021"
publish = false

[dependencies]
bytes = "1"
libc = "0.2"
ext-php-rs = "0.13"
