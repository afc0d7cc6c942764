[package]
name = "coco_analysis"
version = "0.1.0"
edition = "2021"
publish = false

[dependencies]
dlopen = "0.1"
dlopen_derive = "0.1"
