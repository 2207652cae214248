[package]
name = "yolo_xml"
version = "0.0.1"
edition = "2021"
publish = false

[dependencies]
utf8-chars = "*"
thiserror = "*"
miette = "*"
