[package]
name = "data_quality_report"
version = "0.1.0"
edition = "2021"
publish = false

[dependencies]
rand = "*"
