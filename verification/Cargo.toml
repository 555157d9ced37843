[package]
name = "imxrt_rt_gen"
version = "0.1.0"
edition = "2021"
publish = false
