[package]
name = "repose_scene"
version = "0.1.0"
edition = "2021"
rust-version = "1.95"
publish = false

[dependencies]
lyon_path = "1"
lyon_tessellation = "1"
repose-core = "=0.30.22"
repose-render-wgpu = "=0.30.22"
smallvec = "1"
