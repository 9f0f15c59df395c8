[package]
name = "melviz"
version = "0.1.0"
edition = "2021"
publish = false

[dependencies]
symphonia = { version = "*", features = ["mp3", "wav", "pcm"] }
mel_spec = "*"
cpal = "*"
