[package]
name = "wigglyair"
version = "0.1.0"
edition = "2021"
publish = false

[dependencies]
anyhow = "1"
audio_thread_priority = "*"
clap = { version = "4", features = ["derive"] }
crossbeam = "0.8"
crossterm = "0.27"
directories = "5"
metaflac = "0.2"
ratatui = "0.23"
symphonia = { version = "0.5", features = ["flac"] }
tinyaudio = "0.1"
tracing = "0.1"
tracing-appender = "0.2"
tracing-bunyan-formatter = "0.3"
tracing-subscriber = { version = "0.3", features = ["env-filter"] }
tracing-unwrap = "*"
walkdir = "2"
