[package]
name = "pixel_tracker"
version = "0.1.0"
edition = "2021"
publish = false

[dependencies]
age = "0.10"
axum = "0.6"
axum-client-ip = "0.4"
clap = { version = "4", features = ["derive"] }
color-eyre = "0.6"
data-encoding = "2"
eyre = "0.6"
handlebars = "4"
once_cell = "1"
postcard = { version = "1", default-features = false, features = ["use-std"] }
serde = { version = "1", features = ["derive"] }
serenity = { version = "0.11", default-features = false, features = ["model", "http", "rustls_backend"] }
time = "0.3"
tokio = { version = "1", features = ["macros", "rt-multi-thread"] }
tower-http = { version = "0.4", features = ["trace"] }
tracing = "0.1"
tracing-error = "0.2"
tracing-subscriber = { version = "0.3", features = ["env-filter"] }
