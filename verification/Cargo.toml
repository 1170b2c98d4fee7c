[package]
name = "rust_esp_starter"
version = "0.1.0"
edition = "2021"
publish = false

[dependencies]
anyhow = "=1.0.104"
display-interface-spi = "=0.4.1"
embedded-graphics = "=0.7.1"
embedded-hal = "=1.0.0"
esp-idf-hal = "0.45"
esp-idf-svc = "0.51"
esp-idf-sys = "0.36"
log = "=0.4.34"
st7789 = "=0.7.0"
