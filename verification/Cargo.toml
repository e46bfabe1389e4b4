[package]
name = "led_matrix"
version = "0.1.0"
edition = "2021"
publish = false

[dependencies]
max7219-display = { version = "=0.1.5", features = ["led-matrix", "graphics"] }
embedded-graphics = "=0.8.2"
embedded-hal = "=1.0.0"
embedded-hal-bus = "=0.3.0"
defmt = "1"
embassy-executor = "0.7"
esp-bootloader-esp-idf = { version = "0.2", features = ["esp32"] }
esp-hal = { version = "=1.0.0-rc.0", features = ["esp32", "unstable"] }
esp-hal-embassy = { version = "0.9", features = ["esp32"] }
esp-println = { version = "0.15", features = ["esp32", "defmt-espflash"] }
