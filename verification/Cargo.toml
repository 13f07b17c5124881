[package]
name = "rollback_platformer"
version = "0.1.0"
edition = "2021"
publish = false

[dependencies]
backroll = "=0.6.0"
backroll_transport_udp = "=0.6.0"
bevy_tasks = "=0.9.1"
bitfield = "=0.20.0"
bitflags = "=1.3.2"
bytemuck = { version = "=1.25.2", features = ["derive"] }
macroquad = { version = "=0.4.16", default-features = false }
macroquad-particles = { version = "=0.2.2", features = ["nanoserde"] }
macroquad-platformer = "=0.2.0"
macroquad-profiler = "=0.2.0"
macroquad-tiled = "=0.2.1"
nanoserde = "=0.1.37"
ordered-float = "=5.5.0"
portpicker = "=0.1.1"
quad-net = "=0.1.2"
rand = "=0.8.8"
sapp-jsutils = "=0.1.7"
