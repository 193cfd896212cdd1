[package]
name = "voip_core"
version = "0.1.0"
edition = "2021"
publish = false

[dependencies]
anyhow = "=1.0.104"
cpal = "=0.18.2"
dotenv = "=0.15.0"
env_logger = "=0.11.11"
libc = "=0.2.190"
log = "=0.4.34"
nnnoiseless = "=0.5.2"
parking_lot = "=0.12.5"
rdev = "=0.5.3"
ringbuf = "=0.5.2"
rubato = "=5.0.1"
webrtc-audio-processing = "=2.1.0"
xcap = "=0.9.8"
