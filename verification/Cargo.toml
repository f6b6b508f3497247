[package]
name = "lmaobgd"
version = "0.1.0"
edition = "2021"
publish = false

[dependencies]
rand = "=0.7.3"
blake2 = "=0.8.1"
serde = { version = "=1.0.229", features = ["derive"] }
serde_json = "=1.0.154"
reqwest = { version = "=0.10.10", default-features = false, features = ["json"] }
tokio = { version = "=0.2.25", features = ["full"] }
structopt = "=0.3.26"
dotenv = "=0.15.0"
failure = "=0.1.8"
exitfailure = "=0.5.1"
diesel = { version = "=1.4.8", features = ["postgres", "r2d2"] }
r2d2 = "=0.8.10"
actix-web = "=2.0.0"
actix-rt = "=1.1.1"
actix-cors = "=0.2.0"
actix-web-httpauth = "=0.4.2"
env_logger = "=0.7.1"
log = "=0.4.34"
# Not used by this crate. actix-http 1.0 subtracts chrono's `Duration` from a
# `Tm` of time 0.1, which compiles only while chrono re-exports the `Duration`
# of time 0.1, as it does up to 0.4.19.
chrono = "=0.4.19"
