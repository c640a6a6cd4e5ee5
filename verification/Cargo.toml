[package]
name = "linkerd2_proxy"
version = "0.1.0"
edition = "2021"
publish = false

[dependencies]
bytes = "=0.4.12"
futures = "=0.1.31"
h2 = "=0.1.26"
http = "=0.1.21"
indexmap = "=1.9.3"
log = "0.4"
never = "=0.1.0"
regex = "=1.13.1"
tokio-timer = "=0.2.13"
tower-buffer = "0.1"
tower-discover = "=0.1.0"
tower-retry = "=0.1.0"
tower-service = "=0.2.0"
trust-dns-resolver = "0.11"
void = "=1.0.2"
webpki = "=0.22.4"
