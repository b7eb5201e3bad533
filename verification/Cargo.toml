[package]
name = "msod_stat"
version = "0.1.0"
edition = "2021"
publish = false

[dependencies]
directories = "=4.0.1"
eyre = "=0.6.14"
indicatif = "=0.17.11"
jemallocator = "=0.3.2"
oauth2 = "=4.4.2"
open = "=2.1.3"
reqwest = { version = "=0.11.27", features = ["blocking"] }
serde = { version = "=1.0.229", features = ["derive"] }
serde_cbor = "=0.11.2"
serde_derive = "=1.0.229"
serde_json = "=1.0.154"
string-error = "=0.1.0"
tempfile = "=3.27.0"
tiny_http = "=0.8.2"
url = "=2.5.8"
