[package]
name = "cekunit_client"
version = "0.1.0"
edition = "2021"
publish = false

[dependencies]
select = "=0.6.1"
urlencoding = "=2.1.3"
reqwest = { version = "=0.13.5", default-features = false, features = ["blocking", "form", "cookies"] }
clap = { version = "=4.6.7", features = ["derive"] }
colored = "=3.1.1"
directories = "=6.0.0"
dirs = "=7.0.0"
dotenv = "=0.15.0"
