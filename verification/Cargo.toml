[package]
name = "smplsynth"
version = "0.1.0"
edition = "2021"
publish = false

[dependencies]
rtrb = "=0.3.6"
cpal = "=0.15.3"
midir = "=0.10.4"
symphonia = "=0.5.5"
clack-host = "*"
