[package]
name = "ear_trainer"
version = "0.1.0"
edition = "2021"
publish = false

[dependencies]
rand = "0.7"
ordinal = "*"
ndarray = "*"
pitch_calc = "*"
dialoguer = "*"
termion = "*"
midir = "*"
portaudio = "*"
