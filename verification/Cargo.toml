[package]
name = "one_hidden_layer_nn"
version = "0.1.0"
edition = "2021"
publish = false

[dependencies]
chrono = "0.4"
fern = "0.6"
log = "0.4"
ndarray = "0.15"
rand = "0.8"
statrs = "0.16"
