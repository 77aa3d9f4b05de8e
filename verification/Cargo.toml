[package]
name = "time_graph"
version = "0.1.0"
edition = "2021"
publish = false

[dependencies]
petgraph = "*"
quanta = "*"
once_cell = "*"
json = "*"
term-table = "*"
unicode-width = "*"
