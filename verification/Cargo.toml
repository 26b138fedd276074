[package]
name = "graph_canvas"
version = "0.1.0"
edition = "2021"
publish = false

[dependencies]
rand = "0.8"
petgraph = "0.6"
crossbeam = "0.8"
serde = { version = "1", features = ["derive"] }
egui = "0.27"
