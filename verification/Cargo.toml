[package]
name = "arbos"
version = "0.1.0"
edition = "2021"
publish = false

[dependencies]
alloy-primitives = "=0.8.26"
revm = { version = "=20.0.0-alpha.1", default-features = false, features = ["std"] }
# The parts of revm, held to the versions that make up this pre-release: a pre-release requirement
# alone also admits the later full releases, which do not fit together with it.
revm-bytecode = { version = "=1.0.0-alpha.1", default-features = false }
revm-context = { version = "=1.0.0-alpha.1", default-features = false }
revm-context-interface = { version = "=1.0.0-alpha.1", default-features = false }
revm-database-interface = { version = "=1.0.0-alpha.1", default-features = false }
revm-handler = { version = "=1.0.0-alpha.1", default-features = false }
revm-interpreter = { version = "=16.0.0-alpha.1", default-features = false }
revm-precompile = { version = "=17.0.0-alpha.1", default-features = false }
revm-primitives = { version = "=16.0.0-alpha.1", default-features = false }
revm-specification = { version = "=1.0.0-alpha.1", default-features = false }
revm-state = { version = "=1.0.0-alpha.1", default-features = false }
