[package]
name = "garnish_copy"
version = "0.1.0"
edition = "2021"
publish = false

[dependencies]
garnish_lang_traits = "=0.0.24-alpha"
garnish_lang_compiler = "=0.0.24-alpha"

[dev-dependencies]
garnish_lang_simple_data = "=0.0.24-alpha"
