[package]
name = "ucd_writer"
version = "0.1.0"
edition = "2021"
publish = false

[dependencies]
fst = "0.4"
ucd-trie = "0.1"
regex-automata = "0.1"
