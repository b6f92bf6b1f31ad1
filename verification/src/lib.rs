//! A code generator for Kahn process networks: it turns a graph of processes
//! and channels into the syntax tree of a Rust function that creates the
//! channels and spawns one task per process, and renders it as source text.
#![allow(non_snake_case)]

pub mod ast;
pub mod abstrast;
mod text;
pub mod literal;
pub mod stage2;
pub mod render;
pub mod laws;
