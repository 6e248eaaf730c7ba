//! A Python pickle reader for Archipelago multiworld data, with a Python-like
//! value model (numbers of unbounded size, strings, tuples and shared mutable
//! lists, dicts and sets), and the game data around it.

pub mod bigint;
pub mod integer;
pub mod number;
pub mod number_cache;

pub mod error;
pub mod value;
pub mod heap;
pub mod value_ops;
pub mod equality;

pub mod op;
pub mod unframer;
pub mod machine;
pub mod classes;
pub mod unpickler;
pub mod laws;

pub mod checksum;
pub mod config;
pub mod game;
pub mod web;
pub mod multidata;
pub mod semantics;
