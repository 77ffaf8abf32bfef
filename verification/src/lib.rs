//! A name-resolution core for a module-based language: an item database keyed
//! by absolute paths, a per-package binding store, and the resolver that fills
//! them by walking parsed source and expanding declarative macros.

pub mod attributes;
pub mod crates;
pub mod database;
pub mod items;
pub mod lower;
pub mod macros;
pub mod paths;
pub mod pathmap;
pub mod strmap;
pub mod syntax;
pub mod tokens;
pub mod tools;
pub mod walker;
