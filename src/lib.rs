//! Configuration read from environment variables: names filtered by an
//! optional prefix, keys normalised, values optionally read as numbers.

pub mod env;
pub mod laws;
pub mod map;
pub mod text;
pub mod value;

pub use env::{value_kind, Environment, ORIGIN};
pub use map::ConfigMap;
pub use text::float_syntax;
pub use value::{Value, ValueKind};
