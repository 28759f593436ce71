//! Type-safe environment configuration: environment values as text, the
//! literal syntax of arrays, maps and tuples in them, their conversion into
//! typed values, and the code that the configuration derives emit.

pub mod attr;
pub mod codegen;
pub mod derive;
pub mod env_portal;
pub mod env_str_value;
pub mod error;
pub mod literal;
pub mod number;
pub mod text;

pub use env_portal::EnvPortal;
pub use env_str_value::{EnvStrValue, FromEnvStrValue};
pub use error::{EnvVarError, Error, Result};
