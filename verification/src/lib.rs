//! Schema-driven synthesis of a closed enumeration from a snapshot of a
//! table's rows: one variant for each row, named by the row's primary key, an
//! accessor for each column outside the key, and a lookup constructor for each
//! non-empty selection of columns of the key.
//!
//! The artifact is plain data; rendering it into declarations, reading the
//! configuration and fetching the rows are the caller's.

pub mod accessor;
pub mod artifact;
pub mod cache;
pub mod case;
pub mod config;
pub mod constructor;
pub mod directive;
pub mod error;
pub mod generate;
pub mod group;
pub mod identifier;
pub mod laws;
pub mod schema;
pub mod search;
pub mod selection;
pub mod text;

pub use artifact::{
    Accessor, Artifact, Constructor, Conversion, EnumItem, Parameter, Rendered, TypeName,
};
pub use cache::{Fault, Load, Outcome, Phase};
pub use config::{find_table, select_table, ConfigError};
pub use directive::{get_replacement, resolve, Directive, Replacement};
pub use error::GenerationError;
pub use generate::symbols;
pub use schema::{Column, Kind, Row, Table, Value, MAX_KEY_COLUMNS};
