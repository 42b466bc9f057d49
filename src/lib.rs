//! Validation of decoded JSON values against CDDL schemas.
//!
//! A schema is a parsed rule set ([`CDDL`]); a value is a decoded JSON tree ([`Value`]).
//! [`CDDL::validate`] walks the two in lockstep and either succeeds or returns a structured
//! [`Error`]. What it returns is stated, for every schema and value, by the spec functions
//! of [`semantics`].
pub mod ast;
pub mod error;
pub mod laws;
pub mod numeric;
pub mod occurrence;
pub mod semantics;
pub mod text;
pub mod validate;
pub mod value;

pub use ast::{CDDL, Group, GroupChoice, GroupEntry, MemberKey, Occur, Rule, Type, Type1, Type2};
pub use error::{Bound, Error, Expected, JSONError, OccurrenceError, SchemaError, Subject};
pub use text::is_type_json_prelude;
pub use validate::DEPTH_LIMIT;
pub use value::{Member, Number, Value};
