//! A verified grammar engine for a small interface-definition language (IDL).
//!
//! The library parses textual fragments describing RPC methods, field options,
//! type references and literal values into immutable abstract-syntax-tree
//! values.  Every grammar rule is a pure function over a byte buffer and a
//! cursor position; each executable parser is proved equivalent to a
//! mathematical specification of the grammar, so the result of a parse is
//! pinned down for every input.  Failures carry the exact offset, line and
//! column, a contextual label, and a fatal/recoverable distinction.

pub mod common;
pub mod field_option;
pub mod method;
pub mod types;
pub mod value;

pub use common::Ctx;
pub use common::ErrorKind;
pub use common::ParseError;
pub use common::parse_identifier;
pub use field_option::FieldOption;
pub use field_option::parse_field_options;
pub use method::Method;
pub use method::parse_method;
pub use types::Type;
pub use types::parse_type;
pub use value::Value;
pub use value::parse_value;
