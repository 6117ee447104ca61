//! Parse JSON while blocking prototype-poisoning keys.
//!
//! Two key patterns are detected anywhere in a JSON tree:
//! a key named `__proto__`, and a key named `constructor` whose value is an
//! object holding a `prototype` key. For each pattern an [`Action`] says
//! whether to reject the input, remove the key, or leave it alone; a `safe`
//! flag turns any violation into `Ok(None)` instead of an error.
//!
//! The contracts speak of the model of a value ([`json::Json`]) and of the
//! spec functions in [`policy`]; [`laws`] states what holds of the library
//! as a whole.

mod drain;
mod error;
pub mod json;
pub mod laws;
mod options;
mod parse;
pub mod policy;
mod scan;

pub use error::{Error, SyntaxError};
pub use json::{Json, JsonValue};
pub use options::{Action, Options};
pub use parse::{
    bom, lemma_bom_encoding, parse, parse_bytes, parse_gives, parsed_bytes, parsed_text,
    safe_options, safe_outcome_of, safe_parse, safe_parse_bytes, starts_with_bom, strip_bom,
    strip_byte_bom, without_bom, without_byte_bom, SafeOutcome,
};
pub use scan::scan;
