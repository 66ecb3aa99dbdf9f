//! Path-based extraction and literal filtering over tree-shaped records.

pub mod filter;
pub mod json;
pub mod literal;
pub mod path;
pub mod record;

pub use filter::{Filter, FilterError};
pub use json::{convert_value_and_get, Json, JsonNumber};
pub use literal::{float_bits_eq, parse_u64, Literal};
pub use path::{split_on, Pattern};
pub use record::{get_item, header};
