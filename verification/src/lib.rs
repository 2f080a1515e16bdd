mod serde_support;

pub mod any;
pub mod convert;
pub mod json;
pub mod value;

pub use any::{Any, DecodeError, IntoValue};
pub use convert::{convert, json_to_value, ConversionError};
pub use json::{JsonModel, JsonNumber, JsonValue};
pub use value::{GqlValue, ValueModel};
