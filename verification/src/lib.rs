//! Conversion of parsed XML node trees into JSON-like value trees, with
//! configurable scalar type inference, attribute naming, empty-element
//! handling, and per-path overrides of type and array behaviour.

pub mod config;
pub mod convert;
pub mod node;
pub mod scalar;
pub mod strings;
pub mod value;

pub use config::{Config, JsonArray, JsonType, NullValue, PathMatcher};
pub use convert::{convert_node, xml_to_map};
pub use node::XmlNode;
pub use scalar::parse_text;
pub use value::{JsonMap, JsonValue};
