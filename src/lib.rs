//! Conversion between the XML and the JSON form of a state-chart document.
use vstd::prelude::*;

pub mod convert;
pub mod forward;
pub mod laws;
pub mod props;
pub mod reverse;
pub mod rules;
pub mod text;
pub mod tree;

pub use convert::{document_to_value, json_to_xml, json_to_xml_opts, value_to_document, xml_to_json, ScjsonError};
pub use tree::{JsonValue, XmlElement, XmlNode};

verus! {

} // verus!
