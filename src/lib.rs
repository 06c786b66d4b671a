//! A node tree for markup, built from CSS-like selectors and explicit
//! attributes, and rendered either as a static HTML fragment or as the source
//! of a hyperscript call that builds the same tree on the client.
pub mod attribute;
pub mod context;
pub mod event;
pub mod laws;
pub mod node;
pub mod selector;
pub mod text;

pub use attribute::{Attribute, AttributeValue, ToAttributeValue};
pub use context::{Context, Router, RouterPath};
pub use event::{AjaxRequestOption, EventAction, HtmlAction, HyperscriptAction, StringMap};
pub use node::{elem, Node, NodeProperties, RawTextNode, TagNode, ToNode};
pub use selector::parse_elem_properties;
