//! Flattens a parsed widget tree into the coordinated code streams that build,
//! connect and update a component's widgets.
pub mod emit;
pub mod laws;
pub mod root;
pub mod streams;
pub mod tree;

pub use root::MissingRootError;
pub use streams::{Fragment, TokenStreams};
pub use tree::{Property, PropertyKind, ReturnedWidgetNode, ViewWidgets, WidgetNode};
