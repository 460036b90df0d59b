use vstd::prelude::*;

verus! {

/// A source location of the macro input, carried through unread: the library
/// only hands it back in its diagnostic.
#[verifier::external_type_specification]
#[verifier::external_body]
pub struct ExSpan(proc_macro2::Span);

/// What one configured attribute of a widget does.
#[derive(Debug, PartialEq, Eq)]
pub enum PropertyKind {
    /// A plain value: any of an initialisation expression, an assignment
    /// expression and an expression watched for live updates.
    PlainValue { init: Option<String>, assign: Option<String>, watch: Option<String> },
    /// A child widget declared in place, attached to its owner.
    WidgetValue(WidgetNode),
    /// An event binding; `handler` names a stored handle for the connection.
    Signal { callback: String, handler: Option<String> },
}

/// One configured attribute of a widget.
#[derive(Debug, PartialEq, Eq)]
pub struct Property {
    /// The attribute (method or signal) being configured.
    pub name: String,
    pub kind: PropertyKind,
}

/// A widget returned by a call on its owner rather than constructed directly.
/// It owns no returned widget of its own.
#[derive(Debug, PartialEq, Eq)]
pub struct ReturnedWidgetNode {
    pub name: String,
    pub type_path: String,
    /// The expression whose value is bound to `name`.
    pub constructor: String,
    pub properties: Vec<Property>,
}

/// A named, typed widget with its properties in declared order.
#[derive(Debug, PartialEq, Eq)]
pub struct WidgetNode {
    pub name: String,
    pub type_path: String,
    /// The expression that constructs the widget.
    pub constructor: String,
    pub properties: Vec<Property>,
    /// Marks the component's root; only meaningful on a top-level node.
    pub is_root: bool,
    pub returned_widget: Option<Box<ReturnedWidgetNode>>,
}

/// The whole parsed tree: its top-level widgets and where it was declared.
#[derive(Debug)]
pub struct ViewWidgets {
    pub top_level_widgets: Vec<WidgetNode>,
    pub span: proc_macro2::Span,
}

} // verus!
