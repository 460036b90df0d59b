use vstd::prelude::*;

use crate::tree::{Property, PropertyKind};

verus! {

/// One piece of generated code, kept as the values it is made of.
#[derive(Clone, Debug, PartialEq, Eq)]
pub enum Fragment {
    /// `let name = expr;`
    Construct { name: String, expr: String },
    /// The bare widget name, the value of the root's construction block.
    Name(String),
    /// `let name = root.clone();`
    RenameRoot(String),
    /// `name: type_path,` in the widgets struct.
    WidgetField { name: String, type_path: String },
    /// `name,` when building or destructuring the widgets struct.
    WidgetName(String),
    /// A stored signal handler handle in the widgets struct.
    HandlerField(String),
    /// `name,` of a stored signal handler handle.
    HandlerName(String),
    /// A property's initialisation expression, verbatim.
    Init(String),
    /// `owner.method(value);`
    Call { owner: String, method: String, value: String },
    /// `owner.method(&child);`
    Attach { owner: String, method: String, child: String },
    /// `owner.connect_signal(callback);`, its handle bound to `handler` if named.
    Connect { owner: String, signal: String, callback: String, handler: Option<String> },
}

/// The nine append-only code buffers filled by one pass over a tree.
#[derive(Clone, Debug, PartialEq, Eq)]
pub struct TokenStreams {
    /// Constructs the root widget.
    pub init_root: Vec<Fragment>,
    /// Binds the generic root handle to the root widget's name.
    pub rename_root: Vec<Fragment>,
    /// Fields of the widgets struct.
    pub struct_fields: Vec<Fragment>,
    /// Constructs every widget but the root.
    pub init: Vec<Fragment>,
    /// Initial property assignments.
    pub assign: Vec<Fragment>,
    /// Signal connections.
    pub connect: Vec<Fragment>,
    /// Field names of the returned widgets struct.
    pub return_fields: Vec<Fragment>,
    /// Field names when destructuring the widgets struct.
    pub destructure_fields: Vec<Fragment>,
    /// Updates re-run whenever watched state changes.
    pub update_view: Vec<Fragment>,
}

/// The nine streams as sequences.
pub struct StreamsModel {
    pub init_root: Seq<Fragment>,
    pub rename_root: Seq<Fragment>,
    pub struct_fields: Seq<Fragment>,
    pub init: Seq<Fragment>,
    pub assign: Seq<Fragment>,
    pub connect: Seq<Fragment>,
    pub return_fields: Seq<Fragment>,
    pub destructure_fields: Seq<Fragment>,
    pub update_view: Seq<Fragment>,
}

impl StreamsModel {
    pub open spec fn empty() -> StreamsModel {
        StreamsModel {
            init_root: seq![],
            rename_root: seq![],
            struct_fields: seq![],
            init: seq![],
            assign: seq![],
            connect: seq![],
            return_fields: seq![],
            destructure_fields: seq![],
            update_view: seq![],
        }
    }

    /// Each stream of `self` followed by the same stream of `o`.
    pub open spec fn append(self, o: StreamsModel) -> StreamsModel {
        StreamsModel {
            init_root: self.init_root + o.init_root,
            rename_root: self.rename_root + o.rename_root,
            struct_fields: self.struct_fields + o.struct_fields,
            init: self.init + o.init,
            assign: self.assign + o.assign,
            connect: self.connect + o.connect,
            return_fields: self.return_fields + o.return_fields,
            destructure_fields: self.destructure_fields + o.destructure_fields,
            update_view: self.update_view + o.update_view,
        }
    }
}

impl View for TokenStreams {
    type V = StreamsModel;

    open spec fn view(&self) -> StreamsModel {
        StreamsModel {
            init_root: self.init_root@,
            rename_root: self.rename_root@,
            struct_fields: self.struct_fields@,
            init: self.init@,
            assign: self.assign@,
            connect: self.connect@,
            return_fields: self.return_fields@,
            destructure_fields: self.destructure_fields@,
            update_view: self.update_view@,
        }
    }
}

pub open spec fn opt_seq(f: Option<Fragment>) -> Seq<Fragment> {
    match f {
        Some(x) => seq![x],
        None => seq![],
    }
}

/// What a node contributes for itself, before its properties: its
/// construction (into `init_root`, followed by its name, when built as the
/// root, else into `init`), its struct, return and destructure entries, and
/// the rename of the root handle when it is the root.
pub open spec fn head_out(name: String, constructor: String, type_path: String, as_root: bool) -> StreamsModel {
    let built = Fragment::Construct { name: name, expr: constructor };
    StreamsModel {
        init_root: if as_root { seq![built, Fragment::Name(name)] } else { seq![] },
        rename_root: if as_root { seq![Fragment::RenameRoot(name)] } else { seq![] },
        struct_fields: seq![Fragment::WidgetField { name: name, type_path: type_path }],
        init: if as_root { seq![] } else { seq![built] },
        assign: seq![],
        connect: seq![],
        return_fields: seq![Fragment::WidgetName(name)],
        destructure_fields: seq![Fragment::WidgetName(name)],
        update_view: seq![],
    }
}

/// What property `p` of the widget `owner` contributes itself, leaving out
/// the emission of a child widget it holds.
pub open spec fn prop_own_out(owner: String, p: Property) -> StreamsModel {
    match p.kind {
        PropertyKind::PlainValue { init, assign, watch } => StreamsModel {
            init: opt_seq(
                match init {
                    Some(e) => Some(Fragment::Init(e)),
                    None => None,
                },
            ),
            assign: opt_seq(
                match assign {
                    Some(e) => Some(Fragment::Call { owner: owner, method: p.name, value: e }),
                    None => None,
                },
            ),
            update_view: opt_seq(
                match watch {
                    Some(e) => Some(Fragment::Call { owner: owner, method: p.name, value: e }),
                    None => None,
                },
            ),
            ..StreamsModel::empty()
        },
        PropertyKind::WidgetValue(w) => StreamsModel {
            assign: seq![Fragment::Attach { owner: owner, method: p.name, child: w.name }],
            ..StreamsModel::empty()
        },
        PropertyKind::Signal { callback, handler } => {
            let tail = match handler {
                Some(h) => seq![Fragment::HandlerName(h)],
                None => seq![],
            };
            StreamsModel {
                connect: seq![
                    Fragment::Connect { owner: owner, signal: p.name, callback: callback, handler: handler },
                ],
                struct_fields: match handler {
                    Some(h) => seq![Fragment::HandlerField(h)],
                    None => seq![],
                },
                return_fields: tail,
                destructure_fields: tail,
                ..StreamsModel::empty()
            }
        },
    }
}

} // verus!
