use vstd::prelude::*;

use crate::root::is_first_root;
use crate::streams::{head_out, prop_own_out, Fragment, StreamsModel, TokenStreams};
use crate::tree::{Property, PropertyKind, ReturnedWidgetNode, ViewWidgets, WidgetNode};

verus! {

/// Everything emitted for node `n`, in order: its own entries, then each
/// property in declared order, then its returned widget, if any.
pub open spec fn node_out(n: WidgetNode, as_root: bool) -> StreamsModel
    decreases n,
{
    head_out(n.name, n.constructor, n.type_path, as_root).append(
        props_out(n.name, n.properties@, n.properties@.len() as int),
    ).append(
        match n.returned_widget {
            Some(rw) => returned_out(*rw),
            None => StreamsModel::empty(),
        },
    )
}

/// Everything emitted for a returned widget: never a root.
pub open spec fn returned_out(rw: ReturnedWidgetNode) -> StreamsModel
    decreases rw,
{
    head_out(rw.name, rw.constructor, rw.type_path, false).append(
        props_out(rw.name, rw.properties@, rw.properties@.len() as int),
    )
}

/// Everything emitted for the first `i` properties of `ps`, owned by `owner`:
/// each property's own entries, then the full emission of the child widget it
/// holds, if any.
pub open spec fn props_out(owner: String, ps: Seq<Property>, i: int) -> StreamsModel
    decreases ps, i,
{
    if i <= 0 || i > ps.len() {
        StreamsModel::empty()
    } else {
        props_out(owner, ps, i - 1).append(prop_out(owner, ps[i - 1]))
    }
}

/// Everything emitted for property `p` of `owner`: its own entries, then the
/// full emission of the child widget it holds, if any.
pub open spec fn prop_out(owner: String, p: Property) -> StreamsModel
    decreases p,
{
    prop_own_out(owner, p).append(
        match p.kind {
            PropertyKind::WidgetValue(w) => node_out(w, false),
            _ => StreamsModel::empty(),
        },
    )
}

/// Everything emitted for the first `i` top-level nodes; only the first node
/// flagged as root is built as the root, and none when `standalone`.
pub open spec fn tops_out(ws: Seq<WidgetNode>, i: int, standalone: bool) -> StreamsModel
    decreases i,
{
    if i <= 0 || i > ws.len() {
        StreamsModel::empty()
    } else {
        tops_out(ws, i - 1, standalone).append(
            node_out(ws[i - 1], !standalone && is_first_root(ws, i - 1)),
        )
    }
}

pub open spec fn tree_out(ws: Seq<WidgetNode>, standalone: bool) -> StreamsModel {
    tops_out(ws, ws.len() as int, standalone)
}

impl TokenStreams {
    /// A stream set with all nine buffers empty.
    pub fn new() -> (r: TokenStreams)
        ensures
            r@ == StreamsModel::empty(),
    {
        TokenStreams {
            init_root: Vec::new(),
            rename_root: Vec::new(),
            struct_fields: Vec::new(),
            init: Vec::new(),
            assign: Vec::new(),
            connect: Vec::new(),
            return_fields: Vec::new(),
            destructure_fields: Vec::new(),
            update_view: Vec::new(),
        }
    }

    /// Appends a node's own entries.
    fn push_head(&mut self, name: &String, constructor: &String, type_path: &String, as_root: bool)
        ensures
            final(self)@ == old(self)@.append(head_out(*name, *constructor, *type_path, as_root)),
    {
        let built = Fragment::Construct { name: name.clone(), expr: constructor.clone() };
        if as_root {
            self.init_root.push(built);
            self.init_root.push(Fragment::Name(name.clone()));
            self.rename_root.push(Fragment::RenameRoot(name.clone()));
        } else {
            self.init.push(built);
        }
        self.struct_fields.push(Fragment::WidgetField { name: name.clone(), type_path: type_path.clone() });
        self.return_fields.push(Fragment::WidgetName(name.clone()));
        self.destructure_fields.push(Fragment::WidgetName(name.clone()));
        proof {
            let h = head_out(*name, *constructor, *type_path, as_root);
            assert(self@.init_root =~= old(self)@.init_root + h.init_root);
            assert(self@.rename_root =~= old(self)@.rename_root + h.rename_root);
            assert(self@.init =~= old(self)@.init + h.init);
            assert(self@.struct_fields =~= old(self)@.struct_fields + h.struct_fields);
            assert(self@.return_fields =~= old(self)@.return_fields + h.return_fields);
            assert(self@.destructure_fields =~= old(self)@.destructure_fields + h.destructure_fields);
            assert(self@.assign =~= old(self)@.assign + h.assign);
            assert(self@.connect =~= old(self)@.connect + h.connect);
            assert(self@.update_view =~= old(self)@.update_view + h.update_view);
        }
    }
}


impl Property {
    /// Appends this property's own entries, with `owner` the widget it configures.
    fn own_streams(&self, owner: &String, streams: &mut TokenStreams)
        ensures
            final(streams)@ == old(streams)@.append(prop_own_out(*owner, *self)),
    {
        let ghost o = old(streams)@;
        let ghost c = prop_own_out(*owner, *self);
        match &self.kind {
            PropertyKind::PlainValue { init, assign, watch } => {
                match init {
                    Some(e) => streams.init.push(Fragment::Init(e.clone())),
                    None => {},
                }
                match assign {
                    Some(e) => streams.assign.push(
                        Fragment::Call { owner: owner.clone(), method: self.name.clone(), value: e.clone() },
                    ),
                    None => {},
                }
                match watch {
                    Some(e) => streams.update_view.push(
                        Fragment::Call { owner: owner.clone(), method: self.name.clone(), value: e.clone() },
                    ),
                    None => {},
                }
            },
            PropertyKind::WidgetValue(w) => {
                streams.assign.push(
                    Fragment::Attach { owner: owner.clone(), method: self.name.clone(), child: w.name.clone() },
                );
            },
            PropertyKind::Signal { callback, handler } => {
                let h = match handler {
                    Some(h) => Some(h.clone()),
                    None => None,
                };
                streams.connect.push(
                    Fragment::Connect {
                        owner: owner.clone(),
                        signal: self.name.clone(),
                        callback: callback.clone(),
                        handler: h,
                    },
                );
                match handler {
                    Some(h) => {
                        streams.struct_fields.push(Fragment::HandlerField(h.clone()));
                        streams.return_fields.push(Fragment::HandlerName(h.clone()));
                        streams.destructure_fields.push(Fragment::HandlerName(h.clone()));
                    },
                    None => {},
                }
            },
        }
        proof {
            assert(streams@.init_root =~= o.init_root + c.init_root);
            assert(streams@.rename_root =~= o.rename_root + c.rename_root);
            assert(streams@.init =~= o.init + c.init);
            assert(streams@.struct_fields =~= o.struct_fields + c.struct_fields);
            assert(streams@.return_fields =~= o.return_fields + c.return_fields);
            assert(streams@.destructure_fields =~= o.destructure_fields + c.destructure_fields);
            assert(streams@.assign =~= o.assign + c.assign);
            assert(streams@.connect =~= o.connect + c.connect);
            assert(streams@.update_view =~= o.update_view + c.update_view);
        }
    }

    /// Appends this property's own entries, then the full emission of the
    /// child widget it holds, if any.
    fn generate_streams(&self, owner: &String, streams: &mut TokenStreams)
        ensures
            final(streams)@ == old(streams)@.append(prop_out(*owner, *self)),
        decreases *self,
    {
        let ghost o = old(streams)@;
        self.own_streams(owner, streams);
        match &self.kind {
            PropertyKind::WidgetValue(w) => {
                w.init_token_generation(streams, false);
                proof { lemma_append_assoc(o, prop_own_out(*owner, *self), node_out(*w, false)); }
            },
            _ => {
                proof {
                    lemma_append_empty(streams@);
                    lemma_append_empty(prop_own_out(*owner, *self));
                }
            },
        }
    }
}

/// Appends the emission of every property of `props`, in declared order.
fn generate_component_tokens_recursively(owner: &String, props: &Vec<Property>, streams: &mut TokenStreams)
    ensures
        final(streams)@ == old(streams)@.append(props_out(*owner, props@, props@.len() as int)),
    decreases *props,
{
    let ghost o = old(streams)@;
    proof { lemma_append_empty(o); }
    let mut i: usize = 0;
    while i < props.len()
        invariant
            0 <= i <= props@.len(),
            streams@ == o.append(props_out(*owner, props@, i as int)),
        decreases props@.len() - i,
    {
        proof {
            vstd::std_specs::vec::axiom_vec_index_decreases(*props, i as int);
        }
        props[i].generate_streams(owner, streams);
        proof {
            lemma_append_assoc(o, props_out(*owner, props@, i as int), prop_out(*owner, props@[i as int]));
        }
        i = i + 1;
    }
}

impl WidgetNode {
    /// Emits this node: its own entries (built as the root when
    /// `generate_init_root_stream`), its properties in declared order, then its
    /// returned widget.
    pub fn init_token_generation(&self, streams: &mut TokenStreams, generate_init_root_stream: bool)
        ensures
            final(streams)@ == old(streams)@.append(node_out(*self, generate_init_root_stream)),
        decreases *self,
    {
        let ghost o = old(streams)@;
        streams.push_head(&self.name, &self.constructor, &self.type_path, generate_init_root_stream);
        generate_component_tokens_recursively(&self.name, &self.properties, streams);
        let ghost h = head_out(self.name, self.constructor, self.type_path, generate_init_root_stream);
        let ghost ps = props_out(self.name, self.properties@, self.properties@.len() as int);
        match &self.returned_widget {
            Some(rw) => {
                rw.generate_component_tokens_recursively(streams);
                proof { lemma_append_assoc3(o, h, ps, returned_out(**rw)); }
            },
            None => {
                proof {
                    lemma_append_empty(streams@);
                    lemma_append_assoc3(o, h, ps, StreamsModel::empty());
                }
            },
        }
    }
}

impl ReturnedWidgetNode {
    /// Emits this returned widget: its own entries, never as the root, then its
    /// properties in declared order.
    pub fn generate_component_tokens_recursively(&self, streams: &mut TokenStreams)
        ensures
            final(streams)@ == old(streams)@.append(returned_out(*self)),
        decreases *self,
    {
        let ghost o = old(streams)@;
        streams.push_head(&self.name, &self.constructor, &self.type_path, false);
        generate_component_tokens_recursively(&self.name, &self.properties, streams);
        proof {
            let h = head_out(self.name, self.constructor, self.type_path, false);
            let ps = props_out(self.name, self.properties@, self.properties@.len() as int);
            lemma_append_assoc(o, h, ps);
        }
    }
}

pub proof fn lemma_append_empty(a: StreamsModel)
    ensures
        a.append(StreamsModel::empty()) == a,
        StreamsModel::empty().append(a) == a,
{
    assert(a.append(StreamsModel::empty()).init_root =~= a.init_root);
    assert(a.append(StreamsModel::empty()).rename_root =~= a.rename_root);
    assert(a.append(StreamsModel::empty()).struct_fields =~= a.struct_fields);
    assert(a.append(StreamsModel::empty()).init =~= a.init);
    assert(a.append(StreamsModel::empty()).assign =~= a.assign);
    assert(a.append(StreamsModel::empty()).connect =~= a.connect);
    assert(a.append(StreamsModel::empty()).return_fields =~= a.return_fields);
    assert(a.append(StreamsModel::empty()).destructure_fields =~= a.destructure_fields);
    assert(a.append(StreamsModel::empty()).update_view =~= a.update_view);
    assert(StreamsModel::empty().append(a).init_root =~= a.init_root);
    assert(StreamsModel::empty().append(a).rename_root =~= a.rename_root);
    assert(StreamsModel::empty().append(a).struct_fields =~= a.struct_fields);
    assert(StreamsModel::empty().append(a).init =~= a.init);
    assert(StreamsModel::empty().append(a).assign =~= a.assign);
    assert(StreamsModel::empty().append(a).connect =~= a.connect);
    assert(StreamsModel::empty().append(a).return_fields =~= a.return_fields);
    assert(StreamsModel::empty().append(a).destructure_fields =~= a.destructure_fields);
    assert(StreamsModel::empty().append(a).update_view =~= a.update_view);
}

pub proof fn lemma_append_assoc(a: StreamsModel, b: StreamsModel, c: StreamsModel)
    ensures
        a.append(b).append(c) == a.append(b.append(c)),
{
    assert(a.append(b).append(c).init_root =~= a.append(b.append(c)).init_root);
    assert(a.append(b).append(c).rename_root =~= a.append(b.append(c)).rename_root);
    assert(a.append(b).append(c).struct_fields =~= a.append(b.append(c)).struct_fields);
    assert(a.append(b).append(c).init =~= a.append(b.append(c)).init);
    assert(a.append(b).append(c).assign =~= a.append(b.append(c)).assign);
    assert(a.append(b).append(c).connect =~= a.append(b.append(c)).connect);
    assert(a.append(b).append(c).return_fields =~= a.append(b.append(c)).return_fields);
    assert(a.append(b).append(c).destructure_fields =~= a.append(b.append(c)).destructure_fields);
    assert(a.append(b).append(c).update_view =~= a.append(b.append(c)).update_view);
}

/// Appending `b`, `c` and `d` one by one to `a` gives `a` followed by the three
/// appended together.
pub proof fn lemma_append_assoc3(a: StreamsModel, b: StreamsModel, c: StreamsModel, d: StreamsModel)
    ensures
        a.append(b).append(c).append(d) == a.append(b.append(c).append(d)),
{
    lemma_append_assoc(a, b, c);
    lemma_append_assoc(a.append(b), c, d);
    lemma_append_assoc(a, b.append(c), d);
    lemma_append_assoc(b, c, d);
    lemma_append_assoc(a, b, c.append(d));
}

} // verus!
