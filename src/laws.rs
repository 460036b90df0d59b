use vstd::prelude::*;

use crate::emit::{
    lemma_append_assoc, lemma_append_empty, node_out, prop_out, props_out, returned_out,
    tops_out, tree_out,
};
use crate::root::{has_root, is_first_root};
use crate::streams::{head_out, prop_own_out, Fragment, StreamsModel};
use crate::tree::{Property, PropertyKind, ReturnedWidgetNode, WidgetNode};

verus! {

/// Which widget name a fragment records, by the stream it is read from.
pub enum Pick {
    /// A widget's struct field.
    Field,
    /// A widget's name in a returned or destructured struct.
    Listed,
    /// A widget's construction.
    Built,
}

pub open spec fn pick(which: Pick, f: Fragment) -> Option<String> {
    match (which, f) {
        (Pick::Field, Fragment::WidgetField { name, .. }) => Some(name),
        (Pick::Listed, Fragment::WidgetName(name)) => Some(name),
        (Pick::Built, Fragment::Construct { name, .. }) => Some(name),
        _ => None,
    }
}

/// The widget names that the fragments of `s` record, in order.
pub open spec fn picked(s: Seq<Fragment>, which: Pick) -> Seq<String>
    decreases s.len(),
{
    if s.len() == 0 {
        seq![]
    } else {
        picked(s.drop_last(), which) + match pick(which, s.last()) {
            Some(x) => seq![x],
            None => seq![],
        }
    }
}

/// The names of `n` and of every widget beneath it, parents first, in
/// declaration order.
pub open spec fn node_names(n: WidgetNode) -> Seq<String>
    decreases n,
{
    seq![n.name] + props_names(n.properties@, n.properties@.len() as int) + match n.returned_widget {
        Some(rw) => returned_names(*rw),
        None => seq![],
    }
}

pub open spec fn returned_names(rw: ReturnedWidgetNode) -> Seq<String>
    decreases rw,
{
    seq![rw.name] + props_names(rw.properties@, rw.properties@.len() as int)
}

pub open spec fn props_names(ps: Seq<Property>, i: int) -> Seq<String>
    decreases ps, i,
{
    if i <= 0 || i > ps.len() {
        seq![]
    } else {
        props_names(ps, i - 1) + match ps[i - 1].kind {
            PropertyKind::WidgetValue(w) => node_names(w),
            _ => seq![],
        }
    }
}

/// The names of every widget of the first `i` top-level nodes.
pub open spec fn tops_names(ws: Seq<WidgetNode>, i: int) -> Seq<String>
    decreases i,
{
    if i <= 0 || i > ws.len() {
        seq![]
    } else {
        tops_names(ws, i - 1) + node_names(ws[i - 1])
    }
}

/// The names of every widget in the tree.
pub open spec fn tree_names(ws: Seq<WidgetNode>) -> Seq<String> {
    tops_names(ws, ws.len() as int)
}

pub proof fn lemma_picked_add(a: Seq<Fragment>, b: Seq<Fragment>, which: Pick)
    ensures
        picked(a + b, which) == picked(a, which) + picked(b, which),
    decreases b.len(),
{
    if b.len() == 0 {
        assert(a + b =~= a);
        assert(picked(a, which) + picked(b, which) =~= picked(a, which));
    } else {
        assert((a + b).drop_last() =~= a + b.drop_last());
        lemma_picked_add(a, b.drop_last(), which);
        assert(picked(a + b, which) =~= picked(a, which) + picked(b, which));
    }
}

/// The names that the streams of `m` record, stream by stream.
pub open spec fn names_recorded(m: StreamsModel, names: Seq<String>, built_as_root: Option<String>) -> bool {
    &&& picked(m.struct_fields, Pick::Field) == names
    &&& picked(m.return_fields, Pick::Listed) == names
    &&& picked(m.destructure_fields, Pick::Listed) == names
    &&& picked(m.init_root, Pick::Built) == match built_as_root {
        Some(x) => seq![x],
        None => seq![],
    }
    &&& picked(m.init_root, Pick::Built) + picked(m.init, Pick::Built) == names
}

proof fn lemma_recorded_append(
    a: StreamsModel,
    na: Seq<String>,
    ra: Option<String>,
    b: StreamsModel,
    nb: Seq<String>,
)
    requires
        names_recorded(a, na, ra),
        names_recorded(b, nb, None),
    ensures
        names_recorded(a.append(b), na + nb, ra),
{
    lemma_picked_add(a.struct_fields, b.struct_fields, Pick::Field);
    lemma_picked_add(a.return_fields, b.return_fields, Pick::Listed);
    lemma_picked_add(a.destructure_fields, b.destructure_fields, Pick::Listed);
    lemma_picked_add(a.init_root, b.init_root, Pick::Built);
    lemma_picked_add(a.init, b.init, Pick::Built);
    let ir = picked(a.init_root, Pick::Built);
    assert(ir + picked(b.init_root, Pick::Built) =~= ir);
    assert(ir + (picked(a.init, Pick::Built) + picked(b.init, Pick::Built))
        =~= (ir + picked(a.init, Pick::Built)) + picked(b.init, Pick::Built));
}

proof fn lemma_small_picked(s: Seq<Fragment>, which: Pick)
    requires
        s.len() <= 2,
    ensures
        s.len() == 0 ==> picked(s, which) == Seq::<String>::empty(),
        s.len() == 1 ==> picked(s, which) == match pick(which, s[0]) {
            Some(x) => seq![x],
            None => seq![],
        },
        s.len() == 2 ==> picked(s, which) == match pick(which, s[0]) {
            Some(x) => seq![x],
            None => seq![],
        } + match pick(which, s[1]) {
            Some(x) => seq![x],
            None => seq![],
        },
{
    let e = Seq::<Fragment>::empty();
    assert(picked(e, which) =~= Seq::<String>::empty());
    let one = |f: Fragment| match pick(which, f) {
        Some(x) => seq![x],
        None => Seq::<String>::empty(),
    };
    if s.len() == 1 {
        assert(s.drop_last() =~= e);
        assert(picked(s, which) =~= Seq::<String>::empty() + one(s[0]));
    } else if s.len() == 2 {
        let s1 = s.drop_last();
        assert(s1.drop_last() =~= e);
        assert(picked(s1, which) =~= Seq::<String>::empty() + one(s[0]));
        assert(picked(s1, which) =~= one(s[0]));
    }
}

proof fn lemma_head_names(name: String, constructor: String, type_path: String, as_root: bool)
    ensures
        names_recorded(
            head_out(name, constructor, type_path, as_root),
            seq![name],
            if as_root { Some(name) } else { None },
        ),
{
    let h = head_out(name, constructor, type_path, as_root);
    lemma_small_picked(h.struct_fields, Pick::Field);
    lemma_small_picked(h.return_fields, Pick::Listed);
    lemma_small_picked(h.destructure_fields, Pick::Listed);
    lemma_small_picked(h.init_root, Pick::Built);
    lemma_small_picked(h.init, Pick::Built);
    assert(picked(h.init_root, Pick::Built) + picked(h.init, Pick::Built) =~= seq![name]);
}

proof fn lemma_own_names(owner: String, p: Property)
    ensures
        names_recorded(prop_own_out(owner, p), seq![], None),
{
    let c = prop_own_out(owner, p);
    lemma_small_picked(c.struct_fields, Pick::Field);
    lemma_small_picked(c.return_fields, Pick::Listed);
    lemma_small_picked(c.destructure_fields, Pick::Listed);
    lemma_small_picked(c.init_root, Pick::Built);
    lemma_small_picked(c.init, Pick::Built);
    assert(picked(c.init_root, Pick::Built) + picked(c.init, Pick::Built) =~= Seq::<String>::empty());
}

proof fn lemma_empty_names()
    ensures
        names_recorded(StreamsModel::empty(), seq![], None),
{
    let e = StreamsModel::empty();
    assert(picked(e.init_root, Pick::Built) + picked(e.init, Pick::Built) =~= Seq::<String>::empty());
}

/// Every widget beneath and including `n` is recorded once in the struct,
/// return and destructure streams, parents first in declaration order, and
/// built exactly once: in `init_root` if and only if `n` is built as the root.
pub proof fn lemma_node_names(n: WidgetNode, as_root: bool)
    ensures
        names_recorded(node_out(n, as_root), node_names(n), if as_root { Some(n.name) } else { None }),
    decreases n,
{
    let h = head_out(n.name, n.constructor, n.type_path, as_root);
    let len = n.properties@.len() as int;
    lemma_head_names(n.name, n.constructor, n.type_path, as_root);
    lemma_props_names(n.name, n.properties@, len);
    lemma_recorded_append(
        h,
        seq![n.name],
        if as_root { Some(n.name) } else { None },
        props_out(n.name, n.properties@, len),
        props_names(n.properties@, len),
    );
    match n.returned_widget {
        Some(rw) => {
            lemma_returned_names(*rw);
            lemma_recorded_append(
                h.append(props_out(n.name, n.properties@, len)),
                seq![n.name] + props_names(n.properties@, len),
                if as_root { Some(n.name) } else { None },
                returned_out(*rw),
                returned_names(*rw),
            );
        },
        None => {
            lemma_empty_names();
            lemma_recorded_append(
                h.append(props_out(n.name, n.properties@, len)),
                seq![n.name] + props_names(n.properties@, len),
                if as_root { Some(n.name) } else { None },
                StreamsModel::empty(),
                seq![],
            );
            assert(seq![n.name] + props_names(n.properties@, len) + Seq::<String>::empty()
                =~= seq![n.name] + props_names(n.properties@, len));
        },
    }
}

/// A returned widget and every widget beneath it are recorded once, and none
/// of them is built as the root.
pub proof fn lemma_returned_names(rw: ReturnedWidgetNode)
    ensures
        names_recorded(returned_out(rw), returned_names(rw), None),
    decreases rw,
{
    let len = rw.properties@.len() as int;
    lemma_head_names(rw.name, rw.constructor, rw.type_path, false);
    lemma_props_names(rw.name, rw.properties@, len);
    lemma_recorded_append(
        head_out(rw.name, rw.constructor, rw.type_path, false),
        seq![rw.name],
        None,
        props_out(rw.name, rw.properties@, len),
        props_names(rw.properties@, len),
    );
}

/// The widgets beneath the first `i` properties are recorded once each, and
/// none of them is built as the root.
pub proof fn lemma_props_names(owner: String, ps: Seq<Property>, i: int)
    ensures
        names_recorded(props_out(owner, ps, i), props_names(ps, i), None),
    decreases ps, i,
{
    if i <= 0 || i > ps.len() {
        lemma_empty_names();
    } else {
        let p = ps[i - 1];
        lemma_props_names(owner, ps, i - 1);
        lemma_own_names(owner, p);
        match p.kind {
            PropertyKind::WidgetValue(w) => {
                lemma_node_names(w, false);
                lemma_recorded_append(prop_own_out(owner, p), seq![], None, node_out(w, false), node_names(w));
                assert(Seq::<String>::empty() + node_names(w) =~= node_names(w));
            },
            _ => {
                lemma_empty_names();
                lemma_recorded_append(prop_own_out(owner, p), seq![], None, StreamsModel::empty(), seq![]);
                assert(Seq::<String>::empty() + Seq::<String>::empty() =~= Seq::<String>::empty());
            },
        }
        lemma_recorded_append(
            props_out(owner, ps, i - 1),
            props_names(ps, i - 1),
            None,
            prop_out(owner, p),
            match p.kind {
                PropertyKind::WidgetValue(w) => node_names(w),
                _ => seq![],
            },
        );
    }
}


/// What the first `i` top-level nodes record: each widget once in the struct,
/// return and destructure streams, and built once over `init_root` and `init`
/// together.
proof fn lemma_tops_names(ws: Seq<WidgetNode>, i: int, standalone: bool)
    ensures
        picked(tops_out(ws, i, standalone).struct_fields, Pick::Field) == tops_names(ws, i),
        picked(tops_out(ws, i, standalone).return_fields, Pick::Listed) == tops_names(ws, i),
        picked(tops_out(ws, i, standalone).destructure_fields, Pick::Listed) == tops_names(ws, i),
        (picked(tops_out(ws, i, standalone).init_root, Pick::Built) + picked(
            tops_out(ws, i, standalone).init,
            Pick::Built,
        )).to_multiset() == tops_names(ws, i).to_multiset(),
    decreases i,
{
    broadcast use vstd::seq_lib::lemma_multiset_commutative;

    if i <= 0 || i > ws.len() {
        assert(picked(Seq::<Fragment>::empty(), Pick::Built) + picked(Seq::<Fragment>::empty(), Pick::Built)
            =~= Seq::<String>::empty());
    } else {
        let a = tops_out(ws, i - 1, standalone);
        let flag = !standalone && is_first_root(ws, i - 1);
        let b = node_out(ws[i - 1], flag);
        lemma_tops_names(ws, i - 1, standalone);
        lemma_node_names(ws[i - 1], flag);
        lemma_picked_add(a.struct_fields, b.struct_fields, Pick::Field);
        lemma_picked_add(a.return_fields, b.return_fields, Pick::Listed);
        lemma_picked_add(a.destructure_fields, b.destructure_fields, Pick::Listed);
        lemma_picked_add(a.init_root, b.init_root, Pick::Built);
        lemma_picked_add(a.init, b.init, Pick::Built);
        let ar = picked(a.init_root, Pick::Built);
        let ai = picked(a.init, Pick::Built);
        let br = picked(b.init_root, Pick::Built);
        let bi = picked(b.init, Pick::Built);
        assert((ar + br + (ai + bi)).to_multiset() =~= (ar + ai).to_multiset().add((br + bi).to_multiset()));
    }
}

/// What the first `i` top-level nodes build as the root: the first node
/// flagged as root, `k`, once it is among them.
proof fn lemma_tops_root_built(ws: Seq<WidgetNode>, i: int, standalone: bool, k: int)
    requires
        is_first_root(ws, k),
        !standalone,
    ensures
        picked(tops_out(ws, i, standalone).init_root, Pick::Built) == if k < i && i <= ws.len() {
            seq![ws[k].name]
        } else {
            Seq::<String>::empty()
        },
    decreases i,
{
    if 0 < i <= ws.len() {
        let a = tops_out(ws, i - 1, standalone);
        let flag = is_first_root(ws, i - 1);
        let b = node_out(ws[i - 1], flag);
        lemma_tops_root_built(ws, i - 1, standalone, k);
        lemma_node_names(ws[i - 1], flag);
        lemma_picked_add(a.init_root, b.init_root, Pick::Built);
        if flag {
            assert(!(k < i - 1)) by {
                if k < i - 1 {
                    assert(!ws[k].is_root);
                }
            }
            assert(k == i - 1) by {
                if k > i - 1 {
                    assert(!ws[i - 1].is_root);
                }
            }
            assert(Seq::<String>::empty() + seq![ws[k].name] =~= seq![ws[k].name]);
        } else {
            assert(k != i - 1);
            assert(picked(a.init_root, Pick::Built) + Seq::<String>::empty() =~= picked(a.init_root, Pick::Built));
        }
    }
}

/// With no node built as the root, nothing is built in `init_root`.
proof fn lemma_tops_no_root_built(ws: Seq<WidgetNode>, i: int, standalone: bool)
    requires
        standalone || forall|j: int| 0 <= j < ws.len() ==> !(#[trigger] ws[j]).is_root,
    ensures
        picked(tops_out(ws, i, standalone).init_root, Pick::Built) == Seq::<String>::empty(),
    decreases i,
{
    if 0 < i <= ws.len() {
        let a = tops_out(ws, i - 1, standalone);
        let b = node_out(ws[i - 1], false);
        lemma_tops_no_root_built(ws, i - 1, standalone);
        lemma_node_names(ws[i - 1], false);
        assert(!(!standalone && is_first_root(ws, i - 1)));
        lemma_picked_add(a.init_root, b.init_root, Pick::Built);
        assert(Seq::<String>::empty() + Seq::<String>::empty() =~= Seq::<String>::empty());
    }
}

/// Every widget of the tree, top-level, nested or returned, is named once in
/// the struct fields, once in the return fields and once in the destructure
/// fields, parents first in declaration order.
pub proof fn lemma_every_widget_listed_once(ws: Seq<WidgetNode>, standalone: bool)
    ensures
        picked(tree_out(ws, standalone).struct_fields, Pick::Field) == tree_names(ws),
        picked(tree_out(ws, standalone).return_fields, Pick::Listed) == tree_names(ws),
        picked(tree_out(ws, standalone).destructure_fields, Pick::Listed) == tree_names(ws),
        tree_names(ws).no_duplicates() ==> forall|x: String| #[trigger] tree_names(ws).contains(x) ==> {
            &&& picked(tree_out(ws, standalone).struct_fields, Pick::Field).to_multiset().count(x) == 1
            &&& picked(tree_out(ws, standalone).return_fields, Pick::Listed).to_multiset().count(x) == 1
            &&& picked(tree_out(ws, standalone).destructure_fields, Pick::Listed).to_multiset().count(x) == 1
        },
{
    lemma_tops_names(ws, ws.len() as int, standalone);
    if tree_names(ws).no_duplicates() {
        tree_names(ws).lemma_multiset_has_no_duplicates();
        assert forall|x: String| #[trigger] tree_names(ws).contains(x) implies tree_names(ws).to_multiset().count(
            x,
        ) == 1 by {
            broadcast use vstd::seq_lib::group_to_multiset_ensures;

        }
    }
}

/// Every widget of the tree is built exactly once, in `init_root` or in
/// `init`, and in `init_root` exactly when it is the resolved root: the first
/// top-level node flagged as root, unless the view is standalone.
pub proof fn lemma_every_widget_built_once(ws: Seq<WidgetNode>, standalone: bool)
    ensures
        forall|k: int| is_first_root(ws, k) && !standalone ==> picked(
            tree_out(ws, standalone).init_root,
            Pick::Built,
        ) == seq![ws[k].name],
        standalone || !has_root(ws) ==> picked(tree_out(ws, standalone).init_root, Pick::Built)
            == Seq::<String>::empty(),
        (picked(tree_out(ws, standalone).init_root, Pick::Built) + picked(
            tree_out(ws, standalone).init,
            Pick::Built,
        )).to_multiset() == tree_names(ws).to_multiset(),
        tree_names(ws).no_duplicates() ==> forall|x: String| #[trigger] tree_names(ws).contains(x)
            ==> picked(tree_out(ws, standalone).init_root, Pick::Built).to_multiset().count(x) + picked(
            tree_out(ws, standalone).init,
            Pick::Built,
        ).to_multiset().count(x) == 1,
{
    broadcast use vstd::seq_lib::lemma_multiset_commutative;

    let n = ws.len() as int;
    lemma_tops_names(ws, n, standalone);
    assert forall|k: int| is_first_root(ws, k) && !standalone implies picked(
        tree_out(ws, standalone).init_root,
        Pick::Built,
    ) == seq![ws[k].name] by {
        lemma_tops_root_built(ws, n, standalone, k);
    }
    if standalone || !has_root(ws) {
        lemma_tops_no_root_built(ws, n, standalone);
    }
    if tree_names(ws).no_duplicates() {
        let r = picked(tree_out(ws, standalone).init_root, Pick::Built);
        let b = picked(tree_out(ws, standalone).init, Pick::Built);
        tree_names(ws).lemma_multiset_has_no_duplicates();
        assert forall|x: String| #[trigger] tree_names(ws).contains(x) implies r.to_multiset().count(x)
            + b.to_multiset().count(x) == 1 by {
            broadcast use vstd::seq_lib::group_to_multiset_ensures;

            assert((r + b).to_multiset() =~= r.to_multiset().add(b.to_multiset()));
        }
    }
}


/// Everything emitted for properties `lo` up to, not including, `hi` of `ps`.
pub open spec fn props_between(owner: String, ps: Seq<Property>, lo: int, hi: int) -> StreamsModel
    decreases hi - lo,
{
    if hi <= lo || hi > ps.len() || lo < 0 {
        StreamsModel::empty()
    } else {
        props_between(owner, ps, lo, hi - 1).append(prop_out(owner, ps[hi - 1]))
    }
}

proof fn lemma_props_split(owner: String, ps: Seq<Property>, lo: int, hi: int)
    requires
        0 <= lo <= hi <= ps.len(),
    ensures
        props_out(owner, ps, hi) == props_out(owner, ps, lo).append(props_between(owner, ps, lo, hi)),
    decreases hi - lo,
{
    if hi == lo {
        lemma_append_empty(props_out(owner, ps, lo));
    } else {
        lemma_props_split(owner, ps, lo, hi - 1);
        lemma_append_assoc(
            props_out(owner, ps, lo),
            props_between(owner, ps, lo, hi - 1),
            prop_out(owner, ps[hi - 1]),
        );
    }
}

/// Declaration order is kept: for the property at index `k` of `n`, its own
/// entries and then the whole emission of the child widget it holds come
/// after `n`'s own entries and after everything emitted for the properties
/// declared before it, and before everything emitted for the properties
/// declared after it and for `n`'s returned widget. This holds in each of the
/// nine streams.
pub proof fn lemma_declaration_order(n: WidgetNode, as_root: bool, k: int)
    requires
        0 <= k < n.properties@.len(),
    ensures
        node_out(n, as_root) == head_out(n.name, n.constructor, n.type_path, as_root).append(
            props_out(n.name, n.properties@, k),
        ).append(prop_own_out(n.name, n.properties@[k])).append(
            match n.properties@[k].kind {
                PropertyKind::WidgetValue(w) => node_out(w, false),
                _ => StreamsModel::empty(),
            },
        ).append(props_between(n.name, n.properties@, k + 1, n.properties@.len() as int)).append(
            match n.returned_widget {
                Some(rw) => returned_out(*rw),
                None => StreamsModel::empty(),
            },
        ),
{
    let ps = n.properties@;
    let len = ps.len() as int;
    let h = head_out(n.name, n.constructor, n.type_path, as_root);
    let own = prop_own_out(n.name, ps[k]);
    let child = match ps[k].kind {
        PropertyKind::WidgetValue(w) => node_out(w, false),
        _ => StreamsModel::empty(),
    };
    let rest = props_between(n.name, ps, k + 1, len);
    let x = props_out(n.name, ps, k);
    lemma_props_split(n.name, ps, k + 1, len);
    assert(props_out(n.name, ps, k + 1) == x.append(prop_out(n.name, ps[k])));
    assert(prop_out(n.name, ps[k]) == own.append(child));
    lemma_append_assoc(h, x, own);
    lemma_append_assoc(h, x.append(own), child);
    lemma_append_assoc(x, own, child);
    assert(h.append(x).append(own).append(child) == h.append(props_out(n.name, ps, k + 1)));
    lemma_append_assoc(h, props_out(n.name, ps, k + 1), rest);
}

} // verus!
