use vstd::prelude::*;

use crate::emit::{tops_out, tree_out};
use crate::streams::{StreamsModel, TokenStreams};
use crate::tree::{ViewWidgets, WidgetNode};

verus! {

/// `i` is the first top-level node flagged as root.
pub open spec fn is_first_root(ws: Seq<WidgetNode>, i: int) -> bool {
    &&& 0 <= i < ws.len()
    &&& ws[i].is_root
    &&& forall|j: int| 0 <= j < i ==> !(#[trigger] ws[j]).is_root
}

/// Some top-level node is flagged as root.
pub open spec fn has_root(ws: Seq<WidgetNode>) -> bool {
    exists|i: int| 0 <= i < ws.len() && (#[trigger] ws[i]).is_root
}

/// When exactly one top-level node, `i`, is flagged as root, root resolution
/// succeeds and picks it: `root_type` then returns exactly its type.
pub proof fn lemma_single_root_resolves(ws: Seq<WidgetNode>, i: int)
    requires
        0 <= i < ws.len(),
        ws[i].is_root,
        forall|j: int| 0 <= j < ws.len() && j != i ==> !(#[trigger] ws[j]).is_root,
    ensures
        has_root(ws),
        is_first_root(ws, i),
        forall|k: int| is_first_root(ws, k) ==> k == i,
{
    assert(ws[i].is_root);
}

/// No top-level node is flagged as root; `location` is where the widget
/// declarations start.
#[derive(Clone, Copy, Debug)]
pub struct MissingRootError {
    pub location: proc_macro2::Span,
}

impl MissingRootError {
    /// The diagnostic shown at `location`.
    pub fn message(&self) -> (r: String)
        ensures
            r@ == "You need to specify the root widget using the `#[root]` attribute."@,
    {
        String::from_str("You need to specify the root widget using the `#[root]` attribute.")
    }
}

impl ViewWidgets {
    /// Emits every top-level node in order into a fresh stream set. The first
    /// node flagged as root is built as the root, unless `standalone_view`.
    pub fn generate_streams(&self, standalone_view: bool) -> (r: TokenStreams)
        ensures
            r@ == tree_out(self.top_level_widgets@, standalone_view),
    {
        let ws = &self.top_level_widgets;
        let mut streams = TokenStreams::new();
        let mut seen_root = false;
        let mut i: usize = 0;
        while i < ws.len()
            invariant
                0 <= i <= ws@.len(),
                streams@ == tops_out(ws@, i as int, standalone_view),
                seen_root == exists|j: int| 0 <= j < i && (#[trigger] ws@[j]).is_root,
            decreases ws@.len() - i,
        {
            let top = &ws[i];
            let as_root = !standalone_view && !seen_root && top.is_root;
            proof {
                if !seen_root && top.is_root {
                    assert(is_first_root(ws@, i as int));
                }
                if is_first_root(ws@, i as int) {
                    assert(!seen_root);
                }
            }
            top.init_token_generation(&mut streams, as_root);
            if top.is_root {
                seen_root = true;
            }
            i = i + 1;
        }
        streams
    }

    /// The type of the root widget: that of the first top-level node flagged
    /// as root, or the missing-root diagnostic at this tree's location.
    pub fn root_type(&self) -> (r: Result<String, MissingRootError>)
        ensures
            (r is Ok) <==> has_root(self.top_level_widgets@),
            forall|i: int| is_first_root(self.top_level_widgets@, i)
                ==> r == Ok::<String, MissingRootError>(self.top_level_widgets@[i].type_path),
            !has_root(self.top_level_widgets@) ==> r == Err::<String, MissingRootError>(
                MissingRootError { location: self.span },
            ),
    {
        let ws = &self.top_level_widgets;
        let mut i: usize = 0;
        while i < ws.len() && !ws[i].is_root
            invariant
                0 <= i <= ws@.len(),
                forall|j: int| 0 <= j < i ==> !(#[trigger] ws@[j]).is_root,
            decreases ws@.len() - i,
        {
            i = i + 1;
        }
        if i < ws.len() {
            proof {
                assert(is_first_root(ws@, i as int));
                assert forall|k: int| is_first_root(ws@, k) implies k == i by {
                    if k < i {
                        assert(!ws@[k].is_root);
                    } else if k > i {
                        assert(!ws@[i as int].is_root);
                    }
                }
            }
            Ok(ws[i].type_path.clone())
        } else {
            Err(MissingRootError { location: self.span })
        }
    }
}

} // verus!
