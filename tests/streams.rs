use proc_macro2::Span;
use view_streams::{
    Fragment, MissingRootError, Property, PropertyKind, ReturnedWidgetNode, TokenStreams,
    ViewWidgets, WidgetNode,
};

fn s(x: &str) -> String {
    x.to_string()
}

fn plain(name: &str, init: Option<&str>, assign: Option<&str>, watch: Option<&str>) -> Property {
    Property {
        name: s(name),
        kind: PropertyKind::PlainValue {
            init: init.map(s),
            assign: assign.map(s),
            watch: watch.map(s),
        },
    }
}

fn signal(name: &str, callback: &str, handler: Option<&str>) -> Property {
    Property {
        name: s(name),
        kind: PropertyKind::Signal { callback: s(callback), handler: handler.map(s) },
    }
}

fn widget(name: &str, ty: &str, properties: Vec<Property>, is_root: bool) -> WidgetNode {
    WidgetNode {
        name: s(name),
        type_path: s(ty),
        constructor: format!("{}::default()", ty),
        properties,
        is_root,
        returned_widget: None,
    }
}

fn tree(top: Vec<WidgetNode>) -> ViewWidgets {
    ViewWidgets { top_level_widgets: top, span: Span::call_site() }
}

fn field_names(v: &[Fragment]) -> Vec<String> {
    v.iter()
        .filter_map(|f| match f {
            Fragment::WidgetField { name, .. } => Some(name.clone()),
            _ => None,
        })
        .collect()
}

fn listed_names(v: &[Fragment]) -> Vec<String> {
    v.iter()
        .filter_map(|f| match f {
            Fragment::WidgetName(name) => Some(name.clone()),
            _ => None,
        })
        .collect()
}

fn built_names(v: &[Fragment]) -> Vec<String> {
    v.iter()
        .filter_map(|f| match f {
            Fragment::Construct { name, .. } => Some(name.clone()),
            _ => None,
        })
        .collect()
}

fn window_tree() -> ViewWidgets {
    tree(vec![widget(
        "window",
        "Window",
        vec![
            plain("set_title", Some("let title = \"Hi\";"), Some("\"Hi\""), None),
            signal("connect_close_request", "move |_| sender.input(Msg::Close)", None),
        ],
        true,
    )])
}

#[test]
fn window_with_title_and_close() {
    let st = window_tree().generate_streams(false);
    assert_eq!(
        st.init_root,
        vec![
            Fragment::Construct { name: s("window"), expr: s("Window::default()") },
            Fragment::Name(s("window")),
        ]
    );
    assert_eq!(st.rename_root, vec![Fragment::RenameRoot(s("window"))]);
    assert_eq!(st.init, vec![Fragment::Init(s("let title = \"Hi\";"))]);
    assert_eq!(
        st.assign,
        vec![Fragment::Call { owner: s("window"), method: s("set_title"), value: s("\"Hi\"") }]
    );
    assert_eq!(
        st.connect,
        vec![Fragment::Connect {
            owner: s("window"),
            signal: s("connect_close_request"),
            callback: s("move |_| sender.input(Msg::Close)"),
            handler: None,
        }]
    );
    assert!(st.update_view.is_empty());
    assert_eq!(
        st.struct_fields,
        vec![Fragment::WidgetField { name: s("window"), type_path: s("Window") }]
    );
    assert_eq!(st.return_fields, vec![Fragment::WidgetName(s("window"))]);
    assert_eq!(st.destructure_fields, vec![Fragment::WidgetName(s("window"))]);
    assert_eq!(window_tree().root_type().ok(), Some(s("Window")));
}

#[test]
fn missing_root_still_emits_streams() {
    let t = tree(vec![widget("label", "Label", vec![plain("set_text", None, Some("\"x\""), None)], false)]);
    assert!(matches!(t.root_type(), Err(MissingRootError { .. })));
    let st = t.generate_streams(false);
    assert!(st.init_root.is_empty());
    assert!(st.rename_root.is_empty());
    assert_eq!(st.init, vec![Fragment::Construct { name: s("label"), expr: s("Label::default()") }]);
    assert_eq!(st.assign.len(), 1);
    assert_eq!(field_names(&st.struct_fields), vec![s("label")]);
}

#[test]
fn missing_root_message() {
    let e = MissingRootError { location: Span::call_site() };
    assert_eq!(e.message(), "You need to specify the root widget using the `#[root]` attribute.");
}

#[test]
fn empty_tree_has_no_root() {
    let t = tree(vec![]);
    assert!(t.root_type().is_err());
    assert_eq!(t.generate_streams(false), TokenStreams::new());
}

fn nested_tree() -> ViewWidgets {
    let dialog = ReturnedWidgetNode {
        name: s("dialog"),
        type_path: s("Dialog"),
        constructor: s("child.popup()"),
        properties: vec![
            plain("set_modal", None, Some("true"), None),
            signal("connect_response", "on_response", None),
        ],
    };
    let mut child = widget(
        "child",
        "Button",
        vec![
            plain("set_label", None, Some("\"Open\""), None),
            signal("connect_clicked", "on_click", None),
        ],
        false,
    );
    child.returned_widget = Some(Box::new(dialog));
    let nested = Property { name: s("set_child"), kind: PropertyKind::WidgetValue(child) };
    let after = plain("set_visible", None, Some("true"), Some("model.visible"));
    tree(vec![widget("root_box", "Box", vec![nested, after], true)])
}

#[test]
fn nested_child_with_returned_dialog() {
    let st = nested_tree().generate_streams(false);
    assert_eq!(st.struct_fields.len(), 3);
    assert_eq!(field_names(&st.struct_fields), vec![s("root_box"), s("child"), s("dialog")]);
    assert_eq!(listed_names(&st.return_fields), vec![s("root_box"), s("child"), s("dialog")]);
    assert_eq!(listed_names(&st.destructure_fields), vec![s("root_box"), s("child"), s("dialog")]);
    assert_eq!(built_names(&st.init_root), vec![s("root_box")]);
    assert_eq!(built_names(&st.init), vec![s("child"), s("dialog")]);
    let owners: Vec<(String, String)> = st
        .assign
        .iter()
        .map(|f| match f {
            Fragment::Call { owner, method, .. } => (owner.clone(), method.clone()),
            Fragment::Attach { owner, method, .. } => (owner.clone(), method.clone()),
            _ => panic!("unexpected assign fragment"),
        })
        .collect();
    assert_eq!(
        owners,
        vec![
            (s("root_box"), s("set_child")),
            (s("child"), s("set_label")),
            (s("dialog"), s("set_modal")),
            (s("root_box"), s("set_visible")),
        ]
    );
    let signals: Vec<String> = st
        .connect
        .iter()
        .map(|f| match f {
            Fragment::Connect { signal, .. } => signal.clone(),
            _ => panic!("unexpected connect fragment"),
        })
        .collect();
    assert_eq!(signals, vec![s("connect_clicked"), s("connect_response")]);
    assert_eq!(
        st.update_view,
        vec![Fragment::Call { owner: s("root_box"), method: s("set_visible"), value: s("model.visible") }]
    );
    assert_eq!(
        st.assign[0],
        Fragment::Attach { owner: s("root_box"), method: s("set_child"), child: s("child") }
    );
}

#[test]
fn first_flagged_root_wins() {
    let t = tree(vec![
        widget("a", "A", vec![], false),
        widget("b", "B", vec![], true),
        widget("c", "C", vec![], true),
    ]);
    assert_eq!(t.root_type().ok(), Some(s("B")));
    let st = t.generate_streams(false);
    assert_eq!(built_names(&st.init_root), vec![s("b")]);
    assert_eq!(built_names(&st.init), vec![s("a"), s("c")]);
    assert_eq!(st.rename_root, vec![Fragment::RenameRoot(s("b"))]);
}

#[test]
fn standalone_view_builds_no_root() {
    let st = window_tree().generate_streams(true);
    assert!(st.init_root.is_empty());
    assert!(st.rename_root.is_empty());
    assert_eq!(built_names(&st.init), vec![s("window")]);
    assert_eq!(field_names(&st.struct_fields), vec![s("window")]);
}

#[test]
fn properties_keep_declaration_order() {
    let t = tree(vec![widget(
        "entry",
        "Entry",
        vec![
            plain("set_a", None, Some("1"), Some("m.a")),
            signal("connect_x", "x", None),
            plain("set_b", None, Some("2"), Some("m.b")),
            signal("connect_y", "y", None),
            plain("set_c", None, Some("3"), None),
        ],
        true,
    )]);
    let st = t.generate_streams(false);
    let methods = |v: &[Fragment]| -> Vec<String> {
        v.iter()
            .map(|f| match f {
                Fragment::Call { method, .. } => method.clone(),
                Fragment::Connect { signal, .. } => signal.clone(),
                _ => panic!("unexpected fragment"),
            })
            .collect()
    };
    assert_eq!(methods(&st.assign), vec![s("set_a"), s("set_b"), s("set_c")]);
    assert_eq!(methods(&st.connect), vec![s("connect_x"), s("connect_y")]);
    assert_eq!(methods(&st.update_view), vec![s("set_a"), s("set_b")]);
}

#[test]
fn signal_handler_handles_are_kept() {
    let t = tree(vec![widget("btn", "Button", vec![signal("connect_clicked", "cb", Some("click_handler"))], true)]);
    let st = t.generate_streams(false);
    assert_eq!(
        st.struct_fields,
        vec![
            Fragment::WidgetField { name: s("btn"), type_path: s("Button") },
            Fragment::HandlerField(s("click_handler")),
        ]
    );
    assert_eq!(st.return_fields, vec![Fragment::WidgetName(s("btn")), Fragment::HandlerName(s("click_handler"))]);
    assert_eq!(st.destructure_fields, st.return_fields);
    assert_eq!(
        st.connect,
        vec![Fragment::Connect {
            owner: s("btn"),
            signal: s("connect_clicked"),
            callback: s("cb"),
            handler: Some(s("click_handler")),
        }]
    );
}

#[test]
fn top_level_returned_widget_is_emitted() {
    let mut top = widget("stack", "Stack", vec![], true);
    top.returned_widget = Some(Box::new(ReturnedWidgetNode {
        name: s("page"),
        type_path: s("StackPage"),
        constructor: s("stack.page()"),
        properties: vec![plain("set_title", None, Some("\"P\""), None)],
    }));
    let st = tree(vec![top]).generate_streams(false);
    assert_eq!(field_names(&st.struct_fields), vec![s("stack"), s("page")]);
    assert_eq!(built_names(&st.init), vec![s("page")]);
    assert_eq!(
        st.assign,
        vec![Fragment::Call { owner: s("page"), method: s("set_title"), value: s("\"P\"") }]
    );
}

#[test]
fn node_emission_appends_to_existing_streams() {
    let mut st = TokenStreams::new();
    let w = widget("one", "One", vec![plain("set_x", Some("init_x"), None, None)], false);
    w.init_token_generation(&mut st, false);
    w.init_token_generation(&mut st, true);
    assert_eq!(built_names(&st.init), vec![s("one")]);
    assert_eq!(built_names(&st.init_root), vec![s("one")]);
    assert_eq!(st.init[1], Fragment::Init(s("init_x")));
    assert_eq!(st.init[2], Fragment::Init(s("init_x")));
    assert_eq!(field_names(&st.struct_fields), vec![s("one"), s("one")]);
}
