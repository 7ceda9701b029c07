use md_to_pdf::outline::{make_link, traverse_nodes, ContentNode, NodeKind};

fn node(depth: usize, kind: NodeKind) -> ContentNode {
    ContentNode { depth, kind }
}

fn text(s: &str) -> NodeKind {
    NodeKind::Text(s.to_string())
}

#[test]
fn single_heading_entry() {
    let nodes = vec![
        node(0, NodeKind::Other),
        node(1, NodeKind::Heading(1)),
        node(2, text("Hi")),
    ];
    assert_eq!(traverse_nodes(&nodes), vec![(1, "<a href=\"#hi\">Hi</a>".to_string())]);
}

#[test]
fn heading_label_gathers_nested_text() {
    let nodes = vec![
        node(0, NodeKind::Other),
        node(1, NodeKind::Heading(2)),
        node(2, text("Getting ")),
        node(2, NodeKind::Other),
        node(3, text("started")),
        node(1, NodeKind::Other),
        node(2, text("not a heading")),
    ];
    assert_eq!(
        traverse_nodes(&nodes),
        vec![(2, "<a href=\"#getting-started\">Getting started</a>".to_string())]
    );
}

#[test]
fn headings_in_document_order_with_unique_anchors() {
    let nodes = vec![
        node(0, NodeKind::Other),
        node(1, NodeKind::Heading(1)),
        node(2, text("Intro")),
        node(1, NodeKind::Other),
        node(2, NodeKind::Heading(3)),
        node(3, text("Intro")),
        node(1, NodeKind::Heading(2)),
        node(2, text("Done!")),
    ];
    assert_eq!(
        traverse_nodes(&nodes),
        vec![
            (1, "<a href=\"#intro\">Intro</a>".to_string()),
            (3, "<a href=\"#intro-1\">Intro</a>".to_string()),
            (2, "<a href=\"#done\">Done!</a>".to_string()),
        ]
    );
}

#[test]
fn no_headings() {
    let nodes = vec![node(0, NodeKind::Other), node(1, text("plain"))];
    assert!(traverse_nodes(&nodes).is_empty());
    assert!(traverse_nodes(&[]).is_empty());
}

#[test]
fn anchors_drop_punctuation_and_repeat_with_suffix() {
    let nodes = vec![
        node(0, NodeKind::Other),
        node(1, NodeKind::Heading(1)),
        node(2, text("Ticks aren't in")),
        node(1, NodeKind::Heading(1)),
        node(2, text("Ticks aren't in")),
    ];
    assert_eq!(
        traverse_nodes(&nodes),
        vec![
            (1, "<a href=\"#ticks-arent-in\">Ticks aren't in</a>".to_string()),
            (1, "<a href=\"#ticks-arent-in-1\">Ticks aren't in</a>".to_string()),
        ]
    );
}

#[test]
fn link_markup() {
    assert_eq!(make_link("a-b", "A B"), "<a href=\"#a-b\">A B</a>");
}
