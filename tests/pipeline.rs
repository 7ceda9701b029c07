use std::cell::RefCell;

use comrak::{
    arena_tree::Node,
    nodes::{Ast, AstNode, NodeValue},
    parse_document, Arena, ComrakOptions,
};
use md_to_pdf::compose::{merge_toc, DocumentOutline};
use md_to_pdf::frontmatter::Frontmatter;
use md_to_pdf::outline::{traverse_nodes, ContentNode, NodeKind};

fn content_nodes<'a>(root: &'a AstNode<'a>) -> Vec<ContentNode> {
    root.descendants()
        .map(|node| ContentNode {
            depth: node.ancestors().count() - 1,
            kind: match &node.data.borrow().value {
                NodeValue::Heading(h) => NodeKind::Heading(h.level),
                NodeValue::Text(t) => NodeKind::Text(t.clone()),
                _ => NodeKind::Other,
            },
        })
        .collect()
}

fn nodes_of(markdown: &str) -> Vec<ContentNode> {
    let mut opts = ComrakOptions::default();
    opts.extension.front_matter_delimiter = Some("---".to_string());
    let arena: Arena<Node<RefCell<Ast>>> = Arena::new();
    let root = parse_document(&arena, markdown, &opts);
    content_nodes(root)
}

fn title_of(markdown: &str) -> Option<String> {
    let (body, _) = Frontmatter::locate(markdown).ok()?;
    let value: serde_yaml::Value = serde_yaml::from_str(&body).ok()?;
    value.get("title").and_then(|v| v.as_str()).map(|s| s.to_string())
}

#[test]
fn single_document_end_to_end() {
    let input = "---\ntitle: X\n---\n# Hi\n";
    let (body, offset) = Frontmatter::locate(input).unwrap();
    assert_eq!(body, "title: X\n");
    assert_eq!(offset, "---\ntitle: X\n---\n".len());
    assert_eq!(title_of(input), Some("X".to_string()));
    assert_eq!(traverse_nodes(&nodes_of(input)), vec![(1, "<a href=\"#hi\">Hi</a>".to_string())]);
}

#[test]
fn two_documents_end_to_end() {
    let first = "---\ntitle: A\n---\n# Sec\n";
    let second = "## Sub\n";
    assert_eq!(title_of(second), None);
    let docs = vec![
        DocumentOutline { title: title_of(first), nodes: nodes_of(first) },
        DocumentOutline { title: title_of(second), nodes: nodes_of(second) },
    ];
    assert_eq!(
        merge_toc(&docs),
        vec![
            (0, "<a href=\"#_0\">A</a>".to_string()),
            (1, "<a href=\"#sec\">Sec</a>".to_string()),
            (2, "<a href=\"#sub\">Sub</a>".to_string()),
        ]
    );
}

#[test]
fn formatted_heading_text_is_gathered() {
    let toc = traverse_nodes(&nodes_of("# A *very* `odd` title\n\ntext\n\n## Next\n"));
    assert_eq!(
        toc,
        vec![
            (1, "<a href=\"#a-very--title\">A very  title</a>".to_string()),
            (2, "<a href=\"#next\">Next</a>".to_string()),
        ]
    );
}
