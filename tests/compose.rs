use md_to_pdf::compose::{merge_toc, stylesheets_html, title_link, DocumentOutline, Stylesheet};
use md_to_pdf::outline::{ContentNode, NodeKind};

fn heading(level: u8, label: &str) -> Vec<ContentNode> {
    vec![
        ContentNode { depth: 0, kind: NodeKind::Other },
        ContentNode { depth: 1, kind: NodeKind::Heading(level) },
        ContentNode { depth: 2, kind: NodeKind::Text(label.to_string()) },
    ]
}

#[test]
fn two_documents_merge_in_order() {
    let docs = vec![
        DocumentOutline { title: Some("A".to_string()), nodes: heading(1, "Sec") },
        DocumentOutline { title: None, nodes: heading(2, "Sub") },
    ];
    assert_eq!(
        merge_toc(&docs),
        vec![
            (0, "<a href=\"#_0\">A</a>".to_string()),
            (1, "<a href=\"#sec\">Sec</a>".to_string()),
            (2, "<a href=\"#sub\">Sub</a>".to_string()),
        ]
    );
}

#[test]
fn title_entries_are_numbered_by_position() {
    let docs = vec![
        DocumentOutline { title: None, nodes: vec![] },
        DocumentOutline { title: Some("B".to_string()), nodes: vec![] },
        DocumentOutline { title: Some("C".to_string()), nodes: heading(1, "Sec") },
    ];
    assert_eq!(
        merge_toc(&docs),
        vec![
            (0, "<a href=\"#_1\">B</a>".to_string()),
            (0, "<a href=\"#_2\">C</a>".to_string()),
            (1, "<a href=\"#sec\">Sec</a>".to_string()),
        ]
    );
    assert!(merge_toc(&[]).is_empty());
}

#[test]
fn title_link_numbers() {
    assert_eq!(title_link(0, "T"), "<a href=\"#_0\">T</a>");
    assert_eq!(title_link(12, "T"), "<a href=\"#_12\">T</a>");
    assert_eq!(title_link(1005, "x y"), "<a href=\"#_1005\">x y</a>");
}

#[test]
fn stylesheet_elements() {
    let base = Stylesheet { href: None, css: "p{}".to_string() };
    assert_eq!(stylesheets_html(&base, &[]), "<style id=\"base\" type=\"text/css\">p{}</style>");
    let base = Stylesheet { href: Some("b.css".to_string()), css: "a".to_string() };
    let extra = vec![
        Stylesheet { href: Some("x.css".to_string()), css: "x".to_string() },
        Stylesheet { href: None, css: "y".to_string() },
    ];
    assert_eq!(
        stylesheets_html(&base, &extra),
        "<style id=\"base\" data-href=\"b.css\" type=\"text/css\">a</style>\
         <style data-href=\"x.css\" type=\"text/css\">x</style>\
         <style type=\"text/css\">y</style>"
    );
}
