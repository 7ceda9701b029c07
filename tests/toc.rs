use md_to_pdf::toc::generate_toc;

fn entries(items: &[(u8, &str)]) -> Vec<(u8, String)> {
    items.iter().map(|(d, s)| (*d, s.to_string())).collect()
}

/// Every `</ul>` and `</li>` closes the innermost open `<ul…>` or `<li>`,
/// and nothing stays open.
fn well_nested(html: &str) -> bool {
    let mut stack: Vec<&str> = Vec::new();
    let mut rest = html;
    while !rest.is_empty() {
        if rest.starts_with("<ul") {
            stack.push("ul");
        } else if rest.starts_with("<li>") {
            stack.push("li");
        } else if rest.starts_with("</ul>") {
            if stack.pop() != Some("ul") {
                return false;
            }
        } else if rest.starts_with("</li>") {
            if stack.pop() != Some("li") {
                return false;
            }
        }
        let mut chars = rest.chars();
        chars.next();
        rest = chars.as_str();
    }
    stack.is_empty()
}

#[test]
fn empty_toc() {
    let html = generate_toc(&[]);
    assert_eq!(html, "<ul class=\"table-of-contents\"></ul>");
    assert!(well_nested(&html));
}

#[test]
fn flat_entries() {
    let html = generate_toc(&entries(&[(0, "a"), (0, "b")]));
    assert_eq!(html, "<ul class=\"table-of-contents\"><li>a</li><li>b</li></ul>");
    assert!(well_nested(&html));
}

#[test]
fn nested_entries() {
    let html = generate_toc(&entries(&[(0, "T"), (1, "A"), (2, "B"), (1, "C")]));
    assert_eq!(
        html,
        "<ul class=\"table-of-contents\"><li>T<ul><li>A<ul><li>B</li></ul></li><li>C</li></ul></li></ul>"
    );
    assert!(well_nested(&html));
}

#[test]
fn drop_in_depth_closes_the_item_first() {
    let html = generate_toc(&entries(&[(1, "a"), (0, "b")]));
    assert_eq!(
        html,
        "<ul class=\"table-of-contents\"><li><ul><li>a</li></ul></li><li>b</li></ul>"
    );
    assert!(well_nested(&html));
}

#[test]
fn jump_from_zero_to_three() {
    let html = generate_toc(&entries(&[(0, "a"), (3, "b")]));
    assert_eq!(
        html,
        "<ul class=\"table-of-contents\"><li>a<ul><li><ul><li><ul><li>b</li></ul></li></ul></li></ul></li></ul>"
    );
    assert!(well_nested(&html));
}

#[test]
fn starts_deep_and_returns_to_zero() {
    let html = generate_toc(&entries(&[(2, "a"), (0, "b"), (1, "c")]));
    assert_eq!(
        html,
        "<ul class=\"table-of-contents\"><li><ul><li><ul><li>a</li></ul></li></ul></li>\
         <li>b<ul><li>c</li></ul></li></ul>"
    );
    assert!(well_nested(&html));
}

#[test]
fn many_random_depths_stay_well_nested() {
    let mut seed: u32 = 7;
    for _ in 0..50 {
        let mut items = Vec::new();
        for k in 0..12 {
            seed = seed.wrapping_mul(1103515245).wrapping_add(12345);
            items.push((((seed >> 16) % 6) as u8, format!("e{}", k)));
        }
        let html = generate_toc(&items);
        assert!(well_nested(&html));
        assert_eq!(html.matches("<ul").count(), html.matches("</ul>").count());
        assert_eq!(html.matches("<li>").count(), html.matches("</li>").count());
    }
}
