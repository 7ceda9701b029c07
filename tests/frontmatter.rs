use md_to_pdf::frontmatter::{Frontmatter, ScanError};

#[test]
fn locates_block_and_offset() {
    let input = "---\ntitle: X\n---\n# Hi\n";
    let (body, offset) = Frontmatter::locate(input).unwrap();
    assert_eq!(body, "title: X\n");
    assert_eq!(offset, 17);
    assert_eq!(&input[offset..], "# Hi\n");
    let value: serde_yaml::Value = serde_yaml::from_str(&body).unwrap();
    assert_eq!(value.get("title").and_then(|v| v.as_str()), Some("X"));
}

#[test]
fn leading_blank_space_is_skipped() {
    let (body, offset) = Frontmatter::locate(" \n\t---\na: 1\n---\nrest").unwrap();
    assert_eq!(body, "a: 1\n");
    assert_eq!(offset, 16);
}

#[test]
fn empty_block() {
    let (body, offset) = Frontmatter::locate("---\n---\n").unwrap();
    assert_eq!(body, "");
    assert_eq!(offset, 8);
}

#[test]
fn offset_counts_characters() {
    let input = "---\ntitle: é\n---\nafter";
    let (body, offset) = Frontmatter::locate(input).unwrap();
    assert_eq!(body, "title: é\n");
    assert_eq!(offset, 17);
    let rest: String = input.chars().skip(offset).collect();
    assert_eq!(rest, "after");
}

#[test]
fn missing_opening_marker() {
    assert_eq!(Frontmatter::locate("title: X\n---\n"), Err(ScanError::StartNotFound));
    assert_eq!(Frontmatter::locate("  \n# Heading"), Err(ScanError::StartNotFound));
}

#[test]
fn malformed_marker() {
    assert_eq!(Frontmatter::locate("--x\n"), Err(ScanError::MalformedMarker));
    assert_eq!(
        Frontmatter::locate("---\nauthor:\n- a\n---\n"),
        Err(ScanError::MalformedMarker)
    );
}

#[test]
fn marker_must_end_the_line() {
    assert_eq!(Frontmatter::locate("----\n"), Err(ScanError::ExpectedNewline('-')));
    assert_eq!(
        Frontmatter::locate("---\na: 1\n--- \n"),
        Err(ScanError::ExpectedNewline(' '))
    );
}

#[test]
fn unclosed_block() {
    assert_eq!(Frontmatter::locate(""), Err(ScanError::UnexpectedEnd));
    assert_eq!(Frontmatter::locate(" \n"), Err(ScanError::UnexpectedEnd));
    assert_eq!(Frontmatter::locate("---\ntitle: X\n"), Err(ScanError::UnexpectedEnd));
    assert_eq!(Frontmatter::locate("---\ntitle: X\n---"), Err(ScanError::UnexpectedEnd));
}

#[test]
fn reframing_round_trip() {
    let input = "\n---\ntitle: A\nkeywords: [x, y]\n---\nbody";
    let (body, _) = Frontmatter::locate(input).unwrap();
    let framed = Frontmatter::frame_block(&body);
    assert_eq!(framed, "---\ntitle: A\nkeywords: [x, y]\n---\n");
    let (again, offset) = Frontmatter::locate(&framed).unwrap();
    assert_eq!(again, body);
    assert_eq!(offset, framed.chars().count());
    let first: serde_yaml::Value = serde_yaml::from_str(&body).unwrap();
    let second: serde_yaml::Value = serde_yaml::from_str(&again).unwrap();
    assert_eq!(first, second);
}
