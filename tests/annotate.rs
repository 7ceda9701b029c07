use md_to_pdf::annotate::{
    annotate_html, apply_mappings, default_mapping, ext_link_mapping, heading_mapping,
    token_mapping, AnnotateOptions, Icons, Rule,
};

fn icons() -> Icons {
    Icons { link: vec![9, 9, 9], unchecked_task: vec![0, 0, 0], checked_task: vec![1, 2, 3] }
}

#[test]
fn default_order_pinned_output() {
    let mut html = "<li>[x] done</li>\n<li>plain</li>\n".to_string();
    let opts = AnnotateOptions { annotate_external_links: false, annotate_headings: false };
    assert_eq!(annotate_html(&mut html, &opts, &icons()), Ok(()));
    assert_eq!(
        html,
        "<li class=\"task_list\"><img src=\"data:image/gif;base64,AQID\" width=20px height=20px /> \
         <span class=\"crossed_out_text\">done</span></li>\n<li class=\"common_list\">plain</li>\n"
    );
}

#[test]
fn permuted_rules_change_output() {
    let task = Rule::new("<li>\\[x\\] (.*)</li>", "<li class=\"task\">$1</li>");
    let generic = Rule::new("<li>", "<li class=\"item\">");
    let mut first = "<li>[x] a</li>".to_string();
    let mut second = first.clone();
    assert_eq!(apply_mappings(&mut first, &[task.clone(), generic.clone()]), Ok(()));
    assert_eq!(apply_mappings(&mut second, &[generic, task]), Ok(()));
    assert_eq!(first, "<li class=\"task\">a</li>");
    assert_eq!(second, "<li class=\"item\">[x] a</li>");
    assert_ne!(first, second);
}

#[test]
fn each_rule_sees_the_previous_output_once() {
    let mut html = "a".to_string();
    let rules = vec![Rule::new("a", "aa"), Rule::new("a", "b")];
    assert_eq!(apply_mappings(&mut html, &rules), Ok(()));
    assert_eq!(html, "bb");
}

#[test]
fn bad_pattern_stops_the_pass() {
    let mut html = "x y".to_string();
    let rules = vec![Rule::new("x", "z"), Rule::new("(", "q"), Rule::new("y", "w")];
    assert_eq!(apply_mappings(&mut html, &rules), Err(1));
    assert_eq!(html, "z y");
}

#[test]
fn headings_and_links_annotated() {
    let mut html = "<h1>Top</h1>\n<p><a href=\"http://x\">x</a></p>\n".to_string();
    let opts = AnnotateOptions { annotate_external_links: true, annotate_headings: true };
    assert_eq!(annotate_html(&mut html, &opts, &icons()), Ok(()));
    assert_eq!(
        html,
        "<div class=\"page-break\"></div><h1><span class=\"header_sign\">H</span>\
         <span class=\"header_sign_num\">1</span>Top</h1>\n<p><span class=\"link_bracket\">[ </span>\
         <a href=\"http://x\">x</a><span class=\"link_bracket\"> ](</span>\
         <img src=\"data:image/gif;base64,CQkJ\" width=20px height=20px />\
         <span class=\"link_bracket\">)</span></p>\n"
    );
}

#[test]
fn table_sizes_and_order() {
    assert_eq!(token_mapping().len(), 18);
    assert_eq!(ext_link_mapping().len(), 1);
    assert_eq!(heading_mapping().len(), 7);
    let all = default_mapping(
        &AnnotateOptions { annotate_external_links: true, annotate_headings: false },
        &icons(),
    );
    assert_eq!(all.len(), 18 + 2 + 2);
    assert_eq!(all[18].pattern, "<a href=(\".*\")>(.*)</a>");
    assert_eq!(all[19].pattern, "__link_base64_tag__");
    assert_eq!(all[19].replacement, "CQkJ");
    assert_eq!(all[21].pattern, "__checked_task_base64_tag__");
    assert_eq!(all[21].replacement, "AQID");
}

#[test]
fn line_endings_get_breaks() {
    let mut html = "<p>one\ntwo</p>\n".to_string();
    let opts = AnnotateOptions { annotate_external_links: false, annotate_headings: false };
    assert_eq!(annotate_html(&mut html, &opts, &icons()), Ok(()));
    assert_eq!(html, "<p>one<br />\ntwo</p>\n");
}
