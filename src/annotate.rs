use vstd::prelude::*;

use crate::assets::{base64_of, encodable, encode_base64};

verus! {

/// Whether the regex crate accepts `pattern`.
pub uninterp spec fn pattern_compiles(pattern: Seq<char>) -> bool;

/// `text` with every non-overlapping match of `pattern`, left to right,
/// replaced by `replacement`, in which `$n` stands for the `n`-th group.
pub uninterp spec fn replaced_all(pattern: Seq<char>, text: Seq<char>, replacement: Seq<char>) -> Seq<
    char,
>;

/// Relies on `regex::Regex::new`, which accepts or refuses a pattern by its
/// text alone, and on `Regex::replace_all`, whose result depends only on the
/// pattern, the text and the replacement.
#[verifier::external_body]
fn replace_all_matches(pattern: &str, text: &str, replacement: &str) -> (r: Option<String>)
    ensures
        r.is_some() == pattern_compiles(pattern@),
        r.is_some() ==> r.unwrap()@ == replaced_all(pattern@, text@, replacement@),
{
    match regex::Regex::new(pattern) {
        Ok(re) => Some(re.replace_all(text, replacement).into_owned()),
        Err(_) => None,
    }
}

/// One substitution: every match of `pattern` becomes `replacement`.
#[derive(Debug, Clone)]
pub struct Rule {
    pub pattern: String,
    pub replacement: String,
}

impl Rule {
    pub fn new(pattern: &str, replacement: &str) -> (r: Rule)
        ensures
            r.pattern@ == pattern@,
            r.replacement@ == replacement@,
    {
        Rule { pattern: pattern.to_owned(), replacement: replacement.to_owned() }
    }
}

pub open spec fn rule_view(r: Rule) -> (Seq<char>, Seq<char>) {
    (r.pattern@, r.replacement@)
}

pub open spec fn rules_view(rules: Seq<Rule>) -> Seq<(Seq<char>, Seq<char>)> {
    rules.map_values(|r: Rule| rule_view(r))
}

/// `text` after the first `n` rules, each applied to the whole output of
/// the ones before it.
pub open spec fn rewrite(text: Seq<char>, rules: Seq<(Seq<char>, Seq<char>)>, n: int) -> Seq<char>
    decreases n,
{
    if n <= 0 {
        text
    } else {
        replaced_all(rules[n - 1].0, rewrite(text, rules, n - 1), rules[n - 1].1)
    }
}

/// The first `n` patterns all compile.
pub open spec fn compiles_upto(rules: Seq<(Seq<char>, Seq<char>)>, n: int) -> bool {
    forall|k: int| 0 <= k < n ==> pattern_compiles(#[trigger] rules[k].0)
}

/// Applies `mapping` to `raw_html` in order, each rule over the whole text
/// before the next. Stops at the first rule whose pattern does not compile
/// and returns its position; the rules before it have been applied.
pub fn apply_mappings(raw_html: &mut String, mapping: &[Rule]) -> (r: Result<(), usize>)
    ensures
        match r {
            Ok(()) => compiles_upto(rules_view(mapping@), mapping@.len() as int)
                && final(raw_html)@ == rewrite(
                old(raw_html)@,
                rules_view(mapping@),
                mapping@.len() as int,
            ),
            Err(k) => k < mapping@.len() && compiles_upto(rules_view(mapping@), k as int)
                && !pattern_compiles(mapping@[k as int].pattern@) && final(raw_html)@ == rewrite(
                old(raw_html)@,
                rules_view(mapping@),
                k as int,
            ),
        },
{
    let ghost start = raw_html@;
    let ghost rules = rules_view(mapping@);
    let mut i: usize = 0;
    while i < mapping.len()
        invariant
            i <= mapping@.len(),
            rules == rules_view(mapping@),
            start == old(raw_html)@,
            compiles_upto(rules, i as int),
            raw_html@ == rewrite(start, rules, i as int),
        decreases mapping@.len() - i,
    {
        let rule = &mapping[i];
        match replace_all_matches(rule.pattern.as_str(), raw_html.as_str(), rule.replacement.as_str()) {
            Some(t) => {
                *raw_html = t;
            },
            None => {
                return Err(i);
            },
        }
        assert(rules[i as int] == rule_view(mapping@[i as int]));
        i = i + 1;
    }
    Ok(())
}

/// Rules that style generic markup: tags, quotes, underlined and crossed out text, line endings, marks, code and list items.
pub open spec fn token_rules() -> Seq<(Seq<char>, Seq<char>)> {
    seq![
        ("<p>#(.+)</p>"@, "<p class=\"tag\"><span class=\"tag_ns\">#</span>$1</p>"@),
        ("blockquote"@, "blockquote class=\"quote\""@),
        ("~~\n~~"@, "<br />"@),
        ("~\n~"@, "<br />"@),
        ("<p>~~(.*)~~</p>"@, "<p class=\"crossed_out_text\">$1</p>"@),
        ("<p>~(.*)~</p>"@, "<p class=\"underlined_text\">$1</p>"@),
        ("<img(.*)/>\\{width=([^}]+)\\}"@, "<img$1 style=\"width: $2\" />"@),
        ("([^>])\n"@, "$1<br />\n"@),
        ("</em>\n"@, "</em><br />\n"@),
        ("</strong>\n"@, "</strong><br />\n"@),
        ("<p>::(.*)::</p>"@, "<p class=\"mark\"><span class=\"mark_dots\">::</span>$1<span class=\"mark_dots\">::</span></p>"@),
        ("<pre><code( class=\"(.*)\")?>"@, "<pre><span class=\"code_multiline\"> $2\n<span class=\"code_backtick\">```</span><br />\n"@),
        ("</code></pre>"@, "<span class=\"code_backtick\">```</span>\n</span></pre>"@),
        ("^\\s*<code>(.*)</code>\\s*$"@, "$1<span class=\"code_singleline\"><span class=\"code_backtick\">` </span>$2<span class=\"code_backtick\"> `</span></span>$3"@),
        ("</?pre>"@, ""@),
        ("<li>\\[ \\] (.*)</li>"@, "<li class=\"task_list\"><img src=\"data:image/gif;base64,__unchecked_task_base64_tag__\" width=20px height=20px /> $1</li>"@),
        ("<li>\\[x\\] (.*)</li>"@, "<li class=\"task_list\"><img src=\"data:image/gif;base64,__checked_task_base64_tag__\" width=20px height=20px /> <span class=\"crossed_out_text\">$1</span></li>"@),
        ("<li>"@, "<li class=\"common_list\">"@),
    ]
}

/// Rules that style generic markup: tags, quotes, underlined and crossed out text, line endings, marks, code and list items.
pub fn token_mapping() -> (r: Vec<Rule>)
    ensures
        rules_view(r@) == token_rules(),
{
    let mut v: Vec<Rule> = Vec::new();
    v.push(Rule::new("<p>#(.+)</p>", "<p class=\"tag\"><span class=\"tag_ns\">#</span>$1</p>"));
    v.push(Rule::new("blockquote", "blockquote class=\"quote\""));
    v.push(Rule::new("~~\n~~", "<br />"));
    v.push(Rule::new("~\n~", "<br />"));
    v.push(Rule::new("<p>~~(.*)~~</p>", "<p class=\"crossed_out_text\">$1</p>"));
    v.push(Rule::new("<p>~(.*)~</p>", "<p class=\"underlined_text\">$1</p>"));
    v.push(Rule::new("<img(.*)/>\\{width=([^}]+)\\}", "<img$1 style=\"width: $2\" />"));
    v.push(Rule::new("([^>])\n", "$1<br />\n"));
    v.push(Rule::new("</em>\n", "</em><br />\n"));
    v.push(Rule::new("</strong>\n", "</strong><br />\n"));
    v.push(Rule::new("<p>::(.*)::</p>", "<p class=\"mark\"><span class=\"mark_dots\">::</span>$1<span class=\"mark_dots\">::</span></p>"));
    v.push(Rule::new("<pre><code( class=\"(.*)\")?>", "<pre><span class=\"code_multiline\"> $2\n<span class=\"code_backtick\">```</span><br />\n"));
    v.push(Rule::new("</code></pre>", "<span class=\"code_backtick\">```</span>\n</span></pre>"));
    v.push(Rule::new("^\\s*<code>(.*)</code>\\s*$", "$1<span class=\"code_singleline\"><span class=\"code_backtick\">` </span>$2<span class=\"code_backtick\"> `</span></span>$3"));
    v.push(Rule::new("</?pre>", ""));
    v.push(Rule::new("<li>\\[ \\] (.*)</li>", "<li class=\"task_list\"><img src=\"data:image/gif;base64,__unchecked_task_base64_tag__\" width=20px height=20px /> $1</li>"));
    v.push(Rule::new("<li>\\[x\\] (.*)</li>", "<li class=\"task_list\"><img src=\"data:image/gif;base64,__checked_task_base64_tag__\" width=20px height=20px /> <span class=\"crossed_out_text\">$1</span></li>"));
    v.push(Rule::new("<li>", "<li class=\"common_list\">"));
    proof {
        assert(rules_view(v@) =~= token_rules());
    }
    v
}

/// The rule that frames links in brackets and adds a link icon placeholder.
pub open spec fn ext_link_rules() -> Seq<(Seq<char>, Seq<char>)> {
    seq![
        ("<a href=(\".*\")>(.*)</a>"@, "<span class=\"link_bracket\">[ </span><a href=$1>$2</a><span class=\"link_bracket\"> ](</span><img src=\"data:image/gif;base64,__link_base64_tag__\" width=20px height=20px /><span class=\"link_bracket\">)</span>"@),
    ]
}

/// The rule that frames links in brackets and adds a link icon placeholder.
pub fn ext_link_mapping() -> (r: Vec<Rule>)
    ensures
        rules_view(r@) == ext_link_rules(),
{
    let mut v: Vec<Rule> = Vec::new();
    v.push(Rule::new("<a href=(\".*\")>(.*)</a>", "<span class=\"link_bracket\">[ </span><a href=$1>$2</a><span class=\"link_bracket\"> ](</span><img src=\"data:image/gif;base64,__link_base64_tag__\" width=20px height=20px /><span class=\"link_bracket\">)</span>"));
    proof {
        assert(rules_view(v@) =~= ext_link_rules());
    }
    v
}

/// Rules that decorate headings of levels one to six and break the page before each first-level heading.
pub open spec fn heading_rules() -> Seq<(Seq<char>, Seq<char>)> {
    seq![
        ("<h1>(.*)</h1>"@, "<h1><span class=\"header_sign\">H</span><span class=\"header_sign_num\">1</span>$1</h1>"@),
        ("<h2>(.*)</h2>"@, "<h2><span class=\"header_sign\">H</span><span class=\"header_sign_num\">2</span>$1</h2>"@),
        ("<h3>(.*)</h3>"@, "<h3><span class=\"header_sign\">H</span><span class=\"header_sign_num\">3</span>$1</h3>"@),
        ("<h4>(.*)</h4>"@, "<h4><span class=\"header_sign\">H</span><span class=\"header_sign_num\">4</span>$1</h4>"@),
        ("<h5>(.*)</h5>"@, "<h5><span class=\"header_sign\">H</span><span class=\"header_sign_num\">5</span>$1</h5>"@),
        ("<h6>(.*)</h6>"@, "<h6><span class=\"header_sign\">H</span><span class=\"header_sign_num\">6</span>$1</h6>"@),
        ("<h1>"@, "<div class=\"page-break\"></div><h1>"@),
    ]
}

/// Rules that decorate headings of levels one to six and break the page before each first-level heading.
pub fn heading_mapping() -> (r: Vec<Rule>)
    ensures
        rules_view(r@) == heading_rules(),
{
    let mut v: Vec<Rule> = Vec::new();
    v.push(Rule::new("<h1>(.*)</h1>", "<h1><span class=\"header_sign\">H</span><span class=\"header_sign_num\">1</span>$1</h1>"));
    v.push(Rule::new("<h2>(.*)</h2>", "<h2><span class=\"header_sign\">H</span><span class=\"header_sign_num\">2</span>$1</h2>"));
    v.push(Rule::new("<h3>(.*)</h3>", "<h3><span class=\"header_sign\">H</span><span class=\"header_sign_num\">3</span>$1</h3>"));
    v.push(Rule::new("<h4>(.*)</h4>", "<h4><span class=\"header_sign\">H</span><span class=\"header_sign_num\">4</span>$1</h4>"));
    v.push(Rule::new("<h5>(.*)</h5>", "<h5><span class=\"header_sign\">H</span><span class=\"header_sign_num\">5</span>$1</h5>"));
    v.push(Rule::new("<h6>(.*)</h6>", "<h6><span class=\"header_sign\">H</span><span class=\"header_sign_num\">6</span>$1</h6>"));
    v.push(Rule::new("<h1>", "<div class=\"page-break\"></div><h1>"));
    proof {
        assert(rules_view(v@) =~= heading_rules());
    }
    v
}

/// Which optional annotations to apply.
#[derive(Debug, Clone, Copy, PartialEq, Eq, Structural)]
pub struct AnnotateOptions {
    pub annotate_external_links: bool,
    pub annotate_headings: bool,
}

/// The pictures inlined for links and for unchecked and checked tasks.
#[derive(Debug, Clone)]
pub struct Icons {
    pub link: Vec<u8>,
    pub unchecked_task: Vec<u8>,
    pub checked_task: Vec<u8>,
}

impl Icons {
    pub open spec fn encodable(&self) -> bool {
        encodable(self.link@) && encodable(self.unchecked_task@) && encodable(
            self.checked_task@,
        )
    }
}

/// The rule that replaces the placeholder `tag` with the base64 text of `icon`.
pub open spec fn icon_rule(tag: Seq<char>, icon: Seq<u8>) -> (Seq<char>, Seq<char>) {
    (tag, base64_of(icon))
}

/// The full, ordered table: generic styling, then link and heading
/// annotations where asked for (each followed by the link icon), then the
/// task icons.
pub open spec fn default_rules(opts: AnnotateOptions, icons: Icons) -> Seq<(Seq<char>, Seq<char>)> {
    let link = icon_rule("__link_base64_tag__"@, icons.link@);
    token_rules() + (if opts.annotate_external_links {
        ext_link_rules().push(link)
    } else {
        Seq::empty()
    }) + (if opts.annotate_headings {
        heading_rules().push(link)
    } else {
        Seq::empty()
    }) + seq![
        icon_rule("__unchecked_task_base64_tag__"@, icons.unchecked_task@),
        icon_rule("__checked_task_base64_tag__"@, icons.checked_task@),
    ]
}

fn icon_mapping(tag: &str, icon: &[u8]) -> (r: Rule)
    requires
        encodable(icon@),
    ensures
        rule_view(r) == icon_rule(tag@, icon@),
{
    let payload = encode_base64(icon);
    Rule { pattern: tag.to_owned(), replacement: payload }
}

/// Builds the full, ordered rule table for `opts` and `icons`.
pub fn default_mapping(opts: &AnnotateOptions, icons: &Icons) -> (r: Vec<Rule>)
    requires
        icons.encodable(),
    ensures
        rules_view(r@) == default_rules(*opts, *icons),
{
    let mut rules = token_mapping();
    if opts.annotate_external_links {
        let mut more = ext_link_mapping();
        more.push(icon_mapping("__link_base64_tag__", icons.link.as_slice()));
        rules.append(&mut more);
    }
    proof {
        assert(rules_view(rules@) =~= token_rules() + (if opts.annotate_external_links {
            ext_link_rules().push(icon_rule("__link_base64_tag__"@, icons.link@))
        } else {
            Seq::empty()
        }));
    }
    let ghost after_links = rules_view(rules@);
    if opts.annotate_headings {
        let mut more = heading_mapping();
        more.push(icon_mapping("__link_base64_tag__", icons.link.as_slice()));
        rules.append(&mut more);
    }
    proof {
        assert(rules_view(rules@) =~= after_links + (if opts.annotate_headings {
            heading_rules().push(icon_rule("__link_base64_tag__"@, icons.link@))
        } else {
            Seq::empty()
        }));
    }
    let ghost after_headings = rules_view(rules@);
    rules.push(icon_mapping("__unchecked_task_base64_tag__", icons.unchecked_task.as_slice()));
    rules.push(icon_mapping("__checked_task_base64_tag__", icons.checked_task.as_slice()));
    proof {
        assert(rules_view(rules@) =~= after_headings + seq![
            icon_rule("__unchecked_task_base64_tag__"@, icons.unchecked_task@),
            icon_rule("__checked_task_base64_tag__"@, icons.checked_task@),
        ]);
    }
    rules
}

/// Styles rendered markup: applies the full rule table for `opts` and
/// `icons` in order. Fails with the position of the first rule whose
/// pattern does not compile.
pub fn annotate_html(raw_html: &mut String, opts: &AnnotateOptions, icons: &Icons) -> (r: Result<
    (),
    usize,
>)
    requires
        icons.encodable(),
    ensures
        match r {
            Ok(()) => final(raw_html)@ == rewrite(
                old(raw_html)@,
                default_rules(*opts, *icons),
                default_rules(*opts, *icons).len() as int,
            ),
            Err(k) => k < default_rules(*opts, *icons).len() && compiles_upto(
                default_rules(*opts, *icons),
                k as int,
            ) && !pattern_compiles(default_rules(*opts, *icons)[k as int].0) && final(raw_html)@
                == rewrite(old(raw_html)@, default_rules(*opts, *icons), k as int),
        },
{
    let rules = default_mapping(opts, icons);
    apply_mappings(raw_html, rules.as_slice())
}

} // verus!
