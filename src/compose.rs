use vstd::prelude::*;
use vstd::string::StringExecFns;

use crate::frontmatter::Frontmatter;
use crate::outline::{headings, toc_entry, traverse_nodes, ContentNode};

verus! {

/// One converted input document: its position among the inputs, its
/// metadata if any was found, and its rendered body.
#[derive(Debug, Clone)]
pub struct Document {
    pub number: usize,
    pub frontmatter: Option<Frontmatter>,
    pub html: String,
}

/// What the table of contents needs of one input document: the title from
/// its metadata, and its content tree.
#[derive(Debug, Clone)]
pub struct DocumentOutline {
    pub title: Option<String>,
    pub nodes: Vec<ContentNode>,
}

pub open spec fn digit_char(d: nat) -> char {
    if d == 0 {
        '0'
    } else if d == 1 {
        '1'
    } else if d == 2 {
        '2'
    } else if d == 3 {
        '3'
    } else if d == 4 {
        '4'
    } else if d == 5 {
        '5'
    } else if d == 6 {
        '6'
    } else if d == 7 {
        '7'
    } else if d == 8 {
        '8'
    } else {
        '9'
    }
}

/// The decimal digits of `n`, without leading zeros.
pub open spec fn decimal(n: nat) -> Seq<char>
    decreases n,
{
    if n < 10 {
        seq![digit_char(n)]
    } else {
        decimal(n / 10).push(digit_char(n % 10))
    }
}

fn digit_str(d: usize) -> (r: &'static str)
    requires
        d < 10,
    ensures
        r@ == seq![digit_char(d as nat)],
{
    proof {
        reveal_strlit("0");
        reveal_strlit("1");
        reveal_strlit("2");
        reveal_strlit("3");
        reveal_strlit("4");
        reveal_strlit("5");
        reveal_strlit("6");
        reveal_strlit("7");
        reveal_strlit("8");
        reveal_strlit("9");
    }
    let r = if d == 0 {
        "0"
    } else if d == 1 {
        "1"
    } else if d == 2 {
        "2"
    } else if d == 3 {
        "3"
    } else if d == 4 {
        "4"
    } else if d == 5 {
        "5"
    } else if d == 6 {
        "6"
    } else if d == 7 {
        "7"
    } else if d == 8 {
        "8"
    } else {
        "9"
    };
    assert(r@ =~= seq![digit_char(d as nat)]);
    r
}

/// Appends the decimal digits of `n` to `text`.
pub fn push_decimal(text: &mut String, n: usize)
    ensures
        final(text)@ == old(text)@ + decimal(n as nat),
    decreases n,
{
    if n >= 10 {
        push_decimal(text, n / 10);
    }
    text.append(digit_str(n % 10));
    proof {
        if n >= 10 {
            assert(old(text)@ + decimal(n as nat) =~= old(text)@ + decimal((n / 10) as nat) + seq![
                digit_char((n % 10) as nat),
            ]);
        } else {
            assert(old(text)@ + decimal(n as nat) =~= old(text)@ + seq![digit_char(n as nat)]);
        }
    }
}

/// The link to the start of the `number`-th document, labelled with its title.
pub open spec fn title_link_spec(number: nat, title: Seq<char>) -> Seq<char> {
    "<a href=\"#_"@ + decimal(number) + "\">"@ + title + "</a>"@
}

/// `<a href="#_{number}">{title}</a>`
pub fn title_link(number: usize, title: &str) -> (r: String)
    ensures
        r@ == title_link_spec(number as nat, title@),
{
    let mut text = String::from_str("<a href=\"#_");
    push_decimal(&mut text, number);
    text.append("\">");
    text.append(title);
    text.append("</a>");
    text
}

pub open spec fn entries_view(entries: Seq<(u8, String)>) -> Seq<(u8, Seq<char>)> {
    entries.map_values(|e: (u8, String)| (e.0, e.1@))
}

/// The entries of one document: a depth-zero link to the document where it
/// has a title, then one entry per heading.
pub open spec fn document_entries(number: nat, title: Option<Seq<char>>, nodes: Seq<ContentNode>) -> Seq<
    (u8, Seq<char>),
> {
    (match title {
        Some(t) => seq![(0u8, title_link_spec(number, t))],
        None => Seq::empty(),
    }) + Seq::new(headings(nodes).len(), |k: int| toc_entry(headings(nodes), k))
}

pub open spec fn title_view(d: DocumentOutline) -> Option<Seq<char>> {
    match d.title {
        Some(t) => Some(t@),
        None => None,
    }
}

/// The entries of the first `n` documents, in input order.
pub open spec fn merged_entries(docs: Seq<DocumentOutline>, n: int) -> Seq<(u8, Seq<char>)>
    decreases n,
{
    if n <= 0 {
        Seq::empty()
    } else {
        merged_entries(docs, n - 1) + document_entries(
            (n - 1) as nat,
            title_view(docs[n - 1]),
            docs[n - 1].nodes@,
        )
    }
}

/// The table of contents entries of several documents, numbered by their
/// position: each document's title entry, if any, then its headings, with
/// later documents after earlier ones.
pub fn merge_toc(docs: &[DocumentOutline]) -> (r: Vec<(u8, String)>)
    ensures
        entries_view(r@) == merged_entries(docs@, docs@.len() as int),
{
    let mut toc: Vec<(u8, String)> = Vec::new();
    let mut i: usize = 0;
    while i < docs.len()
        invariant
            i <= docs@.len(),
            entries_view(toc@) == merged_entries(docs@, i as int),
        decreases docs@.len() - i,
    {
        let doc = &docs[i];
        let ghost before = toc@;
        let ghost title_part: Seq<(u8, Seq<char>)> = match title_view(*doc) {
            Some(t) => seq![(0u8, title_link_spec(i as nat, t))],
            None => Seq::empty(),
        };
        match &doc.title {
            Some(t) => {
                let link = title_link(i, t.as_str());
                toc.push((0u8, link));
            },
            None => {},
        }
        assert(entries_view(toc@) =~= entries_view(before) + title_part);
        let ghost mid = toc@;
        let mut entries = traverse_nodes(doc.nodes.as_slice());
        let ghost hs = headings(doc.nodes@);
        assert(entries_view(entries@) =~= Seq::new(hs.len(), |k: int| toc_entry(hs, k)));
        let ghost added = entries@;
        toc.append(&mut entries);
        assert(toc@ =~= mid + added);
        assert(entries_view(toc@) =~= entries_view(mid) + entries_view(added));
        i = i + 1;
    }
    toc
}

/// A stylesheet's text and, where it came from a file, that file's path.
#[derive(Debug, Clone)]
pub struct Stylesheet {
    pub href: Option<String>,
    pub css: String,
}

/// `<style id="base" data-href="..." type="text/css">css</style>`, where the
/// id appears only for the base sheet and `data-href` only with a path.
pub open spec fn style_element_spec(is_base: bool, sheet: Stylesheet) -> Seq<char> {
    "<style "@ + id_attribute(is_base) + href_attribute(sheet.href) + "type=\"text/css\">"@
        + sheet.css@ + "</style>"@
}

pub open spec fn id_attribute(is_base: bool) -> Seq<char> {
    if is_base {
        "id=\"base\" "@
    } else {
        Seq::empty()
    }
}

pub open spec fn href_attribute(href: Option<String>) -> Seq<char> {
    match href {
        Some(h) => "data-href=\""@ + h@ + "\" "@,
        None => Seq::empty(),
    }
}

/// The style elements of the first `n` additional sheets, in order.
pub open spec fn additional_styles(sheets: Seq<Stylesheet>, n: int) -> Seq<char>
    decreases n,
{
    if n <= 0 {
        Seq::empty()
    } else {
        additional_styles(sheets, n - 1) + style_element_spec(false, sheets[n - 1])
    }
}

fn push_style_element(text: &mut String, is_base: bool, sheet: &Stylesheet)
    ensures
        final(text)@ == old(text)@ + style_element_spec(is_base, *sheet),
{
    let ghost start = text@;
    text.append("<style ");
    if is_base {
        text.append("id=\"base\" ");
    }
    match &sheet.href {
        Some(h) => {
            text.append("data-href=\"");
            text.append(h.as_str());
            text.append("\" ");
        },
        None => {},
    }
    text.append("type=\"text/css\">");
    text.append(sheet.css.as_str());
    text.append("</style>");
    proof {
        assert(text@ =~= start + ("<style "@ + id_attribute(is_base) + href_attribute(sheet.href) + "type=\"text/css\">"@
            + sheet.css@ + "</style>"@));
    }
}

/// The style elements for the page: the base sheet, marked as such, then
/// each additional sheet in order.
pub fn stylesheets_html(base: &Stylesheet, additional: &[Stylesheet]) -> (r: String)
    ensures
        r@ == style_element_spec(true, *base) + additional_styles(
            additional@,
            additional@.len() as int,
        ),
{
    let mut text = String::new();
    push_style_element(&mut text, true, base);
    assert(text@ =~= style_element_spec(true, *base));
    let mut i: usize = 0;
    while i < additional.len()
        invariant
            i <= additional@.len(),
            text@ == style_element_spec(true, *base) + additional_styles(additional@, i as int),
        decreases additional@.len() - i,
    {
        push_style_element(&mut text, false, &additional[i]);
        assert(text@ =~= style_element_spec(true, *base) + additional_styles(
            additional@,
            i as int + 1,
        ));
        i = i + 1;
    }
    text
}

} // verus!
