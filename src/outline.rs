use vstd::prelude::*;
use vstd::string::StringExecFns;

verus! {

#[verifier::external_type_specification]
#[verifier::external_body]
pub struct ExAnchorizer(comrak::Anchorizer);

/// The anchor that comrak's anchorizer gives `header` after it has been given
/// the headers in `seen`, in order.
pub uninterp spec fn anchor_after(seen: Seq<Seq<char>>, header: Seq<char>) -> Seq<char>;

/// Turns heading texts into unique anchors for one document.
pub(crate) struct Slugger {
    inner: comrak::Anchorizer,
    seen: Ghost<Seq<Seq<char>>>,
}

impl Slugger {
    /// The header texts anchorized so far, in order.
    pub(crate) closed spec fn history(&self) -> Seq<Seq<char>> {
        self.seen@
    }

    /// Relies on comrak::Anchorizer::new: a new anchorizer has seen no header.
    #[verifier::external_body]
    pub(crate) fn new() -> (r: Slugger)
        ensures
            r.history() == Seq::<Seq<char>>::empty(),
    {
        Slugger { inner: comrak::Anchorizer::new(), seen: Ghost(Seq::empty()) }
    }

    /// Relies on comrak::Anchorizer::anchorize: the anchor depends only on the
    /// header and on the headers anchorized before it.
    #[verifier::external_body]
    pub(crate) fn anchorize(&mut self, header: &str) -> (r: String)
        ensures
            r@ == anchor_after(old(self).history(), header@),
            final(self).history() == old(self).history().push(header@),
    {
        self.inner.anchorize(header.to_string())
    }
}

/// What a node of a content tree is.
#[derive(Debug, Clone, PartialEq, Eq)]
pub enum NodeKind {
    /// A heading of the given level.
    Heading(u8),
    /// Plain text.
    Text(String),
    /// Any other node; its text, if any, lies in its descendants.
    Other,
}

/// One node of a content tree. A tree is stored as its nodes in document
/// order (preorder), each with its depth: the descendants of a node are the
/// nodes that follow it while their depth is greater than its own.
#[derive(Debug, Clone, PartialEq, Eq)]
pub struct ContentNode {
    pub depth: usize,
    pub kind: NodeKind,
}

pub open spec fn own_text(n: ContentNode) -> Seq<char> {
    match n.kind {
        NodeKind::Text(t) => t@,
        _ => Seq::empty(),
    }
}

/// The first position from `j` on whose node is not deeper than `d`.
pub open spec fn subtree_end(nodes: Seq<ContentNode>, d: nat, j: int) -> int
    decreases nodes.len() - j,
{
    if j < 0 || j >= nodes.len() || nodes[j].depth <= d {
        j
    } else {
        subtree_end(nodes, d, j + 1)
    }
}

/// The text of the nodes in positions `from .. to`, in order.
pub open spec fn text_in(nodes: Seq<ContentNode>, from: int, to: int) -> Seq<char>
    decreases to - from,
{
    if to <= from {
        Seq::empty()
    } else {
        text_in(nodes, from, to - 1) + own_text(nodes[to - 1])
    }
}

/// The plain text of the descendants of the node at `i`.
pub open spec fn label_at(nodes: Seq<ContentNode>, i: int) -> Seq<char> {
    text_in(nodes, i + 1, subtree_end(nodes, nodes[i].depth as nat, i + 1))
}

/// The headings from position `i` on, in document order, as (level, text),
/// leaving out whatever lies inside a heading; `skip` is the depth of the
/// heading whose descendants are being passed over.
pub open spec fn headings_from(nodes: Seq<ContentNode>, i: int, skip: Option<nat>) -> Seq<
    (u8, Seq<char>),
>
    decreases nodes.len() - i,
{
    if i < 0 || i >= nodes.len() {
        Seq::empty()
    } else if skip is Some && nodes[i].depth > skip->Some_0 {
        headings_from(nodes, i + 1, skip)
    } else {
        match nodes[i].kind {
            NodeKind::Heading(level) => seq![(level, label_at(nodes, i))] + headings_from(
                nodes,
                i + 1,
                Some(nodes[i].depth as nat),
            ),
            _ => headings_from(nodes, i + 1, None),
        }
    }
}

/// The headings of a whole tree.
pub open spec fn headings(nodes: Seq<ContentNode>) -> Seq<(u8, Seq<char>)> {
    headings_from(nodes, 0, None)
}

pub open spec fn link_text(anchor: Seq<char>, label: Seq<char>) -> Seq<char> {
    "<a href=\"#"@ + anchor + "\">"@ + label + "</a>"@
}

pub open spec fn heading_texts(hs: Seq<(u8, Seq<char>)>) -> Seq<Seq<char>> {
    hs.map_values(|h: (u8, Seq<char>)| h.1)
}

/// The table of contents entry for the `k`-th heading: its level, and a link
/// to the anchor it gets after the headings before it.
pub open spec fn toc_entry(hs: Seq<(u8, Seq<char>)>, k: int) -> (u8, Seq<char>) {
    (hs[k].0, link_text(anchor_after(heading_texts(hs).take(k), hs[k].1), hs[k].1))
}

/// `<a href="#anchor">label</a>`
pub fn make_link(anchor: &str, label: &str) -> (r: String)
    ensures
        r@ == link_text(anchor@, label@),
{
    let mut text = String::from_str("<a href=\"#");
    text.append(anchor);
    text.append("\">");
    text.append(label);
    text.append("</a>");
    text
}

/// Collects the text of the nodes from `from` on while they are deeper than
/// `depth`; returns it with the position where it stopped.
pub fn gather_text(nodes: &[ContentNode], from: usize, depth: usize) -> (r: (String, usize))
    requires
        from <= nodes@.len(),
    ensures
        r.1 as int == subtree_end(nodes@, depth as nat, from as int),
        r.0@ == text_in(nodes@, from as int, r.1 as int),
{
    let mut text = String::new();
    let mut j = from;
    while j < nodes.len() && nodes[j].depth > depth
        invariant
            from <= j <= nodes@.len(),
            subtree_end(nodes@, depth as nat, from as int) == subtree_end(
                nodes@,
                depth as nat,
                j as int,
            ),
            text@ == text_in(nodes@, from as int, j as int),
        decreases nodes@.len() - j,
    {
        match &nodes[j].kind {
            NodeKind::Text(t) => {
                text.append(t.as_str());
            },
            _ => {
                assert(text@ + own_text(nodes@[j as int]) =~= text@);
            },
        }
        j = j + 1;
    }
    (text, j)
}

/// The table of contents entries of a content tree: one per heading, in
/// document order, with the heading's level and a link to its anchor.
pub fn traverse_nodes(nodes: &[ContentNode]) -> (r: Vec<(u8, String)>)
    ensures
        r@.len() == headings(nodes@).len(),
        forall|k: int|
            0 <= k < r@.len() ==> (#[trigger] r@[k]).0 == toc_entry(headings(nodes@), k).0
                && r@[k].1@ == toc_entry(headings(nodes@), k).1,
{
    let ghost all = headings(nodes@);
    let ghost mut done: Seq<(u8, Seq<char>)> = Seq::empty();
    let mut slugger = Slugger::new();
    let mut v: Vec<(u8, String)> = Vec::new();
    let mut skip: Option<usize> = None;
    let mut i: usize = 0;
    while i < nodes.len()
        invariant
            i <= nodes@.len(),
            all == headings(nodes@),
            all == done + headings_from(
                nodes@,
                i as int,
                match skip {
                    Some(d) => Some(d as nat),
                    None => None,
                },
            ),
            slugger.history() == heading_texts(done),
            v@.len() == done.len(),
            forall|k: int|
                0 <= k < v@.len() ==> (#[trigger] v@[k]).0 == toc_entry(all, k).0 && v@[k].1@
                    == toc_entry(all, k).1,
        decreases nodes@.len() - i,
    {
        let ghost sk = match skip {
            Some(d) => Some(d as nat),
            None => None::<nat>,
        };
        let inside = match skip {
            Some(d) => nodes[i].depth > d,
            None => false,
        };
        if !inside {
            match &nodes[i].kind {
                NodeKind::Heading(level) => {
                    let (label, _end) = gather_text(nodes, i + 1, nodes[i].depth);
                    let anchor = slugger.anchorize(label.as_str());
                    let link = make_link(anchor.as_str(), label.as_str());
                    proof {
                        let h = (*level, label@);
                        assert(headings_from(nodes@, i as int, sk) == seq![h] + headings_from(
                            nodes@,
                            i as int + 1,
                            Some(nodes@[i as int].depth as nat),
                        ));
                        assert(all == done.push(h) + headings_from(
                            nodes@,
                            i as int + 1,
                            Some(nodes@[i as int].depth as nat),
                        ));
                        assert(all[done.len() as int] == h);
                        assert(heading_texts(all).take(done.len() as int) =~= heading_texts(done));
                        assert(heading_texts(done.push(h)) =~= heading_texts(done).push(h.1));
                        done = done.push(h);
                    }
                    v.push((*level, link));
                    skip = Some(nodes[i].depth);
                },
                _ => {
                    skip = None;
                },
            }
        }
        i = i + 1;
    }
    proof {
        assert(all =~= done);
    }
    v
}

} // verus!
