use vstd::prelude::*;
use vstd::string::StringExecFns;

verus! {

/// The pieces a rendered table of contents is made of.
pub ghost enum TocTag {
    /// The outermost list, `<ul class="table-of-contents">`.
    Root,
    ListOpen,
    ListClose,
    ItemOpen,
    ItemClose,
    /// An entry's label, written as it is.
    Label(Seq<char>),
}

pub open spec fn tag_text(t: TocTag) -> Seq<char> {
    match t {
        TocTag::Root => "<ul class=\"table-of-contents\">"@,
        TocTag::ListOpen => "<ul>"@,
        TocTag::ListClose => "</ul>"@,
        TocTag::ItemOpen => "<li>"@,
        TocTag::ItemClose => "</li>"@,
        TocTag::Label(s) => s,
    }
}

/// The text of a sequence of tags.
pub open spec fn text_of(tags: Seq<TocTag>) -> Seq<char>
    decreases tags.len(),
{
    if tags.len() == 0 {
        Seq::empty()
    } else {
        text_of(tags.drop_last()) + tag_text(tags.last())
    }
}

/// A state of the renderer: how deep it is in nested lists, whether an item
/// is open at that depth, and the tags written so far.
pub type TocState = (nat, bool, Seq<TocTag>);

/// One level up: close the open item, if any, then its list. The item that
/// wraps that list is then open.
pub open spec fn up(st: TocState) -> TocState {
    (
        (st.0 - 1) as nat,
        true,
        st.2 + (if st.1 {
            seq![TocTag::ItemClose]
        } else {
            Seq::empty()
        }) + seq![TocTag::ListClose],
    )
}

/// One level down: open an item to hold the new list unless one is open,
/// then open the list, in which no item is open yet.
pub open spec fn down(st: TocState) -> TocState {
    (
        st.0 + 1,
        false,
        st.2 + (if st.1 {
            Seq::empty()
        } else {
            seq![TocTag::ItemOpen]
        }) + seq![TocTag::ListOpen],
    )
}

/// Goes up until the depth is at most `d`.
pub open spec fn rise_to(st: TocState, d: nat) -> TocState
    decreases st.0,
{
    if st.0 > d {
        rise_to(up(st), d)
    } else {
        st
    }
}

/// Goes down until the depth is at least `d`.
pub open spec fn descend_to(st: TocState, d: nat) -> TocState
    decreases d - st.0,
{
    if st.0 < d {
        descend_to(down(st), d)
    } else {
        st
    }
}

/// One entry: move to its depth, close the item open there, if any, and
/// open a new item holding the label.
pub open spec fn entry_step(st: TocState, d: nat, label: Seq<char>) -> TocState {
    let s = descend_to(rise_to(st, d), d);
    (
        d,
        true,
        s.2 + (if s.1 {
            seq![TocTag::ItemClose]
        } else {
            Seq::empty()
        }) + seq![TocTag::ItemOpen, TocTag::Label(label)],
    )
}

/// The state after the first `n` entries.
pub open spec fn toc_run(entries: Seq<(u8, String)>, n: int) -> TocState
    decreases n,
{
    if n <= 0 {
        (0, false, seq![TocTag::Root])
    } else {
        entry_step(toc_run(entries, n - 1), entries[n - 1].0 as nat, entries[n - 1].1@)
    }
}

/// From a state with no item open, closes every nested list with the item
/// around it, then the outermost list.
pub open spec fn close_levels(st: TocState) -> Seq<TocTag>
    decreases st.0,
{
    if st.0 == 0 {
        st.2.push(TocTag::ListClose)
    } else {
        close_levels(((st.0 - 1) as nat, false, st.2 + seq![TocTag::ListClose, TocTag::ItemClose]))
    }
}

/// Closes the open item, if any, and then everything else.
pub open spec fn finish(st: TocState) -> Seq<TocTag> {
    close_levels(
        (
            st.0,
            false,
            st.2 + (if st.1 {
                seq![TocTag::ItemClose]
            } else {
                Seq::empty()
            }),
        ),
    )
}

/// All tags of the table of contents for `entries`.
pub open spec fn toc_tags(entries: Seq<(u8, String)>) -> Seq<TocTag> {
    finish(toc_run(entries, entries.len() as int))
}

/// What reading one tag does to `open`, the stack of open elements (`true`
/// for a list, `false` for an item); `None` if the tag closes something
/// other than the innermost open element.
pub open spec fn walk_step(t: TocTag, open: Seq<bool>) -> Option<Seq<bool>> {
    match t {
        TocTag::Root => Some(open.push(true)),
        TocTag::ListOpen => Some(open.push(true)),
        TocTag::ItemOpen => Some(open.push(false)),
        TocTag::ListClose => if open.len() > 0 && open.last() {
            Some(open.drop_last())
        } else {
            None
        },
        TocTag::ItemClose => if open.len() > 0 && !open.last() {
            Some(open.drop_last())
        } else {
            None
        },
        TocTag::Label(_) => Some(open),
    }
}

/// Reads `tags` from the front, starting with the stack `open`.
pub open spec fn walk(tags: Seq<TocTag>, open: Seq<bool>) -> Option<Seq<bool>>
    decreases tags.len(),
{
    if tags.len() == 0 {
        Some(open)
    } else {
        match walk_step(tags[0], open) {
            Some(s) => walk(tags.subrange(1, tags.len() as int), s),
            None => None,
        }
    }
}

/// Every close tag matches the innermost open element, and nothing stays
/// open.
pub open spec fn well_nested(tags: Seq<TocTag>) -> bool {
    walk(tags, Seq::empty()) == Some(Seq::<bool>::empty())
}

/// How many lists `tags` opens.
pub open spec fn count_opens(tags: Seq<TocTag>) -> nat
    decreases tags.len(),
{
    if tags.len() == 0 {
        0
    } else {
        (if tags[0] is Root || tags[0] is ListOpen {
            1nat
        } else {
            0nat
        }) + count_opens(tags.subrange(1, tags.len() as int))
    }
}

/// How many lists `tags` closes.
pub open spec fn count_closes(tags: Seq<TocTag>) -> nat
    decreases tags.len(),
{
    if tags.len() == 0 {
        0
    } else {
        (if tags[0] is ListClose {
            1nat
        } else {
            0nat
        }) + count_closes(tags.subrange(1, tags.len() as int))
    }
}

proof fn lemma_text_push(tags: Seq<TocTag>, t: TocTag)
    ensures
        text_of(tags.push(t)) == text_of(tags) + tag_text(t),
{
    assert(tags.push(t).drop_last() =~= tags);
}

/// Renders `(depth, label)` entries as one well-formed nested list. Depths
/// may rise or fall by any amount: each nested list sits in an item of its
/// own, and every element opened is closed again.
pub fn generate_toc(entries: &[(u8, String)]) -> (r: String)
    ensures
        r@ == text_of(toc_tags(entries@)),
{
    let mut toc_html = String::from_str("<ul class=\"table-of-contents\">");
    let ghost mut tags: Seq<TocTag> = seq![TocTag::Root];
    proof {
        lemma_text_push(Seq::empty(), TocTag::Root);
        assert(Seq::<TocTag>::empty().push(TocTag::Root) =~= tags);
        assert(text_of(Seq::<TocTag>::empty()) == Seq::<char>::empty());
        assert(Seq::<char>::empty() + tag_text(TocTag::Root) =~= tag_text(TocTag::Root));
    }
    let mut level: u8 = 0;
    let mut open = false;
    let mut i: usize = 0;
    while i < entries.len()
        invariant
            i <= entries@.len(),
            toc_run(entries@, i as int) == (level as nat, open, tags),
            toc_html@ == text_of(tags),
        decreases entries@.len() - i,
    {
        let d = entries[i].0;
        let link = &entries[i].1;
        let ghost st0: TocState = (level as nat, open, tags);
        while d < level
            invariant
                rise_to(st0, d as nat) == rise_to((level as nat, open, tags), d as nat),
                toc_html@ == text_of(tags),
            decreases level,
        {
            let ghost prev: TocState = (level as nat, open, tags);
            if open {
                toc_html.append("</li>");
                proof {
                    lemma_text_push(tags, TocTag::ItemClose);
                    tags = tags.push(TocTag::ItemClose);
                }
            }
            toc_html.append("</ul>");
            proof {
                lemma_text_push(tags, TocTag::ListClose);
                tags = tags.push(TocTag::ListClose);
            }
            level = level - 1;
            open = true;
            proof {
                assert(tags =~= up(prev).2);
                assert((level as nat, open, tags) == up(prev));
            }
        }
        let ghost st1: TocState = (level as nat, open, tags);
        assert(rise_to(st0, d as nat) == st1);
        while d > level
            invariant
                descend_to(st1, d as nat) == descend_to((level as nat, open, tags), d as nat),
                toc_html@ == text_of(tags),
            decreases d - level,
        {
            let ghost prev: TocState = (level as nat, open, tags);
            if !open {
                toc_html.append("<li>");
                proof {
                    lemma_text_push(tags, TocTag::ItemOpen);
                    tags = tags.push(TocTag::ItemOpen);
                }
            }
            toc_html.append("<ul>");
            proof {
                lemma_text_push(tags, TocTag::ListOpen);
                tags = tags.push(TocTag::ListOpen);
            }
            level = level + 1;
            open = false;
            proof {
                assert(tags =~= down(prev).2);
                assert((level as nat, open, tags) == down(prev));
            }
        }
        let ghost st2: TocState = (level as nat, open, tags);
        assert(descend_to(st1, d as nat) == st2);
        if open {
            toc_html.append("</li>");
            proof {
                lemma_text_push(tags, TocTag::ItemClose);
                tags = tags.push(TocTag::ItemClose);
            }
        }
        toc_html.append("<li>");
        proof {
            lemma_text_push(tags, TocTag::ItemOpen);
            tags = tags.push(TocTag::ItemOpen);
        }
        toc_html.append(link.as_str());
        proof {
            lemma_text_push(tags, TocTag::Label(link@));
            tags = tags.push(TocTag::Label(link@));
        }
        open = true;
        level = d;
        proof {
            assert(tags =~= entry_step(st0, d as nat, link@).2);
        }
        i = i + 1;
    }
    let ghost stf: TocState = (level as nat, open, tags);
    if open {
        toc_html.append("</li>");
        proof {
            lemma_text_push(tags, TocTag::ItemClose);
            tags = tags.push(TocTag::ItemClose);
        }
    }
    let ghost stc: TocState = (level as nat, false, tags);
    proof {
        assert(stc.2 =~= stf.2 + (if stf.1 {
            seq![TocTag::ItemClose]
        } else {
            Seq::empty()
        }));
    }
    while level > 0
        invariant
            close_levels(stc) == close_levels((level as nat, false, tags)),
            toc_html@ == text_of(tags),
        decreases level,
    {
        let ghost prev = tags;
        toc_html.append("</ul>");
        proof {
            lemma_text_push(tags, TocTag::ListClose);
            tags = tags.push(TocTag::ListClose);
        }
        toc_html.append("</li>");
        proof {
            lemma_text_push(tags, TocTag::ItemClose);
            tags = tags.push(TocTag::ItemClose);
        }
        level = level - 1;
        proof {
            assert(tags =~= prev + seq![TocTag::ListClose, TocTag::ItemClose]);
        }
    }
    toc_html.append("</ul>");
    proof {
        lemma_text_push(tags, TocTag::ListClose);
        tags = tags.push(TocTag::ListClose);
    }
    toc_html
}

/// How many lists are open on the stack `open`.
pub open spec fn lists(open: Seq<bool>) -> nat
    decreases open.len(),
{
    if open.len() == 0 {
        0
    } else {
        lists(open.drop_last()) + (if open.last() {
            1nat
        } else {
            0nat
        })
    }
}

/// `n` items, each holding an open list.
pub open spec fn nest(n: nat) -> Seq<bool>
    decreases n,
{
    if n == 0 {
        Seq::empty()
    } else {
        nest((n - 1) as nat) + seq![false, true]
    }
}

/// The open elements of the renderer at `level`, with an item open or not.
pub open spec fn stack_of(level: nat, open: bool) -> Seq<bool> {
    seq![true] + nest(level) + (if open {
        seq![false]
    } else {
        Seq::empty()
    })
}

pub open spec fn state_ok(st: TocState) -> bool {
    walk(st.2, Seq::empty()) == Some(stack_of(st.0, st.1))
}

proof fn lemma_walk_concat(a: Seq<TocTag>, b: Seq<TocTag>, s: Seq<bool>)
    ensures
        walk(a + b, s) == match walk(a, s) {
            Some(e) => walk(b, e),
            None => None,
        },
        count_opens(a + b) == count_opens(a) + count_opens(b),
        count_closes(a + b) == count_closes(a) + count_closes(b),
    decreases a.len(),
{
    if a.len() == 0 {
        assert(a + b =~= b);
    } else {
        let ab = a + b;
        assert(ab[0] == a[0]);
        assert(ab.subrange(1, ab.len() as int) =~= a.subrange(1, a.len() as int) + b);
        match walk_step(a[0], s) {
            Some(s2) => lemma_walk_concat(a.subrange(1, a.len() as int), b, s2),
            None => lemma_walk_concat(a.subrange(1, a.len() as int), b, s),
        }
    }
}

proof fn lemma_walk_single(t: TocTag, s: Seq<bool>)
    ensures
        walk(seq![t], s) == walk_step(t, s),
{
    let one = seq![t];
    assert(one.subrange(1, 1) =~= Seq::<TocTag>::empty());
    assert(one[0] == t);
    match walk_step(t, s) {
        Some(s2) => assert(walk(Seq::<TocTag>::empty(), s2) == Some(s2)),
        None => {},
    }
}

/// Appends one tag to the tags of a state whose stack is known.
proof fn lemma_walk_push(tags: Seq<TocTag>, t: TocTag, before: Seq<bool>)
    requires
        walk(tags, Seq::empty()) == Some(before),
    ensures
        walk(tags + seq![t], Seq::empty()) == walk_step(t, before),
{
    lemma_walk_single(t, before);
    lemma_walk_concat(tags, seq![t], Seq::empty());
}

proof fn lemma_walk_none(tags: Seq<TocTag>)
    ensures
        walk(tags + Seq::empty(), Seq::empty()) == walk(tags, Seq::empty()),
{
    assert(tags + Seq::<TocTag>::empty() =~= tags);
}

proof fn lemma_stack_facts(level: nat)
    ensures
        stack_of(level, false).push(false) =~= stack_of(level, true),
        stack_of(level, true).drop_last() =~= stack_of(level, false),
        stack_of(level, true).push(true) =~= stack_of(level + 1, false),
        stack_of(level, true).last() == false,
        stack_of(level, false).last() == true,
        level > 0 ==> stack_of(level, false).drop_last() =~= stack_of((level - 1) as nat, true),
{
    assert(nest(level + 1) == nest(level) + seq![false, true]);
    if level > 0 {
        assert(nest(level) == nest((level - 1) as nat) + seq![false, true]);
    }
}

proof fn lemma_up(st: TocState)
    requires
        st.0 > 0,
        state_ok(st),
    ensures
        state_ok(up(st)),
{
    let l = st.0;
    lemma_stack_facts(l);
    let a: Seq<TocTag> = if st.1 {
        seq![TocTag::ItemClose]
    } else {
        Seq::empty()
    };
    if st.1 {
        lemma_walk_push(st.2, TocTag::ItemClose, stack_of(l, true));
    } else {
        lemma_walk_none(st.2);
    }
    assert(walk(st.2 + a, Seq::empty()) == Some(stack_of(l, false)));
    lemma_walk_push(st.2 + a, TocTag::ListClose, stack_of(l, false));
}

proof fn lemma_down(st: TocState)
    requires
        state_ok(st),
    ensures
        state_ok(down(st)),
{
    let l = st.0;
    lemma_stack_facts(l);
    let a: Seq<TocTag> = if st.1 {
        Seq::empty()
    } else {
        seq![TocTag::ItemOpen]
    };
    if st.1 {
        lemma_walk_none(st.2);
    } else {
        lemma_walk_push(st.2, TocTag::ItemOpen, stack_of(l, false));
    }
    assert(walk(st.2 + a, Seq::empty()) == Some(stack_of(l, true)));
    lemma_walk_push(st.2 + a, TocTag::ListOpen, stack_of(l, true));
}

proof fn lemma_rise(st: TocState, d: nat)
    requires
        state_ok(st),
    ensures
        state_ok(rise_to(st, d)),
        rise_to(st, d).0 == (if st.0 > d {
            d
        } else {
            st.0
        }),
    decreases st.0,
{
    if st.0 > d {
        lemma_up(st);
        lemma_rise(up(st), d);
    }
}

proof fn lemma_descend(st: TocState, d: nat)
    requires
        state_ok(st),
    ensures
        state_ok(descend_to(st, d)),
        descend_to(st, d).0 == (if st.0 < d {
            d
        } else {
            st.0
        }),
    decreases d - st.0,
{
    if st.0 < d {
        lemma_down(st);
        lemma_descend(down(st), d);
    }
}

proof fn lemma_entry(st: TocState, d: nat, label: Seq<char>)
    requires
        state_ok(st),
    ensures
        state_ok(entry_step(st, d, label)),
{
    lemma_rise(st, d);
    let r = rise_to(st, d);
    lemma_descend(r, d);
    let s = descend_to(r, d);
    assert(s.0 == d);
    lemma_stack_facts(d);
    let a: Seq<TocTag> = if s.1 {
        seq![TocTag::ItemClose]
    } else {
        Seq::empty()
    };
    if s.1 {
        lemma_walk_push(s.2, TocTag::ItemClose, stack_of(d, true));
    } else {
        lemma_walk_none(s.2);
    }
    assert(walk(s.2 + a, Seq::empty()) == Some(stack_of(d, false)));
    lemma_walk_push(s.2 + a, TocTag::ItemOpen, stack_of(d, false));
    lemma_walk_push(s.2 + a + seq![TocTag::ItemOpen], TocTag::Label(label), stack_of(d, true));
    assert(s.2 + a + seq![TocTag::ItemOpen] + seq![TocTag::Label(label)] =~= s.2 + a + seq![
        TocTag::ItemOpen,
        TocTag::Label(label),
    ]);
}

proof fn lemma_run(entries: Seq<(u8, String)>, n: int)
    requires
        0 <= n <= entries.len(),
    ensures
        state_ok(toc_run(entries, n)),
    decreases n,
{
    if n == 0 {
        lemma_walk_push(Seq::empty(), TocTag::Root, Seq::empty());
        assert(Seq::<TocTag>::empty() + seq![TocTag::Root] =~= seq![TocTag::Root]);
        assert(stack_of(0, false) =~= seq![true]);
    } else {
        lemma_run(entries, n - 1);
        lemma_entry(toc_run(entries, n - 1), entries[n - 1].0 as nat, entries[n - 1].1@);
    }
}

proof fn lemma_close_levels(st: TocState)
    requires
        !st.1,
        state_ok(st),
    ensures
        well_nested(close_levels(st)),
    decreases st.0,
{
    let l = st.0;
    lemma_stack_facts(l);
    if l == 0 {
        lemma_walk_push(st.2, TocTag::ListClose, stack_of(0, false));
        assert(st.2 + seq![TocTag::ListClose] =~= st.2.push(TocTag::ListClose));
        assert(stack_of(0, false).drop_last() =~= Seq::<bool>::empty());
    } else {
        lemma_stack_facts((l - 1) as nat);
        lemma_walk_push(st.2, TocTag::ListClose, stack_of(l, false));
        lemma_walk_push(st.2 + seq![TocTag::ListClose], TocTag::ItemClose, stack_of((l - 1) as nat, true));
        assert(st.2 + seq![TocTag::ListClose] + seq![TocTag::ItemClose] =~= st.2 + seq![
            TocTag::ListClose,
            TocTag::ItemClose,
        ]);
        lemma_close_levels(
            ((l - 1) as nat, false, st.2 + seq![TocTag::ListClose, TocTag::ItemClose]),
        );
    }
}

proof fn lemma_counts(t: Seq<TocTag>, s: Seq<bool>)
    requires
        walk(t, s) is Some,
    ensures
        count_opens(t) + lists(s) == count_closes(t) + lists(walk(t, s)->Some_0),
    decreases t.len(),
{
    if t.len() > 0 {
        let s1 = walk_step(t[0], s)->Some_0;
        assert(s.push(true).drop_last() =~= s);
        assert(s.push(false).drop_last() =~= s);
        lemma_counts(t.subrange(1, t.len() as int), s1);
    }
}

/// Whatever the entries and however their depths rise or fall, the rendered
/// table of contents is well nested: every close tag matches the innermost
/// element still open, and nothing stays open at the end. So it opens
/// exactly as many lists as it closes.
pub proof fn lemma_toc_well_nested(entries: Seq<(u8, String)>)
    ensures
        well_nested(toc_tags(entries)),
        count_opens(toc_tags(entries)) == count_closes(toc_tags(entries)),
{
    let n = entries.len() as int;
    lemma_run(entries, n);
    let st = toc_run(entries, n);
    lemma_stack_facts(st.0);
    let a: Seq<TocTag> = if st.1 {
        seq![TocTag::ItemClose]
    } else {
        Seq::empty()
    };
    if st.1 {
        lemma_walk_push(st.2, TocTag::ItemClose, stack_of(st.0, true));
    } else {
        lemma_walk_none(st.2);
    }
    lemma_close_levels((st.0, false, st.2 + a));
    lemma_counts(toc_tags(entries), Seq::empty());
    assert(lists(Seq::<bool>::empty()) == 0);
}

} // verus!
