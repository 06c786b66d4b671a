//! Laws of rendering that hold of every tree.
use vstd::prelude::*;

use crate::attribute::{Attribute, ValueView};
use crate::selector::{
    apply_explicit, apply_explicits, apply_part, apply_parts, final_attrs, is_class_key,
    merged_props, no_props, selector_tokens, with_id_first, PartView, PropsView,
};
use crate::text::{joined, keys_unique, lemma_key_position, lemma_upserted_keys_unique};
use crate::node::{
    element_body, html_of, html_of_all, hyperscript_items, hyperscript_items_all, hyperscript_of,
    inline_attrs, is_void, onclick_url, Node, NodeProperties, TagNode,
};

verus! {

/// Rendering depends on the tree alone: any two texts that the renderers may
/// return for one tree, in either form, are the same.
pub proof fn lemma_rendering_repeatable(
    n: Node,
    f: Seq<char>,
    html_first: Seq<char>,
    html_second: Seq<char>,
    script_first: Seq<char>,
    script_second: Seq<char>,
)
    requires
        html_first == html_of(n),
        html_second == html_of(n),
        script_first == hyperscript_of(n, f),
        script_second == hyperscript_of(n, f),
    ensures
        html_first == html_second,
        script_first == script_second,
{
}

/// A fragment with no children renders as nothing, in both forms.
pub proof fn lemma_empty_fragment_renders_nothing(t: TagNode, f: Seq<char>)
    requires
        t.properties is None,
        t.children@.len() == 0,
    ensures
        html_of(Node::Tag(t)) == Seq::<char>::empty(),
        hyperscript_of(Node::Tag(t), f) == Seq::<char>::empty(),
{
    assert(html_of_all(t.children@) == Seq::<char>::empty());
    assert(hyperscript_items_all(t.children@, f) == Seq::<Seq<char>>::empty());
}

/// A void element renders the same whatever children it was given, in both
/// forms: its children are never rendered.
pub proof fn lemma_void_element_ignores_children(
    p: NodeProperties,
    some: Vec<Node>,
    other: Vec<Node>,
    f: Seq<char>,
)
    requires
        is_void(p.tag@),
    ensures
        html_of(Node::Tag(TagNode { properties: Some(p), children: some })) == html_of(
            Node::Tag(TagNode { properties: Some(p), children: other }),
        ),
        hyperscript_of(Node::Tag(TagNode { properties: Some(p), children: some }), f)
            == hyperscript_of(Node::Tag(TagNode { properties: Some(p), children: other }), f),
{
}

/// Attributes whose values are event actions contribute nothing to the inline
/// attributes of an HTML start tag.
pub proof fn lemma_events_not_inline(attrs: Seq<Attribute>)
    ensures
        inline_attrs(attrs) == inline_attrs(attrs.filter(|a: Attribute| a.value is String)),
    decreases attrs.len(),
{
    reveal(Seq::filter);
    if attrs.len() > 0 {
        let pred = |a: Attribute| a.value is String;
        lemma_events_not_inline(attrs.drop_last());
        let sub = attrs.drop_last().filter(pred);
        if pred(attrs.last()) {
            assert(sub.push(attrs.last()).drop_last() == sub);
        }
    }
}

/// An element with an event action under `onclick` renders in HTML inside a
/// link to the action's URL, and without any event action among its
/// attributes.
pub proof fn lemma_onclick_wraps_in_link(p: NodeProperties, children: Vec<Node>, url: Seq<char>)
    requires
        onclick_url(p.attributes@) == Some(url),
    ensures
        html_of(Node::Tag(TagNode { properties: Some(p), children })) == "<a href=\""@ + url
            + "\">"@ + element_body(p, html_of_all(children@)) + "</a>"@,
        inline_attrs(p.attributes@) == inline_attrs(
            p.attributes@.filter(|a: Attribute| a.value is String),
        ),
{
    lemma_events_not_inline(p.attributes@);
}

/// The hyperscript texts of nodes that are not empty, in order.
pub open spec fn nonempty_hyperscripts(s: Seq<Node>, f: Seq<char>) -> Seq<Seq<char>>
    decreases s.len(),
{
    if s.len() == 0 {
        Seq::empty()
    } else {
        let h = hyperscript_of(s.last(), f);
        nonempty_hyperscripts(s.drop_last(), f) + if h.len() == 0 {
            Seq::<Seq<char>>::empty()
        } else {
            seq![h]
        }
    }
}

pub open spec fn all_nonempty(items: Seq<Seq<char>>) -> bool {
    forall|i: int| 0 <= i < items.len() ==> #[trigger] items[i].len() > 0
}

proof fn lemma_joined_empty(items: Seq<Seq<char>>, sep: Seq<char>)
    requires
        all_nonempty(items),
    ensures
        joined(items, sep).len() == 0 <==> items.len() == 0,
{
    if items.len() == 1 {
        assert(items[0].len() > 0);
    } else if items.len() > 1 {
        assert(items.last().len() > 0);
    }
}

proof fn lemma_joined_concat(a: Seq<Seq<char>>, b: Seq<Seq<char>>, sep: Seq<char>)
    ensures
        joined(a + b, sep) == if a.len() == 0 {
            joined(b, sep)
        } else if b.len() == 0 {
            joined(a, sep)
        } else {
            joined(a, sep) + sep + joined(b, sep)
        },
    decreases b.len(),
{
    if b.len() == 0 {
        assert(a + b == a);
    } else if a.len() == 0 {
        assert(a + b == b);
    } else {
        assert((a + b).drop_last() == a + b.drop_last());
        assert((a + b).last() == b.last());
        lemma_joined_concat(a, b.drop_last(), sep);
        if b.len() > 1 {
            let x = joined(a, sep);
            let y = joined(b.drop_last(), sep);
            assert(x + sep + y + sep + b.last() == x + sep + (y + sep + b.last()));
        }
    }
}

proof fn lemma_items_nonempty(n: Node, f: Seq<char>)
    ensures
        all_nonempty(hyperscript_items(n, f)),
    decreases n,
{
    reveal_strlit("(\"");
    reveal_strlit("\"");
    assert("(\""@.len() == 2);
    assert("\""@.len() == 1);
    match n {
        Node::Tag(t) => match t.properties {
            Some(p) => {},
            None => lemma_items_all_nonempty(t.children@, f),
        },
        _ => {},
    }
}

proof fn lemma_items_all_nonempty(s: Seq<Node>, f: Seq<char>)
    ensures
        all_nonempty(hyperscript_items_all(s, f)),
    decreases s,
{
    if s.len() > 0 {
        lemma_items_all_nonempty(s.drop_last(), f);
        lemma_items_nonempty(s.last(), f);
        let a = hyperscript_items_all(s.drop_last(), f);
        let b = hyperscript_items(s.last(), f);
        assert forall|i: int| 0 <= i < (a + b).len() implies #[trigger] (a + b)[i].len() > 0 by {
            if i < a.len() {
                assert((a + b)[i] == a[i]);
            } else {
                assert((a + b)[i] == b[i - a.len()]);
            }
        }
    }
}

proof fn lemma_nonempty_hyperscripts(s: Seq<Node>, f: Seq<char>)
    ensures
        all_nonempty(nonempty_hyperscripts(s, f)),
        joined(hyperscript_items_all(s, f), ","@) == joined(nonempty_hyperscripts(s, f), ","@),
    decreases s.len(),
{
    if s.len() > 0 {
        let dl = s.drop_last();
        lemma_nonempty_hyperscripts(dl, f);
        lemma_items_all_nonempty(dl, f);
        lemma_items_nonempty(s.last(), f);
        let a = hyperscript_items_all(dl, f);
        let b = hyperscript_items(s.last(), f);
        let na = nonempty_hyperscripts(dl, f);
        let h = hyperscript_of(s.last(), f);
        lemma_joined_concat(a, b, ","@);
        lemma_joined_empty(a, ","@);
        lemma_joined_empty(b, ","@);
        lemma_joined_empty(na, ","@);
        let tail = if h.len() == 0 {
            Seq::<Seq<char>>::empty()
        } else {
            seq![h]
        };
        lemma_joined_concat(na, tail, ","@);
        assert forall|i: int| 0 <= i < (na + tail).len() implies #[trigger] (na + tail)[i].len()
            > 0 by {
            if i < na.len() {
                assert((na + tail)[i] == na[i]);
            } else {
                assert((na + tail)[i] == tail[i - na.len()]);
            }
        }
        if h.len() > 0 {
            assert(joined(tail, ","@) == h);
        } else {
            assert(joined(tail, ","@) == Seq::<char>::empty());
        }
    }
}

/// A fragment renders in hyperscript as the texts of its children that are
/// not empty, joined by commas.
pub proof fn lemma_fragment_joins_children(t: TagNode, f: Seq<char>)
    requires
        t.properties is None,
    ensures
        hyperscript_of(Node::Tag(t), f) == joined(nonempty_hyperscripts(t.children@, f), ","@),
{
    lemma_nonempty_hyperscripts(t.children@, f);
}

/// No entry holds a string value under `class` or `className`.
pub open spec fn no_string_class(attrs: Seq<(Seq<char>, ValueView)>) -> bool {
    forall|i: int|
        0 <= i < attrs.len() ==> !(is_class_key(#[trigger] attrs[i].0) && attrs[i].1 is Text)
}

/// No entry has the key `id`.
pub open spec fn no_id_key(attrs: Seq<(Seq<char>, ValueView)>) -> bool {
    forall|i: int| 0 <= i < attrs.len() ==> #[trigger] attrs[i].0 != "id"@
}

proof fn lemma_id_not_class() 
    ensures
        !is_class_key("id"@),
{
    reveal_strlit("id");
    reveal_strlit("class");
    reveal_strlit("className");
    assert("id"@.len() == 2);
    assert("class"@.len() == 5);
    assert("className"@.len() == 9);
}

proof fn lemma_part_keeps_keys(p: PropsView, t: PartView)
    requires
        keys_unique(p.attrs),
        no_string_class(p.attrs),
        no_id_key(p.attrs),
    ensures
        keys_unique(apply_part(p, t).attrs),
        no_string_class(apply_part(p, t).attrs),
        no_id_key(apply_part(p, t).attrs),
{
    match t {
        PartView::Attr(k, v) => {
            if !is_class_key(k) && k != "id"@ {
                lemma_upserted_keys_unique(p.attrs, k, ValueView::Text(v));
            }
        },
        _ => {},
    }
    let r = apply_part(p, t).attrs;
    assert forall|i: int| 0 <= i < r.len() implies !(is_class_key(#[trigger] r[i].0) && r[i].1
        is Text) && r[i].0 != "id"@ by {
        if p.attrs.contains(r[i]) {
            let j = choose|j: int| 0 <= j < p.attrs.len() && p.attrs[j] == r[i];
            assert(!(is_class_key(p.attrs[j].0) && p.attrs[j].1 is Text));
            assert(p.attrs[j].0 != "id"@);
        }
    }
}

proof fn lemma_parts_keep_keys(p: PropsView, ts: Seq<PartView>)
    requires
        keys_unique(p.attrs),
        no_string_class(p.attrs),
        no_id_key(p.attrs),
    ensures
        keys_unique(apply_parts(p, ts).attrs),
        no_string_class(apply_parts(p, ts).attrs),
        no_id_key(apply_parts(p, ts).attrs),
    decreases ts.len(),
{
    if ts.len() > 0 {
        lemma_part_keeps_keys(p, ts[0]);
        lemma_parts_keep_keys(apply_part(p, ts[0]), ts.drop_first());
    }
}

proof fn lemma_explicits_keep_keys(p: PropsView, xs: Seq<(Seq<char>, ValueView)>)
    requires
        keys_unique(p.attrs),
        no_string_class(p.attrs),
    ensures
        keys_unique(apply_explicits(p, xs).attrs),
        no_string_class(apply_explicits(p, xs).attrs),
    decreases xs.len(),
{
    if xs.len() > 0 {
        lemma_explicits_keep_keys(p, xs.drop_last());
        let q = apply_explicits(p, xs.drop_last());
        let a = xs.last();
        if !(is_class_key(a.0) && a.1 is Text) {
            lemma_upserted_keys_unique(q.attrs, a.0, a.1);
            let r = apply_explicit(q, a).attrs;
            assert forall|i: int| 0 <= i < r.len() implies !(is_class_key(#[trigger] r[i].0)
                && r[i].1 is Text) by {
                if q.attrs.contains(r[i]) {
                    let j = choose|j: int| 0 <= j < q.attrs.len() && q.attrs[j] == r[i];
                    assert(!(is_class_key(q.attrs[j].0) && q.attrs[j].1 is Text));
                }
            }
        }
    }
}

proof fn lemma_explicits_keep_places(p: PropsView, xs: Seq<(Seq<char>, ValueView)>)
    ensures
        apply_explicits(p, xs).attrs.len() >= p.attrs.len(),
        forall|i: int|
            0 <= i < p.attrs.len() ==> #[trigger] apply_explicits(p, xs).attrs[i].0
                == p.attrs[i].0,
    decreases xs.len(),
{
    if xs.len() > 0 {
        lemma_explicits_keep_places(p, xs.drop_last());
        let q = apply_explicits(p, xs.drop_last());
        let a = xs.last();
        lemma_key_position(q.attrs, a.0, 0);
        let r = apply_explicit(q, a).attrs;
        assert forall|i: int| 0 <= i < p.attrs.len() implies #[trigger] r[i].0 == p.attrs[i].0 by {
            assert(q.attrs[i].0 == p.attrs[i].0);
        }
    }
}

/// The attributes that a selector and explicit attributes make together hold
/// each key once, apart from the classes; the classes, when there are any,
/// stand in one `class` attribute with a string value, the last one, and
/// no other attribute has a string value under `class` or `className`. When
/// the selector gives an id, `id` is the first attribute.
pub proof fn lemma_merged_attributes(selector: Seq<char>, explicit: Seq<(Seq<char>, ValueView)>)
    ensures
        keys_unique(merged_props(selector, explicit).attrs),
        apply_parts(no_props(), selector_tokens(selector)).id is Some ==> final_attrs(
            merged_props(selector, explicit),
        )[0].0 == "id"@,
        ({
            let p = merged_props(selector, explicit);
            let attrs = final_attrs(p);
            &&& p.classes.len() > 0 ==> attrs.last() == ("class"@, ValueView::Text(
                joined(p.classes, " "@),
            ))
            &&& forall|i: int|
                0 <= i < attrs.len() && is_class_key(#[trigger] attrs[i].0) && attrs[i].1 is Text
                    ==> p.classes.len() > 0 && i == attrs.len() - 1
        }),
{
    let p0 = no_props();
    assert(keys_unique(p0.attrs));
    assert(no_string_class(p0.attrs));
    assert(no_id_key(p0.attrs));
    let q = apply_parts(p0, selector_tokens(selector));
    lemma_parts_keep_keys(p0, selector_tokens(selector));
    let b = with_id_first(q);
    if q.id is Some {
        lemma_id_not_class();
        assert forall|a: int, c: int|
            0 <= a < b.attrs.len() && 0 <= c < b.attrs.len() && a != c implies b.attrs[a].0
            != b.attrs[c].0 by {
            if a > 0 && c > 0 {
                assert(b.attrs[a] == q.attrs[a - 1] && b.attrs[c] == q.attrs[c - 1]);
            } else if a > 0 {
                assert(b.attrs[a] == q.attrs[a - 1]);
            } else {
                assert(b.attrs[c] == q.attrs[c - 1]);
            }
        }
        assert forall|i: int| 0 <= i < b.attrs.len() implies !(is_class_key(
            #[trigger] b.attrs[i].0,
        ) && b.attrs[i].1 is Text) by {
            if i > 0 {
                assert(b.attrs[i] == q.attrs[i - 1]);
            }
        }
    }
    lemma_explicits_keep_keys(b, explicit);
    lemma_explicits_keep_places(b, explicit);
    let p = merged_props(selector, explicit);
    let attrs = final_attrs(p);
    assert forall|i: int|
        0 <= i < attrs.len() && is_class_key(#[trigger] attrs[i].0) && attrs[i].1 is Text
            implies p.classes.len() > 0 && i == attrs.len() - 1 by {
        if i < p.attrs.len() {
            assert(attrs[i] == p.attrs[i]);
        }
    }
}

} // verus!
