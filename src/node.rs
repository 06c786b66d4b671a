//! The node tree and its two renderings: static HTML and hyperscript.
use vstd::prelude::*;

use crate::attribute::{inline_html_item, json_object_item, Attribute, AttributeValue};
use crate::selector::{attr_views, explicit_views, final_attrs, merged_props, parse_elem_properties};
use crate::text::{join_with, joined, same_text, views_of};

verus! {

/// The tag name and the attributes of an element, in output order.
#[derive(Clone)]
pub struct NodeProperties {
    pub tag: String,
    pub attributes: Vec<Attribute>,
}

/// Literal text, rendered as it is.
#[derive(Clone)]
pub struct RawTextNode {
    content: String,
}

impl View for RawTextNode {
    type V = Seq<char>;

    closed spec fn view(&self) -> Seq<char> {
        self.content@
    }
}

impl RawTextNode {
    pub fn from(content: &str) -> (r: RawTextNode)
        ensures
            r@ == content@,
    {
        RawTextNode { content: String::from_str(content) }
    }

    pub fn content(&self) -> (r: &str)
        ensures
            r@ == self@,
    {
        self.content.as_str()
    }
}

/// An element, or a fragment when it has no properties: a fragment renders its
/// children with no wrapper of its own.
pub struct TagNode {
    pub properties: Option<NodeProperties>,
    pub children: Vec<Node>,
}

pub enum Node {
    Tag(TagNode),
    Text(RawTextNode),
    Html(RawTextNode),
    Empty,
}

impl Clone for TagNode {
    fn clone(&self) -> (r: TagNode)
        decreases self,
    {
        let mut children: Vec<Node> = Vec::new();
        let mut i: usize = 0;
        while i < self.children.len()
            decreases self.children@.len() - i,
        {
            children.push(self.children[i].clone());
            i = i + 1;
        }
        TagNode { properties: self.properties.clone(), children }
    }
}

impl Clone for Node {
    fn clone(&self) -> (r: Node)
        decreases self,
    {
        match self {
            Node::Tag(t) => Node::Tag(t.clone()),
            Node::Text(x) => Node::Text(x.clone()),
            Node::Html(x) => Node::Html(x.clone()),
            Node::Empty => Node::Empty,
        }
    }
}

/// The elements that have no end tag and no content.
pub open spec fn is_void(t: Seq<char>) -> bool {
    ||| t == "area"@
    ||| t == "base"@
    ||| t == "br"@
    ||| t == "col"@
    ||| t == "embed"@
    ||| t == "hr"@
    ||| t == "img"@
    ||| t == "input"@
    ||| t == "link"@
    ||| t == "meta"@
    ||| t == "param"@
    ||| t == "source"@
    ||| t == "track"@
    ||| t == "wbr"@
    ||| t == "command"@
    ||| t == "keygen"@
    ||| t == "menuitem"@
}

/// `c` is `t` or, for a lower-case ASCII letter `t`, a character whose lower
/// case is `t`.
pub open spec fn folds_to(c: char, t: char) -> bool {
    ||| c == t
    ||| ('a' <= t && t <= 'z' && c as int == t as int - 32)
    ||| (t == 'k' && c == '\u{212a}')
}

/// The character at `i` in `onclick`.
pub open spec fn onclick_at(i: int) -> char {
    if i == 0 {
        'o'
    } else if i == 1 {
        'n'
    } else if i == 2 {
        'c'
    } else if i == 3 {
        'l'
    } else if i == 4 {
        'i'
    } else if i == 5 {
        'c'
    } else {
        'k'
    }
}

/// The key `onclick`, in any case (as `str::to_lowercase` would compare it).
pub open spec fn is_onclick_key(k: Seq<char>) -> bool {
    k.len() == 7 && forall|i: int| 0 <= i < 7 ==> folds_to(#[trigger] k[i], onclick_at(i))
}

/// The URL of the last event action under an `onclick` key, if any.
pub open spec fn onclick_url(attrs: Seq<Attribute>) -> Option<Seq<char>>
    decreases attrs.len(),
{
    if attrs.len() == 0 {
        None
    } else {
        let a = attrs.last();
        if is_onclick_key(a.key@) && a.value is EventAction {
            Some(a.value->EventAction_0.url())
        } else {
            onclick_url(attrs.drop_last())
        }
    }
}

/// The attributes inside an HTML start tag: each string-valued one after a
/// space; event actions have no inline form.
pub open spec fn inline_attrs(attrs: Seq<Attribute>) -> Seq<char>
    decreases attrs.len(),
{
    if attrs.len() == 0 {
        Seq::empty()
    } else {
        inline_attrs(attrs.drop_last()) + if attrs.last().value is String {
            " "@ + inline_html_item(attrs.last()@)
        } else {
            Seq::empty()
        }
    }
}

/// An element as HTML, before any link around it.
pub open spec fn element_body(p: NodeProperties, inner: Seq<char>) -> Seq<char> {
    let tag = p.tag@;
    let start = "<"@ + tag + inline_attrs(p.attributes@);
    if is_void(tag) {
        start + " />"@
    } else {
        start + ">"@ + inner + "</"@ + tag + ">"@
    }
}

/// An element as HTML, around the HTML of its children; an `onclick` event
/// action puts a link to its URL around the whole.
pub open spec fn element_html(p: NodeProperties, inner: Seq<char>) -> Seq<char> {
    match onclick_url(p.attributes@) {
        Some(u) => "<a href=\""@ + u + "\">"@ + element_body(p, inner) + "</a>"@,
        None => element_body(p, inner),
    }
}

/// A node as HTML.
pub open spec fn html_of(n: Node) -> Seq<char>
    decreases n,
{
    match n {
        Node::Tag(t) => match t.properties {
            Some(p) => element_html(p, html_of_all(t.children@)),
            None => html_of_all(t.children@),
        },
        Node::Text(x) => x@,
        Node::Html(x) => x@,
        Node::Empty => Seq::empty(),
    }
}

/// Nodes as HTML, one after the other.
pub open spec fn html_of_all(s: Seq<Node>) -> Seq<char>
    decreases s,
{
    if s.len() == 0 {
        Seq::empty()
    } else {
        html_of_all(s.drop_last()) + html_of(s.last())
    }
}

pub open spec fn quoted(s: Seq<char>) -> Seq<char> {
    "\""@ + s + "\""@
}

/// The entries of a hyperscript attributes object.
pub open spec fn json_items(attrs: Seq<Attribute>, f: Seq<char>) -> Seq<Seq<char>> {
    attrs.map_values(|a: Attribute| json_object_item(a@, f))
}

/// The attributes argument of a hyperscript call: none when there are no
/// attributes.
pub open spec fn attrs_object(attrs: Seq<Attribute>, f: Seq<char>) -> Seq<char> {
    if attrs.len() == 0 {
        Seq::empty()
    } else {
        ",{"@ + joined(json_items(attrs, f), ","@) + "}"@
    }
}

/// The children argument of a hyperscript call: none, a single child, or a list.
pub open spec fn children_arg(items: Seq<Seq<char>>) -> Seq<char> {
    if items.len() == 0 {
        Seq::empty()
    } else if items.len() == 1 {
        ","@ + items[0]
    } else {
        ",["@ + joined(items, ","@) + "]"@
    }
}

/// An element as a hyperscript call, given its children's items.
pub open spec fn element_hyperscript(p: NodeProperties, items: Seq<Seq<char>>, f: Seq<char>) -> Seq<
    char,
> {
    f + "(\""@ + p.tag@ + "\""@ + attrs_object(p.attributes@, f) + if is_void(p.tag@) {
        Seq::<char>::empty()
    } else {
        children_arg(items)
    } + ")"@
}

/// What a node contributes to the children of a hyperscript call: an element
/// or a text one item, an empty node none, and a fragment the items of its
/// children.
pub open spec fn hyperscript_items(n: Node, f: Seq<char>) -> Seq<Seq<char>>
    decreases n,
{
    match n {
        Node::Tag(t) => match t.properties {
            Some(p) => seq![element_hyperscript(p, hyperscript_items_all(t.children@, f), f)],
            None => hyperscript_items_all(t.children@, f),
        },
        Node::Text(x) => seq![quoted(x@)],
        Node::Html(x) => seq![quoted(x@)],
        Node::Empty => Seq::empty(),
    }
}

/// The items of nodes, one after the other.
pub open spec fn hyperscript_items_all(s: Seq<Node>, f: Seq<char>) -> Seq<Seq<char>>
    decreases s,
{
    if s.len() == 0 {
        Seq::empty()
    } else {
        hyperscript_items_all(s.drop_last(), f) + hyperscript_items(s.last(), f)
    }
}

/// A node as hyperscript, calling through `f`: its items joined by commas.
pub open spec fn hyperscript_of(n: Node, f: Seq<char>) -> Seq<char> {
    joined(hyperscript_items(n, f), ","@)
}

fn is_void_element(tag: &str) -> (r: bool)
    ensures
        r == is_void(tag@),
{
    same_text(tag, "area") || same_text(tag, "base") || same_text(tag, "br") || same_text(
        tag,
        "col",
    ) || same_text(tag, "embed") || same_text(tag, "hr") || same_text(tag, "img") || same_text(
        tag,
        "input",
    ) || same_text(tag, "link") || same_text(tag, "meta") || same_text(tag, "param")
        || same_text(tag, "source") || same_text(tag, "track") || same_text(tag, "wbr")
        || same_text(tag, "command") || same_text(tag, "keygen") || same_text(tag, "menuitem")
}

fn char_folds_to(c: char, t: char) -> (r: bool)
    ensures
        r == folds_to(c, t),
{
    c == t || ('a' <= t && t <= 'z' && (c as u32) + 32 == (t as u32)) || (t == 'k' && c
        == '\u{212a}')
}

fn onclick_char(i: usize) -> (c: char)
    ensures
        c == onclick_at(i as int),
{
    if i == 0 {
        'o'
    } else if i == 1 {
        'n'
    } else if i == 2 {
        'c'
    } else if i == 3 {
        'l'
    } else if i == 4 {
        'i'
    } else if i == 5 {
        'c'
    } else {
        'k'
    }
}

fn is_onclick(k: &str) -> (r: bool)
    ensures
        r == is_onclick_key(k@),
{
    if k.unicode_len() != 7 {
        return false;
    }
    let mut i: usize = 0;
    while i < 7
        invariant
            k@.len() == 7,
            i <= 7,
            forall|j: int| 0 <= j < i ==> folds_to(#[trigger] k@[j], onclick_at(j)),
        decreases 7 - i,
    {
        let c = k.get_char(i);
        if !char_folds_to(c, onclick_char(i)) {
            assert(!folds_to(k@[i as int], onclick_at(i as int)));
            return false;
        }
        i = i + 1;
    }
    true
}

/// The URL of the last event action under an `onclick` key, if any.
fn find_onclick_url(attrs: &Vec<Attribute>) -> (r: Option<&str>)
    ensures
        match r {
            Some(u) => onclick_url(attrs@) == Some(u@),
            None => onclick_url(attrs@) is None,
        },
{
    let mut found: Option<&str> = None;
    let mut i: usize = 0;
    while i < attrs.len()
        invariant
            i <= attrs@.len(),
            match found {
                Some(u) => onclick_url(attrs@.subrange(0, i as int)) == Some(u@),
                None => onclick_url(attrs@.subrange(0, i as int)) is None,
            },
        decreases attrs@.len() - i,
    {
        let ghost next = attrs@.subrange(0, i + 1);
        assert(next.drop_last() == attrs@.subrange(0, i as int));
        assert(next.last() == attrs@[i as int]);
        let a = &attrs[i];
        if is_onclick(a.key.as_str()) {
            match &a.value {
                AttributeValue::EventAction(e) => {
                    let crate::event::HtmlAction::Redirect { url } = e.html_action();
                    found = Some(url.as_str());
                },
                AttributeValue::String(_) => {},
            }
        }
        i = i + 1;
    }
    assert(attrs@.subrange(0, attrs@.len() as int) == attrs@);
    found
}

/// Appends the attributes of an HTML start tag.
fn write_inline_attrs(attrs: &Vec<Attribute>, out: &mut String)
    ensures
        final(out)@ == old(out)@ + inline_attrs(attrs@),
{
    let ghost start = out@;
    let mut i: usize = 0;
    while i < attrs.len()
        invariant
            i <= attrs@.len(),
            out@ == start + inline_attrs(attrs@.subrange(0, i as int)),
        decreases attrs@.len() - i,
    {
        let ghost next = attrs@.subrange(0, i + 1);
        assert(next.drop_last() == attrs@.subrange(0, i as int));
        assert(next.last() == attrs@[i as int]);
        let a = &attrs[i];
        if let AttributeValue::String(_) = &a.value {
            let item = a.to_inline_html_item();
            out.append(" ");
            out.append(item.as_str());
        }
        i = i + 1;
    }
    assert(attrs@.subrange(0, attrs@.len() as int) == attrs@);
}

/// The attributes argument of a hyperscript call.
fn attributes_object(attrs: &Vec<Attribute>, function_name: &str) -> (r: String)
    ensures
        r@ == attrs_object(attrs@, function_name@),
{
    if attrs.len() == 0 {
        return String::new();
    }
    let mut items: Vec<String> = Vec::new();
    let mut i: usize = 0;
    while i < attrs.len()
        invariant
            i <= attrs@.len(),
            views_of(items@) == json_items(attrs@.subrange(0, i as int), function_name@),
        decreases attrs@.len() - i,
    {
        let item = attrs[i].to_json_object_item(function_name);
        let ghost before = views_of(items@);
        items.push(item);
        assert(views_of(items@) == before.push(item@));
        assert(json_items(attrs@.subrange(0, i + 1), function_name@) == json_items(
            attrs@.subrange(0, i as int),
            function_name@,
        ).push(json_object_item(attrs@[i as int]@, function_name@)));
        i = i + 1;
    }
    assert(attrs@.subrange(0, attrs@.len() as int) == attrs@);
    let mut r = String::from_str(",{");
    let body = join_with(&items, ",");
    r.append(body.as_str());
    r.append("}");
    r
}

/// The children argument of a hyperscript call.
fn children_argument(items: &Vec<String>) -> (r: String)
    ensures
        r@ == children_arg(views_of(items@)),
{
    if items.len() == 0 {
        String::new()
    } else if items.len() == 1 {
        let mut r = String::from_str(",");
        r.append(items[0].as_str());
        r
    } else {
        let mut r = String::from_str(",[");
        let body = join_with(items, ",");
        r.append(body.as_str());
        r.append("]");
        r
    }
}

impl Node {
    /// Appends this node as HTML.
    fn write_html(&self, out: &mut String)
        ensures
            final(out)@ == old(out)@ + html_of(*self),
        decreases self,
    {
        match self {
            Node::Tag(t) => match &t.properties {
                None => Node::write_all_html(&t.children, out),
                Some(p) => {
                    let tag = p.tag.as_str();
                    let link = find_onclick_url(&p.attributes);
                    let ghost before = out@;
                    if let Some(u) = link {
                        out.append("<a href=\"");
                        out.append(u);
                        out.append("\">");
                    }
                    let ghost body_start = out@;
                    out.append("<");
                    out.append(tag);
                    write_inline_attrs(&p.attributes, out);
                    if is_void_element(tag) {
                        out.append(" />");
                    } else {
                        out.append(">");
                        Node::write_all_html(&t.children, out);
                        out.append("</");
                        out.append(tag);
                        out.append(">");
                    }
                    assert(out@ == body_start + element_body(*p, html_of_all(t.children@)));
                    if link.is_some() {
                        out.append("</a>");
                    }
                },
            },
            Node::Text(x) => out.append(x.content()),
            Node::Html(x) => out.append(x.content()),
            Node::Empty => {},
        }
    }

    /// Appends nodes as HTML, one after the other.
    fn write_all_html(nodes: &Vec<Node>, out: &mut String)
        ensures
            final(out)@ == old(out)@ + html_of_all(nodes@),
        decreases nodes,
    {
        let ghost start = out@;
        let mut i: usize = 0;
        while i < nodes.len()
            invariant
                i <= nodes@.len(),
                out@ == start + html_of_all(nodes@.subrange(0, i as int)),
            decreases nodes@.len() - i,
        {
            let ghost next = nodes@.subrange(0, i + 1);
            assert(next.drop_last() == nodes@.subrange(0, i as int));
            assert(next.last() == nodes@[i as int]);
            nodes[i].write_html(out);
            i = i + 1;
        }
        assert(nodes@.subrange(0, nodes@.len() as int) == nodes@);
    }

    /// This node as an HTML fragment.
    pub fn to_html(&self) -> (r: String)
        ensures
            r@ == html_of(*self),
    {
        let mut r = String::new();
        self.write_html(&mut r);
        r
    }

    /// Appends what this node contributes to the children of a hyperscript call.
    fn collect_hyperscript(&self, function_name: &str, items: &mut Vec<String>)
        ensures
            views_of(final(items)@) == views_of(old(items)@) + hyperscript_items(
                *self,
                function_name@,
            ),
        decreases self,
    {
        let ghost before = views_of(items@);
        match self {
            Node::Tag(t) => match &t.properties {
                None => Node::collect_all_hyperscript(&t.children, function_name, items),
                Some(p) => {
                    let tag = p.tag.as_str();
                    let mut r = String::from_str(function_name);
                    r.append("(\"");
                    r.append(tag);
                    r.append("\"");
                    let attrs = attributes_object(&p.attributes, function_name);
                    r.append(attrs.as_str());
                    if !is_void_element(tag) {
                        let mut inner: Vec<String> = Vec::new();
                        Node::collect_all_hyperscript(&t.children, function_name, &mut inner);
                        assert(views_of(inner@) == hyperscript_items_all(
                            t.children@,
                            function_name@,
                        ));
                        let children = children_argument(&inner);
                        r.append(children.as_str());
                    }
                    r.append(")");
                    items.push(r);
                    assert(views_of(items@) == before.push(r@));
                },
            },
            Node::Text(x) => {
                let mut r = String::from_str("\"");
                r.append(x.content());
                r.append("\"");
                items.push(r);
                assert(views_of(items@) == before.push(r@));
            },
            Node::Html(x) => {
                let mut r = String::from_str("\"");
                r.append(x.content());
                r.append("\"");
                items.push(r);
                assert(views_of(items@) == before.push(r@));
            },
            Node::Empty => {
                assert(views_of(items@) == before + Seq::<Seq<char>>::empty());
            },
        }
    }

    /// Appends the hyperscript items of nodes, one after the other.
    fn collect_all_hyperscript(nodes: &Vec<Node>, function_name: &str, items: &mut Vec<String>)
        ensures
            views_of(final(items)@) == views_of(old(items)@) + hyperscript_items_all(
                nodes@,
                function_name@,
            ),
        decreases nodes,
    {
        let ghost start = views_of(items@);
        let mut i: usize = 0;
        assert(start == start + hyperscript_items_all(nodes@.subrange(0, 0), function_name@));
        while i < nodes.len()
            invariant
                i <= nodes@.len(),
                views_of(items@) == start + hyperscript_items_all(
                    nodes@.subrange(0, i as int),
                    function_name@,
                ),
            decreases nodes@.len() - i,
        {
            let ghost next = nodes@.subrange(0, i + 1);
            assert(next.drop_last() == nodes@.subrange(0, i as int));
            assert(next.last() == nodes@[i as int]);
            nodes[i].collect_hyperscript(function_name, items);
            i = i + 1;
        }
        assert(nodes@.subrange(0, nodes@.len() as int) == nodes@);
    }

    /// This node as hyperscript source: a call of `function_name` for an
    /// element, a string literal for text, and the items of a fragment joined
    /// by commas.
    pub fn to_hyperscript(&self, function_name: &str) -> (r: String)
        ensures
            r@ == hyperscript_of(*self, function_name@),
    {
        let mut items: Vec<String> = Vec::new();
        self.collect_hyperscript(function_name, &mut items);
        assert(views_of(items@) == hyperscript_items(*self, function_name@));
        join_with(&items, ",")
    }
}

/// A value that stands for a node among the children of an element.
pub trait ToNode: Sized {
    /// `n` is the node that this value becomes.
    spec fn converts_to(&self, n: Node) -> bool;

    fn to_node(self) -> (r: Node)
        ensures
            self.converts_to(r),
    ;
}

impl ToNode for Node {
    open spec fn converts_to(&self, n: Node) -> bool {
        n == *self
    }

    fn to_node(self) -> (r: Node) {
        self
    }
}

/// A sequence becomes a fragment of the nodes of its items, in order.
impl<T: ToNode> ToNode for Vec<T> {
    open spec fn converts_to(&self, n: Node) -> bool {
        &&& n is Tag
        &&& n->Tag_0.properties is None
        &&& n->Tag_0.children@.len() == self@.len()
        &&& forall|i: int|
            0 <= i < self@.len() ==> #[trigger] self@[i].converts_to(n->Tag_0.children@[i])
    }

    fn to_node(self) -> (r: Node) {
        let ghost items = self@;
        let mut rest = self;
        let mut children: Vec<Node> = Vec::new();
        let ghost mut i: int = 0;
        while rest.len() > 0
            invariant
                0 <= i <= items.len(),
                rest@ == items.subrange(i, items.len() as int),
                children@.len() == i,
                forall|j: int| 0 <= j < i ==> #[trigger] items[j].converts_to(children@[j]),
            decreases rest@.len(),
        {
            let ghost before = rest@;
            let item = rest.remove(0);
            assert(item == items[i]);
            children.push(item.to_node());
            proof {
                i = i + 1;
            }
            assert(rest@ == items.subrange(i, items.len() as int));
        }
        Node::Tag(TagNode { properties: None, children })
    }
}

/// An absent node becomes an empty one.
impl ToNode for Option<Node> {
    open spec fn converts_to(&self, n: Node) -> bool {
        match self {
            Some(v) => n == *v,
            None => n is Empty,
        }
    }

    fn to_node(self) -> (r: Node) {
        match self {
            Some(v) => v,
            None => Node::Empty,
        }
    }
}

/// A string becomes a text node.
impl<'a> ToNode for &'a str {
    open spec fn converts_to(&self, n: Node) -> bool {
        n is Text && n->Text_0@ == (*self)@
    }

    fn to_node(self) -> (r: Node) {
        Node::Text(RawTextNode::from(self))
    }
}

/// The tag of an element: the one given, or `div` when none is.
pub open spec fn element_tag(t: Seq<char>) -> Seq<char> {
    if t.len() == 0 {
        "div"@
    } else {
        t
    }
}

/// An element from a selector, explicit attributes and children: its
/// properties are what the selector and the attributes make together (with
/// `div` as the tag when the selector names none), and its one child is the
/// node that `children` becomes.
pub fn elem<C: ToNode>(selector: &str, attributes: Option<Vec<Attribute>>, children: C) -> (r: Node)
    ensures
        r is Tag,
        r->Tag_0.properties is Some,
        r->Tag_0.properties->Some_0.tag@ == element_tag(
            merged_props(selector@, explicit_views(attributes)).tag,
        ),
        attr_views(r->Tag_0.properties->Some_0.attributes@) == final_attrs(
            merged_props(selector@, explicit_views(attributes)),
        ),
        r->Tag_0.children@.len() == 1,
        children.converts_to(r->Tag_0.children@[0]),
{
    let mut properties = parse_elem_properties(selector, attributes);
    if properties.tag.unicode_len() == 0 {
        properties.tag = String::from_str("div");
    }
    let child = children.to_node();
    let mut nodes: Vec<Node> = Vec::new();
    nodes.push(child);
    Node::Tag(TagNode { properties: Some(properties), children: nodes })
}

} // verus!
