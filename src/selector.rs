//! The selector shorthand: `tag#id.class[key=value]`, merged with explicit
//! attributes into the properties of an element.
//!
//! The grammar, read left to right:
//! - a leading run of name characters (all but `#`, `.`, `[`, `]`) is the tag;
//! - `#` or `.` followed by such a run is an id or a class;
//! - `[key]` is an attribute with an empty value; `[key=value]` one with a
//!   value, where a value in matching single or double quotes keeps what is
//!   between the quotes as it stands;
//! - names, keys and unquoted values are trimmed of white space; a token whose
//!   name or key is then empty, and any other character, is ignored.
use vstd::prelude::*;

use crate::attribute::{Attribute, AttributeValue, ValueView};
use crate::node::NodeProperties;
use crate::text::{
    chars_of, is_white, is_white_char, joined, key_position, lemma_key_position, same_text,
    trimmed, trimmed_slice, upserted, views_of,
};

verus! {

/// One token of a selector.
pub enum PartView {
    Tag(Seq<char>),
    Id(Seq<char>),
    Class(Seq<char>),
    Attr(Seq<char>, Seq<char>),
}

/// A token of a selector, as the scanner hands it out.
pub enum SelectorPart {
    Tag(String),
    Id(String),
    Class(String),
    Attr(String, String),
}

impl View for SelectorPart {
    type V = PartView;

    open spec fn view(&self) -> PartView {
        match self {
            SelectorPart::Tag(v) => PartView::Tag(v@),
            SelectorPart::Id(v) => PartView::Id(v@),
            SelectorPart::Class(v) => PartView::Class(v@),
            SelectorPart::Attr(k, v) => PartView::Attr(k@, v@),
        }
    }
}

pub open spec fn view_of_part(o: Option<SelectorPart>) -> Option<PartView> {
    match o {
        Some(t) => Some(t@),
        None => None,
    }
}

pub open spec fn is_name_char(c: char) -> bool {
    c != '#' && c != '.' && c != '[' && c != ']'
}

/// The first position at or after `i` whose character satisfies `p`;
/// `s.len()` when there is none.
pub open spec fn first_where(s: Seq<char>, i: int, p: spec_fn(char) -> bool) -> int
    decreases s.len() - i,
{
    if i < 0 || i >= s.len() {
        s.len() as int
    } else if p(s[i]) {
        i
    } else {
        first_where(s, i + 1, p)
    }
}

pub open spec fn ends_name() -> spec_fn(char) -> bool {
    |c: char| !is_name_char(c)
}

pub open spec fn ends_key() -> spec_fn(char) -> bool {
    |c: char| c == '=' || c == ']'
}

pub open spec fn ends_value() -> spec_fn(char) -> bool {
    |c: char| c == ']'
}

pub open spec fn ends_white() -> spec_fn(char) -> bool {
    |c: char| !is_white(c)
}

/// The first position at or after `i` that holds `q` directly followed by `]`;
/// `s.len()` when there is none.
pub open spec fn closing_quote(s: Seq<char>, i: int, q: char) -> int
    decreases s.len() - i,
{
    if i < 0 || i + 1 >= s.len() {
        s.len() as int
    } else if s[i] == q && s[i + 1] == ']' {
        i
    } else {
        closing_quote(s, i + 1, q)
    }
}

pub open spec fn attr_part(key: Seq<char>, value: Seq<char>) -> Option<PartView> {
    if key.len() == 0 {
        None
    } else {
        Some(PartView::Attr(key, value))
    }
}

/// The token of a bracket that opens at `i`, and where scanning goes on.
pub open spec fn bracket_step(s: Seq<char>, i: int) -> (Option<PartView>, int) {
    let k = first_where(s, i + 1, ends_key());
    if k >= s.len() {
        (None, i + 1)
    } else {
        let key = trimmed(s.subrange(i + 1, k));
        if s[k] == ']' {
            (attr_part(key, Seq::empty()), k + 1)
        } else {
            let v = first_where(s, k + 1, ends_white());
            let quoted = v < s.len() && (s[v] == '"' || s[v] == '\'');
            let w = if quoted {
                closing_quote(s, v + 1, s[v])
            } else {
                s.len() as int
            };
            if w < s.len() {
                (attr_part(key, s.subrange(v + 1, w)), w + 2)
            } else {
                let c = first_where(s, k + 1, ends_value());
                if c >= s.len() {
                    (None, i + 1)
                } else {
                    (attr_part(key, trimmed(s.subrange(k + 1, c))), c + 1)
                }
            }
        }
    }
}

/// The token that starts at `i`, if any, and where scanning goes on.
pub open spec fn step(s: Seq<char>, i: int) -> (Option<PartView>, int) {
    let c = s[i];
    if c == '#' || c == '.' {
        let e = first_where(s, i + 1, ends_name());
        let v = trimmed(s.subrange(i + 1, e));
        (
            if v.len() == 0 {
                None
            } else if c == '#' {
                Some(PartView::Id(v))
            } else {
                Some(PartView::Class(v))
            },
            e,
        )
    } else if c == '[' {
        bracket_step(s, i)
    } else if i == 0 && is_name_char(c) {
        let e = first_where(s, 0, ends_name());
        let v = trimmed(s.subrange(0, e));
        (
            if v.len() == 0 {
                None
            } else {
                Some(PartView::Tag(v))
            },
            e,
        )
    } else {
        (None, i + 1)
    }
}

pub proof fn lemma_first_where(s: Seq<char>, i: int, p: spec_fn(char) -> bool)
    requires
        0 <= i <= s.len(),
    ensures
        i <= first_where(s, i, p) <= s.len(),
        first_where(s, i, p) < s.len() ==> p(s[first_where(s, i, p)]),
    decreases s.len() - i,
{
    if i < s.len() && !p(s[i]) {
        lemma_first_where(s, i + 1, p);
    }
}

pub proof fn lemma_closing_quote(s: Seq<char>, i: int, q: char)
    requires
        0 <= i <= s.len(),
    ensures
        closing_quote(s, i, q) == s.len() || (i <= closing_quote(s, i, q) && closing_quote(
            s,
            i,
            q,
        ) + 1 < s.len() && s[closing_quote(s, i, q)] == q && s[closing_quote(s, i, q) + 1]
            == ']'),
    decreases s.len() - i,
{
    if i + 1 < s.len() && !(s[i] == q && s[i + 1] == ']') {
        lemma_closing_quote(s, i + 1, q);
    }
}

/// Scanning always moves on, and never past the end.
pub proof fn lemma_step_advances(s: Seq<char>, i: int)
    requires
        0 <= i < s.len(),
    ensures
        i < step(s, i).1 <= s.len(),
{
    lemma_first_where(s, i + 1, ends_name());
    lemma_first_where(s, 0, ends_name());
    lemma_first_where(s, i + 1, ends_key());
    let k = first_where(s, i + 1, ends_key());
    if k < s.len() {
        lemma_first_where(s, k + 1, ends_white());
        lemma_first_where(s, k + 1, ends_value());
        let v = first_where(s, k + 1, ends_white());
        if v < s.len() {
            lemma_closing_quote(s, v + 1, s[v]);
        }
    }
}

/// The tokens of `s` from position `i` on.
pub open spec fn tokens_from(s: Seq<char>, i: int) -> Seq<PartView>
    decreases s.len() - i,
{
    if i < 0 || i >= s.len() {
        Seq::empty()
    } else {
        proof {
            lemma_step_advances(s, i);
        }
        let r = step(s, i);
        match r.0 {
            Some(t) => seq![t] + tokens_from(s, r.1),
            None => tokens_from(s, r.1),
        }
    }
}

/// The tokens of a selector, in order.
pub open spec fn selector_tokens(s: Seq<char>) -> Seq<PartView> {
    tokens_from(s, 0)
}

/// Properties while they are gathered: the tag, the id of the selector, the
/// attributes other than the class (and, while the selector is read, other
/// than the id), and the classes in order.
pub struct PropsView {
    pub tag: Seq<char>,
    pub id: Option<Seq<char>>,
    pub attrs: Seq<(Seq<char>, ValueView)>,
    pub classes: Seq<Seq<char>>,
}

pub open spec fn no_props() -> PropsView {
    PropsView { tag: Seq::empty(), id: None, attrs: Seq::empty(), classes: Seq::empty() }
}

/// Keys whose string values join the class list instead of replacing it.
pub open spec fn is_class_key(k: Seq<char>) -> bool {
    k == "class"@ || k == "className"@
}

/// A selector token: the tag, the id and each class replace or join what was
/// there; a bracket under `id` sets the id, one under a class key adds a
/// class, and any other sets its key.
pub open spec fn apply_part(p: PropsView, t: PartView) -> PropsView {
    match t {
        PartView::Tag(v) => PropsView { tag: v, ..p },
        PartView::Id(v) => PropsView { id: Some(v), ..p },
        PartView::Class(v) => PropsView { classes: p.classes.push(v), ..p },
        PartView::Attr(k, v) => if is_class_key(k) {
            PropsView { classes: p.classes.push(v), ..p }
        } else if k == "id"@ {
            PropsView { id: Some(v), ..p }
        } else {
            PropsView { attrs: upserted(p.attrs, k, ValueView::Text(v)), ..p }
        },
    }
}

/// The selector's id, when it has one, as the first attribute.
pub open spec fn with_id_first(p: PropsView) -> PropsView {
    match p.id {
        Some(v) => PropsView { id: None, attrs: seq![("id"@, ValueView::Text(v))] + p.attrs, ..p },
        None => p,
    }
}

/// `p` after the tokens `ts`, first to last.
pub open spec fn apply_parts(p: PropsView, ts: Seq<PartView>) -> PropsView
    decreases ts.len(),
{
    if ts.len() == 0 {
        p
    } else {
        apply_parts(apply_part(p, ts[0]), ts.drop_first())
    }
}

pub open spec fn apply_explicit(p: PropsView, a: (Seq<char>, ValueView)) -> PropsView {
    if is_class_key(a.0) && a.1 is Text {
        PropsView { classes: p.classes.push(a.1->Text_0), ..p }
    } else {
        PropsView { attrs: upserted(p.attrs, a.0, a.1), ..p }
    }
}

/// `p` after the explicit attributes `xs`, first to last.
pub open spec fn apply_explicits(p: PropsView, xs: Seq<(Seq<char>, ValueView)>) -> PropsView
    decreases xs.len(),
{
    if xs.len() == 0 {
        p
    } else {
        apply_explicit(apply_explicits(p, xs.drop_last()), xs.last())
    }
}

/// The attributes of `p`, followed by one `class` attribute that joins all the
/// classes when there are any.
pub open spec fn final_attrs(p: PropsView) -> Seq<(Seq<char>, ValueView)> {
    if p.classes.len() == 0 {
        p.attrs
    } else {
        p.attrs.push(("class"@, ValueView::Text(joined(p.classes, " "@))))
    }
}

pub open spec fn attr_views(v: Seq<Attribute>) -> Seq<(Seq<char>, ValueView)> {
    v.map_values(|a: Attribute| a@)
}

pub open spec fn explicit_views(attributes: Option<Vec<Attribute>>) -> Seq<(Seq<char>, ValueView)> {
    match attributes {
        Some(v) => attr_views(v@),
        None => Seq::empty(),
    }
}

/// What a selector and explicit attributes make together.
pub open spec fn merged_props(selector: Seq<char>, explicit: Seq<(Seq<char>, ValueView)>) -> PropsView {
    apply_explicits(with_id_first(apply_parts(no_props(), selector_tokens(selector))), explicit)
}

pub open spec fn id_view(id: Option<String>) -> Option<Seq<char>> {
    match id {
        Some(v) => Some(v@),
        None => None,
    }
}

/// What the parser has gathered so far.
pub open spec fn gathered(
    tag: String,
    id: Option<String>,
    attrs: Vec<Attribute>,
    classes: Vec<String>,
) -> PropsView {
    PropsView { tag: tag@, id: id_view(id), attrs: attr_views(attrs@), classes: views_of(classes@) }
}

fn first_name_end(chars: &Vec<char>, i: usize) -> (r: usize)
    requires
        i <= chars@.len(),
    ensures
        r == first_where(chars@, i as int, ends_name()),
{
    let mut j = i;
    while j < chars.len() && is_name_char_exec(chars[j])
        invariant
            i <= j <= chars@.len(),
            first_where(chars@, i as int, ends_name()) == first_where(chars@, j as int, ends_name()),
        decreases chars@.len() - j,
    {
        j = j + 1;
    }
    j
}

fn first_key_end(chars: &Vec<char>, i: usize) -> (r: usize)
    requires
        i <= chars@.len(),
    ensures
        r == first_where(chars@, i as int, ends_key()),
{
    let mut j = i;
    while j < chars.len() && chars[j] != '=' && chars[j] != ']'
        invariant
            i <= j <= chars@.len(),
            first_where(chars@, i as int, ends_key()) == first_where(chars@, j as int, ends_key()),
        decreases chars@.len() - j,
    {
        j = j + 1;
    }
    j
}

fn first_value_end(chars: &Vec<char>, i: usize) -> (r: usize)
    requires
        i <= chars@.len(),
    ensures
        r == first_where(chars@, i as int, ends_value()),
{
    let mut j = i;
    while j < chars.len() && chars[j] != ']'
        invariant
            i <= j <= chars@.len(),
            first_where(chars@, i as int, ends_value()) == first_where(
                chars@,
                j as int,
                ends_value(),
            ),
        decreases chars@.len() - j,
    {
        j = j + 1;
    }
    j
}

fn first_non_white(chars: &Vec<char>, i: usize) -> (r: usize)
    requires
        i <= chars@.len(),
    ensures
        r == first_where(chars@, i as int, ends_white()),
{
    let mut j = i;
    while j < chars.len() && is_white_char(chars[j])
        invariant
            i <= j <= chars@.len(),
            first_where(chars@, i as int, ends_white()) == first_where(
                chars@,
                j as int,
                ends_white(),
            ),
        decreases chars@.len() - j,
    {
        j = j + 1;
    }
    j
}

fn find_closing_quote(chars: &Vec<char>, i: usize, q: char) -> (r: usize)
    requires
        i <= chars@.len(),
    ensures
        r == closing_quote(chars@, i as int, q),
{
    let n = chars.len();
    let mut j = i;
    while j < n && j + 1 < n && !(chars[j] == q && chars[j + 1] == ']')
        invariant
            n == chars@.len(),
            i <= j <= n,
            closing_quote(chars@, i as int, q) == closing_quote(chars@, j as int, q),
        decreases n - j,
    {
        j = j + 1;
    }
    if j < n && j + 1 < n {
        j
    } else {
        n
    }
}

fn is_name_char_exec(c: char) -> (r: bool)
    ensures
        r == is_name_char(c),
{
    c != '#' && c != '.' && c != '[' && c != ']'
}

fn make_attr_part(key: String, value: String) -> (r: Option<SelectorPart>)
    ensures
        view_of_part(r) == attr_part(key@, value@),
{
    if key.unicode_len() == 0 {
        None
    } else {
        Some(SelectorPart::Attr(key, value))
    }
}

fn scan_bracket(s: &str, chars: &Vec<char>, i: usize) -> (r: (Option<SelectorPart>, usize))
    requires
        chars@ == s@,
        i < s@.len(),
    ensures
        (view_of_part(r.0), r.1 as int) == bracket_step(s@, i as int),
{
    let n = chars.len();
    let k = first_key_end(chars, i + 1);
    proof {
        lemma_first_where(s@, i + 1, ends_key());
    }
    if k >= n {
        return (None, i + 1);
    }
    let key = trimmed_slice(s, chars, i + 1, k);
    if chars[k] == ']' {
        return (make_attr_part(key, String::new()), k + 1);
    }
    let v = first_non_white(chars, k + 1);
    proof {
        lemma_first_where(s@, k + 1, ends_white());
    }
    let quoted = v < n && (chars[v] == '"' || chars[v] == '\'');
    let w = if quoted {
        find_closing_quote(chars, v + 1, chars[v])
    } else {
        n
    };
    if quoted {
        proof {
            lemma_closing_quote(s@, v + 1, s@[v as int]);
        }
    }
    if w < n {
        let value = String::from_str(s.substring_char(v + 1, w));
        return (make_attr_part(key, value), w + 2);
    }
    let c = first_value_end(chars, k + 1);
    proof {
        lemma_first_where(s@, k + 1, ends_value());
    }
    if c >= n {
        return (None, i + 1);
    }
    let value = trimmed_slice(s, chars, k + 1, c);
    (make_attr_part(key, value), c + 1)
}

/// The token that starts at `i`, if any, and where scanning goes on.
pub fn scan_step(s: &str, chars: &Vec<char>, i: usize) -> (r: (Option<SelectorPart>, usize))
    requires
        chars@ == s@,
        i < s@.len(),
    ensures
        (view_of_part(r.0), r.1 as int) == step(s@, i as int),
{
    let n = chars.len();
    assert(i < n);
    let c = chars[i];
    if c == '#' || c == '.' {
        let e = first_name_end(chars, i + 1);
        proof {
            lemma_first_where(s@, i + 1, ends_name());
        }
        let v = trimmed_slice(s, chars, i + 1, e);
        if v.unicode_len() == 0 {
            (None, e)
        } else if c == '#' {
            (Some(SelectorPart::Id(v)), e)
        } else {
            (Some(SelectorPart::Class(v)), e)
        }
    } else if c == '[' {
        scan_bracket(s, chars, i)
    } else if i == 0 && is_name_char_exec(c) {
        let e = first_name_end(chars, 0);
        proof {
            lemma_first_where(s@, 0, ends_name());
        }
        let v = trimmed_slice(s, chars, 0, e);
        if v.unicode_len() == 0 {
            (None, e)
        } else {
            (Some(SelectorPart::Tag(v)), e)
        }
    } else {
        (None, i + 1)
    }
}

/// The tokens of a selector, in order.
pub fn scan_selector(selector: &str) -> (r: Vec<SelectorPart>)
    ensures
        r@.map_values(|t: SelectorPart| t@) == selector_tokens(selector@),
{
    let chars = chars_of(selector);
    let n = chars.len();
    let mut parts: Vec<SelectorPart> = Vec::new();
    let mut i: usize = 0;
    while i < n
        invariant
            chars@ == selector@,
            n == selector@.len(),
            i <= n,
            parts@.map_values(|t: SelectorPart| t@) + tokens_from(selector@, i as int)
                == selector_tokens(selector@),
        decreases n - i,
    {
        let ghost before = parts@.map_values(|t: SelectorPart| t@);
        proof {
            lemma_step_advances(selector@, i as int);
        }
        let (t, next) = scan_step(selector, &chars, i);
        match t {
            Some(t) => {
                let ghost tv = t@;
                parts.push(t);
                assert(parts@.map_values(|t: SelectorPart| t@) == before.push(tv));
                assert(before + tokens_from(selector@, i as int) == before.push(tv)
                    + tokens_from(selector@, next as int));
            },
            None => {},
        }
        i = next;
    }
    parts
}

/// Sets an attribute: in the place of the first one with its key, else last.
fn set_attribute(attrs: &mut Vec<Attribute>, a: Attribute)
    ensures
        attr_views(final(attrs)@) == upserted(attr_views(old(attrs)@), a.key@, a.value@),
{
    let ghost before = attr_views(attrs@);
    let n = attrs.len();
    let mut p: usize = 0;
    while p < n && !same_text(attrs[p].key.as_str(), a.key.as_str())
        invariant
            attr_views(attrs@) == before,
            n == before.len(),
            p <= n,
            key_position(before, a.key@, 0) == key_position(before, a.key@, p as int),
        decreases n - p,
    {
        p = p + 1;
    }
    proof {
        lemma_key_position(before, a.key@, 0);
    }
    let ghost av = a@;
    if p < n {
        attrs.set(p, a);
        assert(attr_views(attrs@) == before.update(p as int, av));
    } else {
        attrs.push(a);
        assert(attr_views(attrs@) == before.push(av));
    }
}

fn is_class_key_exec(k: &str) -> (r: bool)
    ensures
        r == is_class_key(k@),
{
    same_text(k, "class") || same_text(k, "className")
}

/// The properties that a selector and explicit attributes make together: the
/// selector's tag (empty when it names none); the selector's id (the last one
/// given) first, then its bracket attributes in the order in which their keys
/// first appear, then the explicit attributes, where a value for a key already
/// present replaces it in its place; string values under `class` or
/// `className` are gathered instead, and joined with spaces into one `class`
/// attribute at the end.
pub fn parse_elem_properties(selector: &str, attributes: Option<Vec<Attribute>>) -> (r:
    NodeProperties)
    ensures
        r.tag@ == merged_props(selector@, explicit_views(attributes)).tag,
        attr_views(r.attributes@) == final_attrs(merged_props(selector@, explicit_views(attributes))),
{
    let ghost explicit = explicit_views(attributes);
    let mut parts = scan_selector(selector);
    let ghost tokens = selector_tokens(selector@);
    let mut tag = String::new();
    let mut id: Option<String> = None;
    let mut attrs: Vec<Attribute> = Vec::new();
    let mut classes: Vec<String> = Vec::new();
    let ghost all = parts@.map_values(|t: SelectorPart| t@);
    let ghost mut i: int = 0;
    assert(attr_views(attrs@) == Seq::<(Seq<char>, ValueView)>::empty());
    assert(views_of(classes@) == Seq::<Seq<char>>::empty());
    assert(all.subrange(0, all.len() as int) == all);
    while parts.len() > 0
        invariant
            all == tokens,
            0 <= i <= all.len(),
            parts@.map_values(|t: SelectorPart| t@) == all.subrange(i, all.len() as int),
            apply_parts(
                gathered(tag, id, attrs, classes),
                all.subrange(i, all.len() as int),
            ) == apply_parts(no_props(), tokens),
        decreases parts@.len(),
    {
        let ghost rest = all.subrange(i, all.len() as int);
        let ghost cur = gathered(tag, id, attrs, classes);
        let ghost old_parts = parts@;
        let part = parts.remove(0);
        assert(old_parts.map_values(|t: SelectorPart| t@)[0] == part@);
        assert(rest[0] == part@);
        assert(rest.drop_first() == all.subrange(i + 1, all.len() as int));
        match part {
            SelectorPart::Tag(v) => {
                tag = v;
            },
            SelectorPart::Id(v) => {
                id = Some(v);
            },
            SelectorPart::Class(v) => {
                classes.push(v);
                assert(views_of(classes@) == cur.classes.push(classes@.last()@));
            },
            SelectorPart::Attr(k, v) => {
                if is_class_key_exec(k.as_str()) {
                    classes.push(v);
                    assert(views_of(classes@) == cur.classes.push(classes@.last()@));
                } else if same_text(k.as_str(), "id") {
                    id = Some(v);
                } else {
                    set_attribute(&mut attrs, Attribute { key: k, value: AttributeValue::String(v) });
                }
            },
        }
        assert(gathered(tag, id, attrs, classes)
            == apply_part(cur, rest[0]));
        proof {
            i = i + 1;
        }
        assert(parts@.map_values(|t: SelectorPart| t@) == all.subrange(i, all.len() as int));
    }
    assert(all.subrange(i, all.len() as int).len() == 0);
    if let Some(v) = id {
        let ghost rest = attr_views(attrs@);
        let mut first: Vec<Attribute> = Vec::new();
        first.push(Attribute { key: String::from_str("id"), value: AttributeValue::String(v) });
        first.append(&mut attrs);
        attrs = first;
        assert(attr_views(attrs@) == seq![("id"@, ValueView::Text(v@))] + rest);
        id = None;
    }
    let ghost base = with_id_first(apply_parts(no_props(), tokens));
    assert(gathered(tag, id, attrs, classes) == base);
    let mut extra = match attributes {
        Some(v) => v,
        None => Vec::new(),
    };
    let ghost xs = attr_views(extra@);
    assert(xs == explicit);
    let ghost mut j: int = 0;
    assert(xs.subrange(0, 0) == Seq::<(Seq<char>, ValueView)>::empty());
    assert(xs.subrange(0, xs.len() as int) == xs);
    while extra.len() > 0
        invariant
            0 <= j <= xs.len(),
            attr_views(extra@) == xs.subrange(j, xs.len() as int),
            gathered(tag, id, attrs, classes)
                == apply_explicits(base, xs.subrange(0, j)),
        decreases extra@.len(),
    {
        let ghost cur = gathered(tag, id, attrs, classes);
        let ghost old_extra = extra@;
        let a = extra.remove(0);
        assert(attr_views(old_extra).len() == old_extra.len());
        assert(j < xs.len());
        assert(attr_views(old_extra)[0] == a@);
        assert(xs.subrange(j, xs.len() as int)[0] == xs[j]);
        assert(a@ == xs[j]);
        assert(xs.subrange(0, j + 1).drop_last() == xs.subrange(0, j));
        let is_class = is_class_key_exec(a.key.as_str());
        match a.value {
            AttributeValue::String(v) if is_class => {
                classes.push(v);
                assert(views_of(classes@) == cur.classes.push(classes@.last()@));
            },
            value => {
                set_attribute(&mut attrs, Attribute { key: a.key, value });
            },
        }
        assert(gathered(tag, id, attrs, classes)
            == apply_explicit(cur, xs[j]));
        proof {
            j = j + 1;
        }
        assert(attr_views(extra@) == attr_views(old_extra).subrange(1, old_extra.len() as int));
        assert(attr_views(extra@) == xs.subrange(j, xs.len() as int));
    }
    assert(xs.subrange(0, j) == xs);
    if classes.len() > 0 {
        let joined_classes = crate::text::join_with(&classes, " ");
        let ghost before = attr_views(attrs@);
        attrs.push(
            Attribute {
                key: String::from_str("class"),
                value: AttributeValue::String(joined_classes),
            },
        );
        assert(attr_views(attrs@) == before.push(attrs@.last()@));
    }
    NodeProperties { tag, attributes: attrs }
}

} // verus!
