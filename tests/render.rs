use hyperhtml::{
    elem, parse_elem_properties, AjaxRequestOption, Attribute, AttributeValue, EventAction,
    HyperscriptAction, Node, RawTextNode, StringMap, TagNode, ToNode,
};

fn text(s: &str) -> Node {
    Node::Text(RawTextNode::from(s))
}

fn string_value(a: &Attribute) -> &str {
    match &a.value {
        AttributeValue::String(s) => s.as_str(),
        AttributeValue::EventAction(_) => panic!("expected a string value"),
    }
}

fn pairs(props: &hyperhtml::NodeProperties) -> Vec<(String, String)> {
    props
        .attributes
        .iter()
        .map(|a| (a.key.clone(), string_value(a).to_string()))
        .collect()
}

fn owned(v: &[(&str, &str)]) -> Vec<(String, String)> {
    v.iter().map(|(k, v)| (k.to_string(), v.to_string())).collect()
}

#[test]
fn selector_gives_tag_id_attributes_and_classes_last() {
    let props = parse_elem_properties("div.a.b#id[x=1]", None);
    assert_eq!(props.tag, "div");
    assert_eq!(pairs(&props), owned(&[("id", "id"), ("x", "1"), ("class", "a b")]));
}

#[test]
fn selector_without_tag_leaves_it_empty() {
    let props = parse_elem_properties(".box#main", None);
    assert_eq!(props.tag, "");
    assert_eq!(pairs(&props), owned(&[("id", "main"), ("class", "box")]));
}

#[test]
fn empty_selector_gives_nothing() {
    let props = parse_elem_properties("", None);
    assert_eq!(props.tag, "");
    assert!(props.attributes.is_empty());
}

#[test]
fn bracket_values_lose_their_quotes() {
    let props = parse_elem_properties("input[type='text'][name=\"q\"][disabled]", None);
    assert_eq!(props.tag, "input");
    assert_eq!(
        pairs(&props),
        owned(&[("type", "text"), ("name", "q"), ("disabled", "")])
    );
}

#[test]
fn quoted_value_keeps_brackets_and_spaces() {
    let props = parse_elem_properties("a[title=\" x]y \"]", None);
    assert_eq!(pairs(&props), owned(&[("title", " x]y ")]));
}

#[test]
fn white_space_around_names_and_values_is_dropped() {
    let props = parse_elem_properties(" p . lead [ data-x = 5 ]", None);
    assert_eq!(props.tag, "p");
    assert_eq!(pairs(&props), owned(&[("data-x", "5"), ("class", "lead")]));
}

#[test]
fn later_id_replaces_earlier_one() {
    let props = parse_elem_properties("#a[x=1]#b", None);
    assert_eq!(pairs(&props), owned(&[("id", "b"), ("x", "1")]));
}

#[test]
fn id_comes_before_bracket_attributes() {
    let props = parse_elem_properties("[x=1]#i", None);
    assert_eq!(pairs(&props), owned(&[("id", "i"), ("x", "1")]));
    let props = parse_elem_properties("span.c[x=1]#i[y]", None);
    assert_eq!(props.tag, "span");
    assert_eq!(
        pairs(&props),
        owned(&[("id", "i"), ("x", "1"), ("y", ""), ("class", "c")])
    );
}

#[test]
fn bracket_id_sets_the_id() {
    let props = parse_elem_properties("[x=1][id=b]", None);
    assert_eq!(pairs(&props), owned(&[("id", "b"), ("x", "1")]));
}

#[test]
fn unclosed_bracket_is_ignored() {
    let props = parse_elem_properties("span[x=1", None);
    assert_eq!(props.tag, "span");
    assert!(props.attributes.is_empty());
}

#[test]
fn explicit_classes_join_selector_classes() {
    let props = parse_elem_properties(
        "div.a",
        Some(vec![
            Attribute::from("class", "b"),
            Attribute::from("title", "t"),
            Attribute::from("className", "c"),
        ]),
    );
    assert_eq!(pairs(&props), owned(&[("title", "t"), ("class", "a b c")]));
}

#[test]
fn explicit_attribute_overwrites_in_place() {
    let props = parse_elem_properties(
        "a#first[href=/x][rel=r]",
        Some(vec![
            Attribute::from("href", "/y"),
            Attribute::from("id", "second"),
            Attribute::from("target", "_blank"),
            Attribute::from("target", "_self"),
        ]),
    );
    assert_eq!(
        pairs(&props),
        owned(&[("id", "second"), ("href", "/y"), ("rel", "r"), ("target", "_self")])
    );
}

#[test]
fn void_element_self_closes() {
    let node = elem("img", None, None::<Node>);
    assert_eq!(node.to_html(), "<img />");
}

#[test]
fn void_element_drops_children() {
    let node = elem("br", None, vec![text("x"), text("y")]);
    assert_eq!(node.to_html(), "<br />");
    assert_eq!(node.to_hyperscript("m"), "m(\"br\")");
}

#[test]
fn empty_selector_defaults_to_div() {
    let node = elem("", None, "hi");
    assert_eq!(node.to_html(), "<div>hi</div>");
}

#[test]
fn element_renders_attributes_and_children() {
    let node = elem(
        "ul#list.items",
        None,
        vec![elem("li", None, "one"), elem("li", None, "two")],
    );
    assert_eq!(
        node.to_html(),
        "<ul id=\"list\" class=\"items\"><li>one</li><li>two</li></ul>"
    );
    assert_eq!(
        node.to_hyperscript("h"),
        "h(\"ul\",{\"id\":\"list\",\"class\":\"items\"},[h(\"li\",\"one\"),h(\"li\",\"two\")])"
    );
}

#[test]
fn onclick_event_wraps_element_in_link() {
    let action = EventAction::ajax_default("/go", None);
    let node = elem(
        "button.primary",
        Some(vec![Attribute::from("onclick", action)]),
        "Go",
    );
    assert_eq!(
        node.to_html(),
        "<a href=\"/go\"><button class=\"primary\">Go</button></a>"
    );
}

#[test]
fn onclick_key_matches_in_any_case() {
    let action = EventAction::ajax_default("/up", None);
    let node = elem("img", Some(vec![Attribute::from("OnClick", action)]), None::<Node>);
    assert_eq!(node.to_html(), "<a href=\"/up\"><img /></a>");
}

#[test]
fn onclick_string_stays_inline() {
    let node = elem("div", Some(vec![Attribute::from("onclick", "f()")]), None::<Node>);
    assert_eq!(node.to_html(), "<div onclick=\"f()\"></div>");
}

#[test]
fn other_event_attributes_are_dropped_from_html() {
    let action = EventAction::ajax_default("/hover", None);
    let node = elem("span", Some(vec![Attribute::from("onmouseover", action)]), "s");
    assert_eq!(node.to_html(), "<span>s</span>");
}

#[test]
fn event_attribute_becomes_closure_source_in_hyperscript() {
    let action = EventAction::ajax_default("/go", None);
    let node = elem("button", Some(vec![Attribute::from("onclick", action)]), "Go");
    assert_eq!(
        node.to_hyperscript("m"),
        "m(\"button\",{\"onclick\":\"function(){m.request({url:\"/go\",\"method\":\"GET\"})}\"},\"Go\")"
    );
}

#[test]
fn two_children_are_listed() {
    let node = elem("div", None, vec![text("a"), text("b")]);
    assert_eq!(node.to_hyperscript("m"), "m(\"div\",[\"a\",\"b\"])");
    assert_eq!(node.to_html(), "<div>ab</div>");
}

#[test]
fn single_child_is_not_listed() {
    let node = elem("div", None, text("a"));
    assert_eq!(node.to_hyperscript("m"), "m(\"div\",\"a\")");
}

#[test]
fn empty_children_are_left_out_of_hyperscript() {
    let node = elem("p", None, vec![Node::Empty, text("a"), Node::Empty]);
    assert_eq!(node.to_hyperscript("m"), "m(\"p\",\"a\")");
    let bare = elem("p", None, None::<Node>);
    assert_eq!(bare.to_hyperscript("m"), "m(\"p\")");
    assert_eq!(bare.to_html(), "<p></p>");
}

#[test]
fn fragment_joins_children_without_wrapper() {
    let fragment = vec![text("a"), elem("b", None, "x")].to_node();
    assert_eq!(fragment.to_html(), "a<b>x</b>");
    assert_eq!(fragment.to_hyperscript("m"), "\"a\",m(\"b\",\"x\")");
}

#[test]
fn raw_html_renders_verbatim() {
    let node = elem("div", None, Node::Html(RawTextNode::from("<i>x</i>")));
    assert_eq!(node.to_html(), "<div><i>x</i></div>");
    assert_eq!(node.to_hyperscript("m"), "m(\"div\",\"<i>x</i>\")");
}

#[test]
fn empty_node_renders_nothing() {
    assert_eq!(Node::Empty.to_html(), "");
    assert_eq!(Node::Empty.to_hyperscript("m"), "");
}

#[test]
fn empty_fragment_renders_nothing() {
    let fragment = Node::Tag(TagNode { properties: None, children: vec![] });
    assert_eq!(fragment.to_html(), "");
    assert_eq!(fragment.to_hyperscript("m"), "");
    let from_vec = Vec::<Node>::new().to_node();
    assert_eq!(from_vec.to_html(), "");
    assert_eq!(from_vec.to_hyperscript("m"), "");
}

#[test]
fn rendering_twice_gives_same_text() {
    let action = EventAction::ajax_default("/go", None);
    let node = elem(
        "section#s.c[data-k=v]",
        Some(vec![Attribute::from("onclick", action)]),
        vec![text("a"), elem("hr", None, None::<Node>)],
    );
    assert_eq!(node.to_html(), node.to_html());
    assert_eq!(node.to_hyperscript("m"), node.to_hyperscript("m"));
}

#[test]
fn ajax_request_puts_method_last() {
    let action = HyperscriptAction::ajax_default(
        "/u",
        Some(vec![
            AjaxRequestOption::Method("POST".to_string()),
            AjaxRequestOption::Body("x".to_string()),
        ]),
    );
    assert_eq!(
        action.to_hyperscript("m"),
        "function(){m.request({url:\"/u\",\"body\":\"x\",\"method\":\"POST\"})}"
    );
}

#[test]
fn ajax_request_defaults_to_get_only_without_method() {
    let action = HyperscriptAction::ajax_default("/a", None);
    assert_eq!(
        action.to_hyperscript("v"),
        "function(){v.request({url:\"/a\",\"method\":\"GET\"})}"
    );
    let empty = HyperscriptAction::ajax_default(
        "/a",
        Some(vec![AjaxRequestOption::Method(String::new())]),
    );
    assert_eq!(
        empty.to_hyperscript("v"),
        "function(){v.request({url:\"/a\",\"method\":\"\"})}"
    );
}

#[test]
fn ajax_request_renders_every_option_in_order() {
    let mut params = StringMap::new();
    params.insert("q", "1");
    params.insert("page", "2");
    let mut headers = StringMap::new();
    headers.insert("Accept", "json");
    let action = HyperscriptAction::ajax_default(
        "/s",
        Some(vec![
            AjaxRequestOption::Params(params),
            AjaxRequestOption::User("u".to_string()),
            AjaxRequestOption::Method("PUT".to_string()),
            AjaxRequestOption::Password("p".to_string()),
            AjaxRequestOption::WithCredentials(true),
            AjaxRequestOption::Headers(headers),
            AjaxRequestOption::WithCredentials(false),
        ]),
    );
    assert_eq!(
        action.to_hyperscript("m"),
        "function(){m.request({url:\"/s\",\"params\":{q:\"1\",page:\"2\"},\"user\":\"u\",\
         \"password\":\"p\",\"withCredentials\":true,\"headers\":{Accept:\"json\"},\
         \"withCredentials\":false,\"method\":\"PUT\"})}"
    );
}

#[test]
fn last_method_wins() {
    let action = HyperscriptAction::ajax_default(
        "/m",
        Some(vec![
            AjaxRequestOption::Method("POST".to_string()),
            AjaxRequestOption::Method("DELETE".to_string()),
        ]),
    );
    assert_eq!(
        action.to_hyperscript("m"),
        "function(){m.request({url:\"/m\",\"method\":\"DELETE\"})}"
    );
}

#[test]
fn string_map_insert_keeps_first_position() {
    let mut map = StringMap::new();
    map.insert("a", "1");
    map.insert("b", "2");
    map.insert("a", "3");
    assert_eq!(map.len(), 2);
    assert_eq!(map.entry(0), ("a", "3"));
    assert_eq!(map.entry(1), ("b", "2"));
}

#[test]
fn event_action_names_one_url_in_both_forms() {
    let action = EventAction::ajax_default("/same", None);
    let HyperscriptAction::AjaxRequest { url, options } = action.hyperscript_action();
    assert_eq!(url, "/same");
    assert!(options.is_empty());
    let hyperhtml::HtmlAction::Redirect { url } = action.html_action();
    assert_eq!(url, "/same");
}

#[test]
fn inline_and_object_items() {
    let a = Attribute::new("k", AttributeValue::String("v".to_string()));
    assert_eq!(a.to_inline_html_item(), "k=\"v\"");
    assert_eq!(a.to_json_object_item("m"), "\"k\":\"v\"");
    let e = Attribute::from("onclick", EventAction::ajax_default("/x", None));
    assert_eq!(e.to_inline_html_item(), "");
    assert_eq!(
        e.to_json_object_item("f"),
        "\"onclick\":\"function(){f.request({url:\"/x\",\"method\":\"GET\"})}\""
    );
}

#[test]
fn raw_text_keeps_content() {
    assert_eq!(RawTextNode::from("abc").content(), "abc");
}

#[test]
fn onclick_key_folds_kelvin_sign() {
    let action = EventAction::ajax_default("/k", None);
    let node = elem("i", Some(vec![Attribute::from("ONCLIC\u{212a}", action)]), None::<Node>);
    assert_eq!(node.to_html(), "<a href=\"/k\"><i></i></a>");
}

#[test]
fn bracket_class_joins_the_classes() {
    let props = parse_elem_properties("[class=x].y[title=t]", None);
    assert_eq!(pairs(&props), owned(&[("title", "t"), ("class", "x y")]));
}

#[test]
fn cloned_tree_renders_the_same() {
    let mut params = StringMap::new();
    params.insert("q", "1");
    let action = EventAction::ajax_default(
        "/c",
        Some(vec![AjaxRequestOption::Params(params)]),
    );
    let node = elem(
        "div#d.k",
        Some(vec![Attribute::from("onclick", action.clone())]),
        vec![text("a"), elem("br", None, None::<Node>)],
    );
    let copy = node.clone();
    assert_eq!(copy.to_html(), node.to_html());
    assert_eq!(copy.to_hyperscript("m"), node.to_hyperscript("m"));
    let HyperscriptAction::AjaxRequest { url, options } = action.hyperscript_action();
    assert_eq!(url, "/c");
    assert_eq!(options.len(), 1);
}
