//! Attributes of a tag: a key with a plain string or an event action as value.
use vstd::prelude::*;

use crate::event::{ajax_script, EventAction};

verus! {

/// What an attribute value is, with its text seen as characters.
pub enum ValueView {
    Text(Seq<char>),
    Event(EventAction),
}

#[derive(Clone)]
pub enum AttributeValue {
    String(String),
    EventAction(EventAction),
}

impl View for AttributeValue {
    type V = ValueView;

    open spec fn view(&self) -> ValueView {
        match self {
            AttributeValue::String(s) => ValueView::Text(s@),
            AttributeValue::EventAction(e) => ValueView::Event(*e),
        }
    }
}

#[derive(Clone)]
pub struct Attribute {
    pub key: String,
    pub value: AttributeValue,
}

impl View for Attribute {
    type V = (Seq<char>, ValueView);

    open spec fn view(&self) -> (Seq<char>, ValueView) {
        (self.key@, self.value@)
    }
}

/// Source text of the closure that an event action becomes in hyperscript,
/// calling through `f`.
pub open spec fn event_script(e: EventAction, f: Seq<char>) -> Seq<char> {
    ajax_script(e.url(), e.spec_hyperscript_action()->options@, f)
}

/// `key="value"` for a string value; nothing for an event action, which has no
/// inline form in HTML.
pub open spec fn inline_html_item(a: (Seq<char>, ValueView)) -> Seq<char> {
    match a.1 {
        ValueView::Text(v) => a.0 + "=\""@ + v + "\""@,
        ValueView::Event(_) => Seq::empty(),
    }
}

/// `"key":"value"`, where an event action's value is the source text of its
/// closure.
pub open spec fn json_object_item(a: (Seq<char>, ValueView), f: Seq<char>) -> Seq<char> {
    "\""@ + a.0 + "\":\""@ + match a.1 {
        ValueView::Text(v) => v,
        ValueView::Event(e) => event_script(e, f),
    } + "\""@
}

/// A value that can stand as the value of an attribute.
pub trait ToAttributeValue: Sized {
    spec fn attribute_view(&self) -> ValueView;

    fn to_attribute_value(self) -> (r: AttributeValue)
        ensures
            r@ == self.attribute_view(),
    ;
}

impl ToAttributeValue for AttributeValue {
    open spec fn attribute_view(&self) -> ValueView {
        self@
    }

    fn to_attribute_value(self) -> (r: AttributeValue) {
        self
    }
}

impl ToAttributeValue for EventAction {
    open spec fn attribute_view(&self) -> ValueView {
        ValueView::Event(*self)
    }

    fn to_attribute_value(self) -> (r: AttributeValue) {
        AttributeValue::EventAction(self)
    }
}

impl ToAttributeValue for String {
    open spec fn attribute_view(&self) -> ValueView {
        ValueView::Text(self@)
    }

    fn to_attribute_value(self) -> (r: AttributeValue) {
        AttributeValue::String(self)
    }
}

impl<'a> ToAttributeValue for &'a str {
    open spec fn attribute_view(&self) -> ValueView {
        ValueView::Text((*self)@)
    }

    fn to_attribute_value(self) -> (r: AttributeValue) {
        AttributeValue::String(String::from_str(self))
    }
}

impl Attribute {
    pub fn new(key: &str, value: AttributeValue) -> (r: Attribute)
        ensures
            r.key@ == key@,
            r.value == value,
    {
        Attribute { key: String::from_str(key), value }
    }

    pub fn from<T: ToAttributeValue>(key: &str, value: T) -> (r: Attribute)
        ensures
            r@ == (key@, value.attribute_view()),
    {
        Attribute { key: String::from_str(key), value: value.to_attribute_value() }
    }

    /// This attribute as it stands inside an HTML start tag.
    pub fn to_inline_html_item(&self) -> (r: String)
        ensures
            r@ == inline_html_item(self@),
    {
        match &self.value {
            AttributeValue::String(v) => {
                let mut r = String::from_str(self.key.as_str());
                r.append("=\"");
                r.append(v.as_str());
                r.append("\"");
                r
            },
            AttributeValue::EventAction(_) => String::new(),
        }
    }

    /// This attribute as an entry of a hyperscript attributes object, with
    /// event actions calling through `function_name`.
    pub fn to_json_object_item(&self, function_name: &str) -> (r: String)
        ensures
            r@ == json_object_item(self@, function_name@),
    {
        let mut r = String::from_str("\"");
        r.append(self.key.as_str());
        r.append("\":\"");
        match &self.value {
            AttributeValue::String(v) => r.append(v.as_str()),
            AttributeValue::EventAction(e) => {
                let script = e.hyperscript_action().to_hyperscript(function_name);
                r.append(script.as_str());
            },
        }
        r.append("\"");
        r
    }
}

} // verus!
