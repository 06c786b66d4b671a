//! Event actions: what a node does when it is clicked, in both output forms,
//! and the source text of the remote request that the hyperscript form issues.
use vstd::prelude::*;

use crate::text::{
    key_position, keys_unique, lemma_key_position, lemma_upserted_keys_unique, same_text, upserted,
};

verus! {

/// An ordered map from strings to strings: each key at most once, entries in
/// the order in which their keys were first inserted.
pub struct StringMap {
    entries: Vec<(String, String)>,
}

impl View for StringMap {
    type V = Seq<(Seq<char>, Seq<char>)>;

    closed spec fn view(&self) -> Seq<(Seq<char>, Seq<char>)> {
        self.entries@.map_values(|e: (String, String)| (e.0@, e.1@))
    }
}

impl Clone for StringMap {
    fn clone(&self) -> (r: StringMap)
        ensures
            r@ == self@,
    {
        proof {
            use_type_invariant(self);
        }
        let mut entries: Vec<(String, String)> = Vec::new();
        let mut i: usize = 0;
        while i < self.entries.len()
            invariant
                i <= self.entries@.len(),
                keys_unique(self@),
                entries@.map_values(|e: (String, String)| (e.0@, e.1@)) == self@.subrange(
                    0,
                    i as int,
                ),
            decreases self.entries@.len() - i,
        {
            let ghost prev = entries@.map_values(|e: (String, String)| (e.0@, e.1@));
            entries.push((self.entries[i].0.clone(), self.entries[i].1.clone()));
            assert(entries@.map_values(|e: (String, String)| (e.0@, e.1@)) == prev.push(
                self@[i as int],
            ));
            assert(self@.subrange(0, i + 1) == self@.subrange(0, i as int).push(self@[i as int]));
            i = i + 1;
        }
        assert(self@.subrange(0, self@.len() as int) == self@);
        StringMap { entries }
    }
}

impl StringMap {
    #[verifier::type_invariant]
    spec fn inv(&self) -> bool {
        keys_unique(self@)
    }

    pub fn new() -> (r: StringMap)
        ensures
            r@ == Seq::<(Seq<char>, Seq<char>)>::empty(),
            keys_unique(r@),
    {
        StringMap { entries: Vec::new() }
    }

    pub fn len(&self) -> (r: usize)
        ensures
            r == self@.len(),
    {
        self.entries.len()
    }

    /// Sets `key` to `value`, keeping the position of a key already present.
    pub fn insert(&mut self, key: &str, value: &str)
        ensures
            final(self)@ == upserted(old(self)@, key@, value@),
            keys_unique(final(self)@),
    {
        proof {
            use_type_invariant(&*self);
        }
        let ghost before = self@;
        let n = self.entries.len();
        let mut p: usize = 0;
        while p < n && !same_text(self.entries[p].0.as_str(), key)
            invariant
                self@ == before,
                n == before.len(),
                p <= n,
                key_position(before, key@, 0) == key_position(before, key@, p as int),
            decreases n - p,
        {
            p = p + 1;
        }
        proof {
            lemma_key_position(before, key@, 0);
        }
        let ghost target = upserted(before, key@, value@);
        let mut entries: Vec<(String, String)> = Vec::new();
        let mut j: usize = 0;
        while j < n
            invariant
                self@ == before,
                n == before.len(),
                p == key_position(before, key@, 0),
                p <= n,
                p < n ==> target == before.update(p as int, (key@, value@)),
                p == n ==> target == before.push((key@, value@)),
                j <= n,
                entries@.map_values(|e: (String, String)| (e.0@, e.1@)) == target.subrange(
                    0,
                    j as int,
                ),
            decreases n - j,
        {
            let ghost prev = entries@.map_values(|e: (String, String)| (e.0@, e.1@));
            if j == p {
                entries.push((String::from_str(key), String::from_str(value)));
            } else {
                entries.push((self.entries[j].0.clone(), self.entries[j].1.clone()));
                assert(target[j as int] == before[j as int]);
            }
            assert(entries@.map_values(|e: (String, String)| (e.0@, e.1@)) == prev.push(
                target[j as int],
            ));
            assert(target.subrange(0, j + 1) == target.subrange(0, j as int).push(
                target[j as int],
            ));
            j = j + 1;
        }
        let ghost prev = entries@.map_values(|e: (String, String)| (e.0@, e.1@));
        assert(target.subrange(0, n as int) == prev);
        if p == n {
            entries.push((String::from_str(key), String::from_str(value)));
            assert(entries@.map_values(|e: (String, String)| (e.0@, e.1@)) == prev.push(
                (key@, value@),
            ));
        } else {
            assert(target.subrange(0, n as int) == target);
        }
        assert(entries@.map_values(|e: (String, String)| (e.0@, e.1@)) == target);
        proof {
            lemma_upserted_keys_unique(before, key@, value@);
        }
        *self = StringMap { entries };
    }

    /// The key and the value of the entry at `i`.
    pub fn entry(&self, i: usize) -> (r: (&str, &str))
        requires
            i < self@.len(),
        ensures
            r.0@ == self@[i as int].0,
            r.1@ == self@[i as int].1,
    {
        (self.entries[i].0.as_str(), self.entries[i].1.as_str())
    }
}

/// One setting of a remote request.
#[derive(Clone)]
pub enum AjaxRequestOption {
    Method(String),
    Params(StringMap),
    Body(String),
    User(String),
    Password(String),
    WithCredentials(bool),
    Headers(StringMap),
}

/// The hyperscript side of an event action.
pub enum HyperscriptAction {
    AjaxRequest { url: String, options: Vec<AjaxRequestOption> },
}

/// The HTML side of an event action: a node with this action as its `onclick`
/// is wrapped in a link to `url`.
pub enum HtmlAction {
    Redirect { url: String },
}

/// What happens on an event, in both output forms, for one URL.
pub struct EventAction {
    hyperscript_action: HyperscriptAction,
    html_action: HtmlAction,
}

/// `key:"value"`.
pub open spec fn pair_text(e: (Seq<char>, Seq<char>)) -> Seq<char> {
    e.0 + ":\""@ + e.1 + "\""@
}

/// The entries of a map as `k1:"v1",k2:"v2"`.
pub open spec fn pairs_text(entries: Seq<(Seq<char>, Seq<char>)>) -> Seq<char>
    decreases entries.len(),
{
    if entries.len() == 0 {
        Seq::empty()
    } else if entries.len() == 1 {
        pair_text(entries[0])
    } else {
        pairs_text(entries.drop_last()) + ","@ + pair_text(entries.last())
    }
}

/// `"name":"value"`.
pub open spec fn string_field(name: Seq<char>, value: Seq<char>) -> Seq<char> {
    "\""@ + name + "\":\""@ + value + "\""@
}

/// `"name":{k1:"v1",...}`.
pub open spec fn object_field(name: Seq<char>, entries: Seq<(Seq<char>, Seq<char>)>) -> Seq<char> {
    "\""@ + name + "\":{"@ + pairs_text(entries) + "}"@
}

/// The field that an option contributes to the request object; a method
/// contributes none at its own place.
pub open spec fn option_field(o: AjaxRequestOption) -> Seq<char> {
    match o {
        AjaxRequestOption::Method(_) => Seq::empty(),
        AjaxRequestOption::Params(m) => object_field("params"@, m@),
        AjaxRequestOption::Body(v) => string_field("body"@, v@),
        AjaxRequestOption::User(v) => string_field("user"@, v@),
        AjaxRequestOption::Password(v) => string_field("password"@, v@),
        AjaxRequestOption::WithCredentials(b) => "\"withCredentials\":"@ + (if b {
            "true"@
        } else {
            "false"@
        }),
        AjaxRequestOption::Headers(m) => object_field("headers"@, m@),
    }
}

/// The fields of all options but the methods, in order, each after a comma.
pub open spec fn option_fields(options: Seq<AjaxRequestOption>) -> Seq<char>
    decreases options.len(),
{
    if options.len() == 0 {
        Seq::empty()
    } else if options.last() is Method {
        option_fields(options.drop_last())
    } else {
        option_fields(options.drop_last()) + ","@ + option_field(options.last())
    }
}

/// The value of the last method option, if any.
pub open spec fn last_method(options: Seq<AjaxRequestOption>) -> Option<Seq<char>>
    decreases options.len(),
{
    if options.len() == 0 {
        None
    } else {
        match options.last() {
            AjaxRequestOption::Method(m) => Some(m@),
            _ => last_method(options.drop_last()),
        }
    }
}

/// The request method: the last one given, or `GET` when none is.
pub open spec fn request_method(options: Seq<AjaxRequestOption>) -> Seq<char> {
    match last_method(options) {
        Some(m) => m,
        None => "GET"@,
    }
}

/// Source text of a closure that issues the request through `f.request`.
pub open spec fn ajax_script(url: Seq<char>, options: Seq<AjaxRequestOption>, f: Seq<char>) -> Seq<
    char,
> {
    "function(){"@ + f + ".request({url:\""@ + url + "\""@ + option_fields(options)
        + ",\"method\":\""@ + request_method(options) + "\"})}"@
}

/// Appends `k1:"v1",k2:"v2"` for the entries of `m`.
fn append_pairs(out: &mut String, m: &StringMap)
    ensures
        final(out)@ == old(out)@ + pairs_text(m@),
{
    let ghost start = out@;
    let n = m.len();
    let mut i: usize = 0;
    while i < n
        invariant
            n == m@.len(),
            i <= n,
            out@ == start + pairs_text(m@.subrange(0, i as int)),
        decreases n - i,
    {
        let ghost prev = m@.subrange(0, i as int);
        assert(m@.subrange(0, i + 1).drop_last() == prev);
        let (k, v) = m.entry(i);
        if i > 0 {
            out.append(",");
        }
        out.append(k);
        out.append(":\"");
        out.append(v);
        out.append("\"");
        proof {
            let next = m@.subrange(0, i + 1);
            assert(next.last() == m@[i as int]);
            if i == 0 {
                assert(next[0] == m@[0]);
            }
        }
        i = i + 1;
    }
    assert(m@.subrange(0, n as int) == m@);
}

/// Appends `"name":"value"`.
fn append_string_field(out: &mut String, name: &str, value: &str)
    ensures
        final(out)@ == old(out)@ + string_field(name@, value@),
{
    out.append("\"");
    out.append(name);
    out.append("\":\"");
    out.append(value);
    out.append("\"");
}

/// Appends `"name":{...}`.
fn append_object_field(out: &mut String, name: &str, m: &StringMap)
    ensures
        final(out)@ == old(out)@ + object_field(name@, m@),
{
    out.append("\"");
    out.append(name);
    out.append("\":{");
    append_pairs(out, m);
    out.append("}");
}

/// Appends the field of an option other than a method.
fn append_option_field(out: &mut String, o: &AjaxRequestOption)
    requires
        !(o is Method),
    ensures
        final(out)@ == old(out)@ + option_field(*o),
{
    match o {
        AjaxRequestOption::Method(_) => {},
        AjaxRequestOption::Params(m) => append_object_field(out, "params", m),
        AjaxRequestOption::Body(v) => append_string_field(out, "body", v.as_str()),
        AjaxRequestOption::User(v) => append_string_field(out, "user", v.as_str()),
        AjaxRequestOption::Password(v) => append_string_field(out, "password", v.as_str()),
        AjaxRequestOption::WithCredentials(b) => {
            out.append("\"withCredentials\":");
            if *b {
                out.append("true");
            } else {
                out.append("false");
            }
        },
        AjaxRequestOption::Headers(m) => append_object_field(out, "headers", m),
    }
}

impl Clone for HyperscriptAction {
    fn clone(&self) -> (r: HyperscriptAction)
        ensures
            r.url() == self.url(),
    {
        match self {
            HyperscriptAction::AjaxRequest { url, options } => HyperscriptAction::AjaxRequest {
                url: url.clone(),
                options: options.clone(),
            },
        }
    }
}

impl HyperscriptAction {
    pub open spec fn url(&self) -> Seq<char> {
        match self {
            HyperscriptAction::AjaxRequest { url, .. } => url@,
        }
    }

    /// A request to `url` with the given options (none when absent).
    pub fn ajax_default(url: &str, options: Option<Vec<AjaxRequestOption>>) -> (r: Self)
        ensures
            r.url() == url@,
            r->options@ == (match options {
                Some(o) => o@,
                None => Seq::empty(),
            }),
    {
        let options = match options {
            Some(o) => o,
            None => Vec::new(),
        };
        HyperscriptAction::AjaxRequest { url: String::from_str(url), options }
    }

    /// Source text of a closure that issues this request through
    /// `function_name.request`.
    pub fn to_hyperscript(&self, function_name: &str) -> (r: String)
        ensures
            r@ == ajax_script(self.url(), self->options@, function_name@),
    {
        match self {
            HyperscriptAction::AjaxRequest { url, options } => {
                let mut fields = String::new();
                let mut method: Option<String> = None;
                let mut i: usize = 0;
                while i < options.len()
                    invariant
                        i <= options@.len(),
                        fields@ == option_fields(options@.subrange(0, i as int)),
                        match method {
                            Some(m) => last_method(options@.subrange(0, i as int)) == Some(m@),
                            None => last_method(options@.subrange(0, i as int)) is None,
                        },
                    decreases options@.len() - i,
                {
                    let ghost prev = options@.subrange(0, i as int);
                    let ghost next = options@.subrange(0, i + 1);
                    assert(next.drop_last() == prev);
                    assert(next.last() == options@[i as int]);
                    match &options[i] {
                        AjaxRequestOption::Method(m) => {
                            method = Some(m.clone());
                        },
                        _ => {
                            fields.append(",");
                            append_option_field(&mut fields, &options[i]);
                        },
                    }
                    i = i + 1;
                }
                assert(options@.subrange(0, options@.len() as int) == options@);
                let method = match method {
                    Some(m) => m,
                    None => String::from_str("GET"),
                };
                let mut r = String::from_str("function(){");
                r.append(function_name);
                r.append(".request({url:\"");
                r.append(url.as_str());
                r.append("\"");
                r.append(fields.as_str());
                r.append(",\"method\":\"");
                r.append(method.as_str());
                r.append("\"})}");
                r
            },
        }
    }
}

impl Clone for HtmlAction {
    fn clone(&self) -> (r: HtmlAction)
        ensures
            r == *self,
    {
        match self {
            HtmlAction::Redirect { url } => HtmlAction::Redirect { url: url.clone() },
        }
    }
}

impl HtmlAction {
    pub open spec fn url(&self) -> Seq<char> {
        match self {
            HtmlAction::Redirect { url } => url@,
        }
    }

    /// A redirect to `url`.
    pub fn redirect(url: &str) -> (r: Self)
        ensures
            r.url() == url@,
    {
        HtmlAction::Redirect { url: String::from_str(url) }
    }
}

impl Clone for EventAction {
    fn clone(&self) -> (r: EventAction)
        ensures
            r.url() == self.url(),
    {
        proof {
            use_type_invariant(self);
        }
        EventAction {
            hyperscript_action: self.hyperscript_action.clone(),
            html_action: self.html_action.clone(),
        }
    }
}

impl EventAction {
    /// Both forms of the action name the same URL.
    #[verifier::type_invariant]
    spec fn inv(&self) -> bool {
        self.hyperscript_action.url() == self.html_action.url()
    }

    /// The URL that the action requests (hyperscript) or links to (HTML).
    pub closed spec fn url(&self) -> Seq<char> {
        self.html_action.url()
    }

    pub closed spec fn spec_hyperscript_action(&self) -> HyperscriptAction {
        self.hyperscript_action
    }

    pub closed spec fn spec_html_action(&self) -> HtmlAction {
        self.html_action
    }

    /// A request to `url` with the given options, which links to `url` in HTML.
    pub fn ajax_default(url: &str, ajax_options: Option<Vec<AjaxRequestOption>>) -> (r: Self)
        ensures
            r.url() == url@,
            r.spec_hyperscript_action().url() == url@,
            r.spec_hyperscript_action()->options@ == (match ajax_options {
                Some(o) => o@,
                None => Seq::empty(),
            }),
    {
        EventAction {
            hyperscript_action: HyperscriptAction::ajax_default(url, ajax_options),
            html_action: HtmlAction::redirect(url),
        }
    }

    pub fn hyperscript_action(&self) -> (r: &HyperscriptAction)
        ensures
            *r == self.spec_hyperscript_action(),
            r.url() == self.url(),
    {
        proof {
            use_type_invariant(self);
        }
        &self.hyperscript_action
    }

    pub fn html_action(&self) -> (r: &HtmlAction)
        ensures
            *r == self.spec_html_action(),
            r.url() == self.url(),
    {
        &self.html_action
    }
}

} // verus!
