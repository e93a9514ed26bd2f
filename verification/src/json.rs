//! A JSON document model: what the QMP logic reads from and writes to the
//! wire. Numbers keep their textual form, so no floating point is involved.

use vstd::prelude::*;

verus! {

/// A JSON value. Object members keep their order; lookups by key find the
/// first member with that key.
#[derive(Debug)]
pub enum Json {
    Null,
    Bool(bool),
    /// A number, as the text that encodes it.
    Number(String),
    Str(String),
    Array(Vec<Json>),
    Object(Vec<(String, Json)>),
}

/// The mathematical value of a [`Json`] document.
pub enum JsonView {
    Null,
    Bool(bool),
    Number(Seq<char>),
    Str(Seq<char>),
    Array(Seq<JsonView>),
    Object(Seq<(Seq<char>, JsonView)>),
}

impl View for Json {
    type V = JsonView;

    open spec fn view(&self) -> JsonView
        decreases self, 0nat,
    {
        match self {
            Json::Null => JsonView::Null,
            Json::Bool(b) => JsonView::Bool(*b),
            Json::Number(n) => JsonView::Number(n@),
            Json::Str(s) => JsonView::Str(s@),
            Json::Array(items) => JsonView::Array(items_view(items@)),
            Json::Object(members) => JsonView::Object(members_view(members@)),
        }
    }
}

/// The views of a sequence of values, element by element.
pub open spec fn items_view(items: Seq<Json>) -> Seq<JsonView>
    decreases items, 1nat,
{
    if items.len() == 0 {
        Seq::empty()
    } else {
        seq![items[0].view()] + items_view(items.drop_first())
    }
}

/// The views of a sequence of object members, member by member.
pub open spec fn members_view(members: Seq<(String, Json)>) -> Seq<(Seq<char>, JsonView)>
    decreases members, 1nat,
{
    if members.len() == 0 {
        Seq::empty()
    } else {
        seq![(members[0].0@, members[0].1.view())] + members_view(members.drop_first())
    }
}

/// `items_view` maps each element to its view.
pub proof fn lemma_items_view(items: Seq<Json>)
    ensures
        items_view(items).len() == items.len(),
        forall|i: int| 0 <= i < items.len() ==> #[trigger] items_view(items)[i] == items[i]@,
    decreases items.len(),
{
    if items.len() == 0 {
        assert(items_view(items) == Seq::<JsonView>::empty());
    }
    if items.len() > 0 {
        assert(items_view(items) == seq![items[0].view()] + items_view(items.drop_first()));
        lemma_items_view(items.drop_first());
        assert forall|i: int| 0 <= i < items.len() implies #[trigger] items_view(items)[i]
            == items[i]@ by {
            if i > 0 {
                assert(items.drop_first()[i - 1] == items[i]);
            }
        }
    }
}

/// `members_view` maps each member to its name's and its value's view.
pub proof fn lemma_members_view(members: Seq<(String, Json)>)
    ensures
        members_view(members).len() == members.len(),
        forall|i: int|
            0 <= i < members.len() ==> #[trigger] members_view(members)[i] == (
                members[i].0@,
                members[i].1@,
            ),
    decreases members.len(),
{
    if members.len() == 0 {
        assert(members_view(members) == Seq::<(Seq<char>, JsonView)>::empty());
    }
    if members.len() > 0 {
        assert(members_view(members) == seq![(members[0].0@, members[0].1.view())] + members_view(
            members.drop_first(),
        ));
        lemma_members_view(members.drop_first());
        assert forall|i: int| 0 <= i < members.len() implies #[trigger] members_view(members)[i]
            == (members[i].0@, members[i].1@) by {
            if i > 0 {
                assert(members.drop_first()[i - 1] == members[i]);
            }
        }
    }
}

/// The value of the first member named `key`.
pub open spec fn member(members: Seq<(Seq<char>, JsonView)>, key: Seq<char>) -> Option<JsonView>
    decreases members.len(),
{
    if members.len() == 0 {
        None
    } else if members[0].0 == key {
        Some(members[0].1)
    } else {
        member(members.drop_first(), key)
    }
}

impl JsonView {
    /// The member named `key` of an object; nothing for any other value
    /// (`serde_json::Value::get` with a string key).
    pub open spec fn get(self, key: Seq<char>) -> Option<JsonView> {
        match self {
            JsonView::Object(members) => member(members, key),
            _ => None,
        }
    }

    /// Whether an object has a member named `key`.
    pub open spec fn has(self, key: Seq<char>) -> bool {
        self.get(key) is Some
    }

    pub open spec fn is_object(self) -> bool {
        self is Object
    }
}

impl Json {
    /// A copy of this value, equal to it in every member and element.
    #[verifier::loop_isolation(false)]
    pub fn deep_clone(&self) -> (r: Json)
        ensures
            r@ == self@,
        decreases self,
    {
        match self {
            Json::Null => Json::Null,
            Json::Bool(b) => Json::Bool(*b),
            Json::Number(n) => Json::Number(n.clone()),
            Json::Str(s) => Json::Str(s.clone()),
            Json::Array(items) => {
                let mut out: Vec<Json> = Vec::new();
                let mut i: usize = 0;
                while i < items.len()
                    invariant
                        i <= items@.len(),
                        out@.len() == i,
                        forall|j: int| 0 <= j < i ==> #[trigger] out@[j]@ == items@[j]@,
                    decreases items.len() - i,
                {
                    proof {
                        assert(decreases_to!(items => items@));
                        assert(decreases_to!(items@ => items@[i as int]));
                    }
                    let c = items[i].deep_clone();
                    out.push(c);
                    i = i + 1;
                }
                proof {
                    lemma_items_view(out@);
                    lemma_items_view(items@);
                    assert(items_view(out@) =~= items_view(items@));
                }
                Json::Array(out)
            },
            Json::Object(members) => {
                let mut out: Vec<(String, Json)> = Vec::new();
                let mut i: usize = 0;
                while i < members.len()
                    invariant
                        i <= members@.len(),
                        out@.len() == i,
                        forall|j: int|
                            0 <= j < i ==> #[trigger] out@[j].0@ == members@[j].0@ && out@[j].1@
                                == members@[j].1@,
                    decreases members.len() - i,
                {
                    proof {
                        assert(decreases_to!(members => members@));
                        assert(decreases_to!(members@ => members@[i as int]));
                        assert(decreases_to!(members@[i as int] => members@[i as int].1));
                    }
                    let k = members[i].0.clone();
                    let v = members[i].1.deep_clone();
                    out.push((k, v));
                    i = i + 1;
                }
                proof {
                    lemma_members_view(out@);
                    lemma_members_view(members@);
                    assert(members_view(out@) =~= members_view(members@));
                }
                Json::Object(out)
            },
        }
    }

    /// The member named `key`, if this is an object that has one.
    #[verifier::loop_isolation(false)]
    pub fn get(&self, key: &str) -> (r: Option<&Json>)
        ensures
            r matches Some(v) ==> self@.get(key@) == Some(v@),
            r is None ==> self@.get(key@) is None,
    {
        match self {
            Json::Object(members) => {
                let k = key.to_owned();
                let ghost ms = self@->Object_0;
                proof {
                    lemma_members_view(members@);
                }
                let mut i: usize = 0;
                assert(ms.skip(0) =~= ms);
                while i < members.len()
                    invariant
                        i <= members@.len(),
                        k@ == key@,
                        ms.len() == members@.len(),
                        forall|j: int|
                            0 <= j < ms.len() ==> #[trigger] ms[j] == (members@[j].0@, members@[j].1@),
                        member(ms, key@) == member(ms.skip(i as int), key@),
                    decreases members.len() - i,
                {
                    if members[i].0 == k {
                        return Some(&members[i].1);
                    }
                    assert(ms.skip(i as int).drop_first() =~= ms.skip(i + 1));
                    i = i + 1;
                }
                None
            },
            _ => None,
        }
    }

    /// The string, if this value is a JSON string (`serde_json::Value::as_str`).
    pub fn as_str(&self) -> (r: Option<&String>)
        ensures
            r matches Some(s) ==> self@ == JsonView::Str(s@),
            r is None ==> !(self@ is Str),
    {
        match self {
            Json::Str(s) => Some(s),
            _ => None,
        }
    }

    /// Whether this value is a JSON object.
    pub fn is_object(&self) -> (r: bool)
        ensures
            r == self@.is_object(),
    {
        match self {
            Json::Object(_) => true,
            _ => false,
        }
    }
}

/// Declares `serde_json::Value`, through which the qapi checks read a
/// message; nothing is read from it in verified code.
#[verifier::external_type_specification]
#[verifier::external_body]
pub struct ExValue(serde_json::Value);

/// Declares `serde_json::Error`; nothing is read from it in verified code.
#[verifier::external_type_specification]
#[verifier::external_body]
pub struct ExSerdeJsonError(serde_json::Error);

/// Builds the `serde_json::Value` of a JSON document, member by member and
/// element by element; a number's text is parsed with
/// `serde_json::Number::from_str`, whose error is handed back. Nothing is
/// claimed of the value.
#[verifier::external_body]
pub(crate) fn json_to_value(j: &Json) -> (r: Result<serde_json::Value, serde_json::Error>) {
    Ok(match j {
        Json::Null => serde_json::Value::Null,
        Json::Bool(b) => serde_json::Value::Bool(*b),
        Json::Number(t) => serde_json::Value::Number(t.parse()?),
        Json::Str(s) => serde_json::Value::String(s.clone()),
        Json::Array(v) => serde_json::Value::Array(v.iter().map(json_to_value).collect::<Result<_, _>>()?),
        Json::Object(m) => serde_json::Value::Object(
            m.iter().map(|(k, v)| Ok((k.clone(), json_to_value(v)?))).collect::<Result<_, _>>()?,
        ),
    })
}

/// Builds the JSON document of a `serde_json::Value`, keeping each number's
/// text (`Number`'s `Display`). Nothing is claimed of the document.
#[verifier::external_body]
pub(crate) fn value_to_json(v: &serde_json::Value) -> (r: Json) {
    match v {
        serde_json::Value::Null => Json::Null,
        serde_json::Value::Bool(b) => Json::Bool(*b),
        serde_json::Value::Number(n) => Json::Number(n.to_string()),
        serde_json::Value::String(s) => Json::Str(s.clone()),
        serde_json::Value::Array(items) => Json::Array(items.iter().map(value_to_json).collect()),
        serde_json::Value::Object(m) => Json::Object(
            m.iter().map(|(k, item)| (k.clone(), value_to_json(item))).collect(),
        ),
    }
}

/// Names the document that serde_json parses from a text, or nothing when
/// it refuses the text.
pub uninterp spec fn json_parse(text: Seq<char>) -> Option<JsonView>;

/// Names the text of the error with which serde_json refuses a text.
pub uninterp spec fn json_parse_error(text: Seq<char>) -> Seq<char>;

/// Calls `serde_json::from_str::<serde_json::Value>` and converts the value.
/// Claimed: whether it succeeds, the document, and the error's text depend
/// on the text alone, as `json_parse` and `json_parse_error` name them.
#[verifier::external_body]
pub(crate) fn parse_json_text(text: &str) -> (r: Result<Json, String>)
    ensures
        r is Ok <==> json_parse(text@) is Some,
        r matches Ok(j) ==> json_parse(text@) == Some(j@),
        r matches Err(m) ==> m@ == json_parse_error(text@),
{
    serde_json::from_str::<serde_json::Value>(text).map(|v| value_to_json(&v)).map_err(|e| e.to_string())
}

/// Names the compact text that serde_json writes for a document.
pub uninterp spec fn json_text(v: JsonView) -> Seq<char>;

/// Converts the document to a `serde_json::Value` and calls its `Display`
/// (`serde_json::to_string`); where a number's text is one that serde_json
/// does not accept, the text of that error is given instead. Claimed: the
/// text depends on the document alone, as `json_text` names it.
#[verifier::external_body]
pub(crate) fn render_json(j: &Json) -> (r: String)
    ensures
        r@ == json_text(j@),
{
    match json_to_value(j) {
        Ok(v) => v.to_string(),
        Err(e) => e.to_string(),
    }
}

/// The compact JSON text of a document.
pub fn render(j: &Json) -> (r: String)
    ensures
        r@ == json_text(j@),
{
    render_json(j)
}

/// One JSON line: the document's text followed by a newline.
pub fn json_line_text(j: &Json) -> (r: String)
    ensures
        r@ == json_text(j@).push('\n'),
{
    let mut r = render_json(j);
    crate::text::push_char(&mut r, '\n');
    r
}

} // verus!
