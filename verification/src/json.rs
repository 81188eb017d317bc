//! JSON values, and what the library has from the JSON parser.
//!
//! A [`Json`] is a JSON value as a tree that the library can read and build.
//! Reading JSON text and writing it is the parser's work: nothing of it is
//! proved here, its results are named.

use vstd::prelude::*;

verus! {

/// A JSON value as the parser keeps it.
#[verifier::external_type_specification]
#[verifier::external_body]
pub struct ExValue(serde_json::Value);

/// A member of a JSON object.
#[derive(Debug)]
pub struct Member {
    pub name: String,
    pub value: Json,
}

/// A JSON value.
#[derive(Debug)]
pub enum Json {
    Null,
    Bool(bool),
    /// A number, as the parser writes it. The library reads no numbers; it
    /// only carries them.
    Number(String),
    Text(String),
    Array(Vec<Json>),
    /// The members of an object, in the order in which the parser hands
    /// them out.
    Object(Vec<Member>),
}

/// What a [`Member`] holds, as plain text.
pub struct MemberView {
    pub name: Seq<char>,
    pub value: JsonView,
}

/// What a [`Json`] holds, as plain text.
pub enum JsonView {
    Null,
    Bool(bool),
    Number(Seq<char>),
    Text(Seq<char>),
    Array(Seq<JsonView>),
    Object(Seq<MemberView>),
}

impl View for Json {
    type V = JsonView;

    open spec fn view(&self) -> JsonView
        decreases self,
    {
        match self {
            Json::Null => JsonView::Null,
            Json::Bool(b) => JsonView::Bool(*b),
            Json::Number(number) => JsonView::Number(number@),
            Json::Text(text) => JsonView::Text(text@),
            Json::Array(items) => JsonView::Array(
                Seq::new(
                    items.len() as nat,
                    |i: int|
                        if 0 <= i < items.len() {
                            items[i].view()
                        } else {
                            JsonView::Null
                        },
                ),
            ),
            Json::Object(members) => JsonView::Object(
                Seq::new(
                    members.len() as nat,
                    |i: int|
                        if 0 <= i < members.len() {
                            MemberView { name: members[i].name@, value: members[i].value.view() }
                        } else {
                            MemberView { name: Seq::empty(), value: JsonView::Null }
                        },
                ),
            ),
        }
    }
}

impl DeepView for Json {
    type V = JsonView;

    open spec fn deep_view(&self) -> JsonView {
        self@
    }
}

impl View for Member {
    type V = MemberView;

    open spec fn view(&self) -> MemberView {
        MemberView { name: self.name@, value: self.value@ }
    }
}

impl DeepView for Member {
    type V = MemberView;

    open spec fn deep_view(&self) -> MemberView {
        self@
    }
}

/// The items of an array are the views of its items.
pub proof fn lemma_array_view(items: Vec<Json>)
    ensures
        Json::Array(items)@ == JsonView::Array(items.deep_view()),
{
    assert(Json::Array(items)@->Array_0 =~= items.deep_view());
}

/// The members of an object are the views of its members.
pub proof fn lemma_object_view(members: Vec<Member>)
    ensures
        Json::Object(members)@ == JsonView::Object(members.deep_view()),
{
    assert(Json::Object(members)@->Object_0 =~= members.deep_view());
}

/// How deep a value may be nested to be written: far more than a list of
/// lectures is, and far less than what would exhaust the stack.
pub const DEPTH_LIMIT: usize = 64;

/// Whether no array or object of `value` lies inside more than `limit`
/// arrays and objects, itself counted.
pub open spec fn nested_within(value: JsonView, limit: nat) -> bool
    decreases limit,
{
    match value {
        JsonView::Array(items) => limit > 0 && forall|i: int|
            0 <= i < items.len() ==> nested_within(#[trigger] items[i], (limit - 1) as nat),
        JsonView::Object(members) => limit > 0 && forall|i: int|
            0 <= i < members.len() ==> nested_within(
                (#[trigger] members[i]).value,
                (limit - 1) as nat,
            ),
        _ => true,
    }
}

/// A value that is nested within a limit is nested within every greater one.
pub proof fn lemma_nested_within_more(value: JsonView, limit: nat, more: nat)
    requires
        nested_within(value, limit),
        limit <= more,
    ensures
        nested_within(value, more),
    decreases limit,
{
    match value {
        JsonView::Array(items) => {
            assert forall|i: int| 0 <= i < items.len() implies nested_within(
                #[trigger] items[i],
                (more - 1) as nat,
            ) by {
                lemma_nested_within_more(items[i], (limit - 1) as nat, (more - 1) as nat);
            }
        },
        JsonView::Object(members) => {
            assert forall|i: int| 0 <= i < members.len() implies nested_within(
                (#[trigger] members[i]).value,
                (more - 1) as nat,
            ) by {
                lemma_nested_within_more(members[i].value, (limit - 1) as nat, (more - 1) as nat);
            }
        },
        _ => {},
    }
}

/// The value that the parser reads from `text`; `None` where it reads none.
pub uninterp spec fn parsed(text: Seq<char>) -> Option<JsonView>;

/// The text that the parser writes for `value`; `None` where it writes none.
pub uninterp spec fn rendered(value: JsonView) -> Option<Seq<char>>;

/// Copies a value of the parser, `serde_json::Value`, into a [`Json`],
/// variant by variant; a number as `serde_json::Number` displays it, the
/// members of an object in the order of `serde_json::Map::iter`. Nothing is
/// claimed of the result. The parser nests values no deeper than its own
/// limit, so the copy ends.
#[verifier::external_body]
fn from_value(value: &serde_json::Value) -> Json {
    match value {
        serde_json::Value::Null => Json::Null,
        serde_json::Value::Bool(b) => Json::Bool(*b),
        serde_json::Value::Number(number) => Json::Number(number.to_string()),
        serde_json::Value::String(text) => Json::Text(text.clone()),
        serde_json::Value::Array(items) => Json::Array(items.iter().map(from_value).collect()),
        serde_json::Value::Object(members) => Json::Object(
            members.iter().map(
                |(name, value)| Member { name: name.clone(), value: from_value(value) },
            ).collect(),
        ),
    }
}

/// Copies a [`Json`] into a value of the parser, `serde_json::Value`, variant
/// by variant; a number by reading its text with `serde_json::from_str`, the
/// members of an object by `FromIterator` of `serde_json::Map`. There is no
/// copy where the text of a number is none that the parser reads. Nothing
/// is claimed of the result. The copy goes as deep as the value is nested,
/// so the nesting is bounded.
#[verifier::external_body]
fn to_value(value: &Json) -> Option<serde_json::Value>
    requires
        nested_within(value@, DEPTH_LIMIT as nat),
{
    Some(match value {
        Json::Null => serde_json::Value::Null,
        Json::Bool(b) => serde_json::Value::Bool(*b),
        Json::Number(number) => serde_json::Value::Number(serde_json::from_str(number).ok()?),
        Json::Text(text) => serde_json::Value::String(text.clone()),
        Json::Array(items) => serde_json::Value::Array(
            items.iter().map(to_value).collect::<Option<_>>()?,
        ),
        Json::Object(members) => serde_json::Value::Object(
            members.iter().map(|member| Some((member.name.clone(), to_value(&member.value)?)))
                .collect::<Option<_>>()?,
        ),
    })
}

/// Reads `text` with `serde_json::from_str` as a `serde_json::Value` and
/// copies it. The contract only names the outcome.
#[verifier::external_body]
pub(crate) fn parse(text: &str) -> (value: Option<Json>)
    ensures
        value.deep_view() == parsed(text@),
{
    serde_json::from_str::<serde_json::Value>(text).ok().map(|value| from_value(&value))
}

/// Copies `value` and writes it with `serde_json::to_string`, which goes as
/// deep as the value is nested. The contract only names the outcome.
#[verifier::external_body]
pub(crate) fn render(value: &Json) -> (text: Option<String>)
    requires
        nested_within(value@, DEPTH_LIMIT as nat),
    ensures
        text.deep_view() == rendered(value@),
{
    serde_json::to_string(&to_value(value)?).ok()
}

} // verus!
