//! JSON values and texts, as `serde_json` makes them.
use vstd::prelude::*;

verus! {

/// A JSON value of `serde_json`.  Nothing is known of it but what the
/// functions below say.
#[verifier::external_type_specification]
#[verifier::external_body]
pub struct ExValue(serde_json::Value);

/// The members of a JSON object that are texts.  A value that is not an object
/// has none.
pub uninterp spec fn text_members(value: serde_json::Value) -> Map<Seq<char>, Seq<char>>;

/// Calls `serde_json::Value::get` and, on the member that it gives, `as_str`.
/// Trusted: the result is the text of the member `key`, if the value is an
/// object that has such a member and it is a text.
#[verifier::external_body]
pub(crate) fn member_text(value: &serde_json::Value, key: &str) -> (text: Option<String>)
    ensures
        (match text {
            Some(text) => text_members(*value).dom().contains(key@) && text_members(*value)[key@]
                == text@,
            None => !text_members(*value).dom().contains(key@),
        }),
{
    value.get(key).and_then(serde_json::Value::as_str).map(str::to_string)
}

/// Calls `serde_json::Value::from_iter` with one member, which is a text or
/// null.  Trusted: the result is an object whose only member is `key`, so its
/// only member that is a text is the given one, if any.
#[verifier::external_body]
pub(crate) fn object_with_text(key: &str, text: Option<&str>) -> (value: serde_json::Value)
    ensures
        text_members(value) == (match text {
            Some(text) => Map::<Seq<char>, Seq<char>>::empty().insert(key@, text@),
            None => Map::<Seq<char>, Seq<char>>::empty(),
        }),
{
    serde_json::Value::from_iter([(key, text)])
}

/// What a member of a JSON object holds.
#[derive(Debug)]
pub enum JsonField {
    Null,
    Integer(i64),
    Text(String),
    /// An object with the member `tag`, which is an object with the member
    /// `key`.
    Tagged { tag: String, key: String, value: u64 },
}

/// The mathematical content of a [`JsonField`].
pub enum JsonFieldView {
    Null,
    Integer(i64),
    Text(Seq<char>),
    Tagged(Seq<char>, Seq<char>, u64),
}

impl View for JsonField {
    type V = JsonFieldView;

    open spec fn view(&self) -> JsonFieldView {
        match self {
            JsonField::Null => JsonFieldView::Null,
            JsonField::Integer(n) => JsonFieldView::Integer(*n),
            JsonField::Text(text) => JsonFieldView::Text(text@),
            JsonField::Tagged { tag, key, value } => JsonFieldView::Tagged(tag@, key@, *value),
        }
    }
}

/// A member of a JSON object.
#[derive(Debug)]
pub struct JsonMember {
    pub key: String,
    pub field: JsonField,
}

/// The content of members.
pub open spec fn members(members: Seq<JsonMember>) -> Seq<(Seq<char>, JsonFieldView)> {
    members.map_values(|member: JsonMember| (member.key@, member.field@))
}

/// The compact JSON text of an object with these members.
pub uninterp spec fn object_text(members: Seq<(Seq<char>, JsonFieldView)>) -> Seq<char>;

/// Calls `serde_json::Value::from_iter` on the members, each converted to a
/// `serde_json::Value`, and `to_string` on the object.  Trusted: the text is a
/// function of the members.
#[verifier::external_body]
pub(crate) fn json_object_text(object: Vec<JsonMember>) -> (text: String)
    ensures
        text@ == object_text(members(object@)),
{
    serde_json::Value::from_iter(
        object.into_iter().map(
            |member| (member.key, match member.field {
                JsonField::Null => serde_json::Value::Null,
                JsonField::Integer(n) => serde_json::Value::from(n),
                JsonField::Text(text) => serde_json::Value::from(text),
                JsonField::Tagged { tag, key, value } => serde_json::Value::from_iter(
                    [(tag, serde_json::Value::from_iter([(key, value)]))],
                ),
            }),
        ),
    ).to_string()
}

} // verus!
