//! JSON documents as plain trees, read from text by `serde_json`.

use vstd::prelude::*;

verus! {

/// A JSON document.
///
/// A number keeps the decimal text it is written with. An object keeps its
/// members as a list; where a name occurs twice, the later member counts.
#[derive(Debug, PartialEq)]
pub enum Json {
    Null,
    Bool(bool),
    Number(String),
    Text(String),
    Array(Vec<Json>),
    Object(Vec<(String, Json)>),
}

/// The mathematical value of a [`Json`] document.
pub enum JsonModel {
    Null,
    Bool(bool),
    Number(Seq<char>),
    Text(Seq<char>),
    Array(Seq<JsonModel>),
    Object(Seq<(Seq<char>, JsonModel)>),
}

impl View for Json {
    type V = JsonModel;

    open spec fn view(&self) -> JsonModel
        decreases self,
    {
        match self {
            Json::Null => JsonModel::Null,
            Json::Bool(b) => JsonModel::Bool(*b),
            Json::Number(n) => JsonModel::Number(n@),
            Json::Text(t) => JsonModel::Text(t@),
            Json::Array(items) => JsonModel::Array(item_models(items@)),
            Json::Object(members) => JsonModel::Object(member_models(members@)),
        }
    }
}

/// The models of a list of documents, in order.
pub open spec fn item_models(items: Seq<Json>) -> Seq<JsonModel>
    decreases items,
{
    if items.len() == 0 {
        Seq::empty()
    } else {
        item_models(items.drop_last()).push(items.last()@)
    }
}

/// The models of a list of members, in order.
pub open spec fn member_models(members: Seq<(String, Json)>) -> Seq<(Seq<char>, JsonModel)>
    decreases members,
{
    if members.len() == 0 {
        Seq::empty()
    } else {
        member_models(members.drop_last()).push((members.last().0@, members.last().1@))
    }
}

/// The member of an object's member list that counts for `name`: the last
/// one so named.
pub open spec fn last_named(members: Seq<(Seq<char>, JsonModel)>, name: Seq<char>) -> Option<
    JsonModel,
>
    decreases members.len(),
{
    if members.len() == 0 {
        None
    } else if members.last().0 == name {
        Some(members.last().1)
    } else {
        last_named(members.drop_last(), name)
    }
}

impl JsonModel {
    /// The member `name` of an object; `None` for other documents and for
    /// objects without such a member.
    pub open spec fn member(self, name: Seq<char>) -> Option<JsonModel> {
        match self {
            JsonModel::Object(members) => last_named(members, name),
            _ => None,
        }
    }

    /// The characters of a string document; `None` for other documents.
    pub open spec fn text(self) -> Option<Seq<char>> {
        match self {
            JsonModel::Text(t) => Some(t),
            _ => None,
        }
    }

    /// The member list of an object; `None` for other documents.
    pub open spec fn members(self) -> Option<Seq<(Seq<char>, JsonModel)>> {
        match self {
            JsonModel::Object(members) => Some(members),
            _ => None,
        }
    }
}

/// `serde_json::Value`, the tree that `serde_json` reads a text into.
#[verifier::external_type_specification]
#[verifier::external_body]
pub struct ExValue(serde_json::Value);

/// `serde_json::Error`, the reason why a text was refused.
#[verifier::external_type_specification]
#[verifier::external_body]
pub struct ExError(serde_json::Error);

/// The document that `serde_json::from_str` reads from `text`, or `None`
/// where it refuses the text.
pub uninterp spec fn parsed_json(text: Seq<char>) -> Option<JsonModel>;

/// The document that a `serde_json::Value` holds.
pub uninterp spec fn value_model(value: serde_json::Value) -> JsonModel;

/// Calls `serde_json::from_str` for a `serde_json::Value`. Trusted: the call
/// succeeds exactly on the texts that `parsed_json` accepts, and the value
/// then holds the document that `parsed_json` names; both depend on the text
/// alone.
#[verifier::external_body]
fn read_value(text: &str) -> (read: Result<serde_json::Value, serde_json::Error>)
    ensures
        read is Ok <==> parsed_json(text@) is Some,
        read matches Ok(value) ==> parsed_json(text@) == Some(value_model(value)),
{
    serde_json::from_str::<serde_json::Value>(text)
}

/// Moves a `serde_json::Value` into a [`Json`], variant by variant; a number
/// is written out by `serde_json::Number`'s `to_string`. Trusted: the result
/// holds the same document.
#[verifier::external_body]
fn lift(value: serde_json::Value) -> (json: Json)
    ensures
        json@ == value_model(value),
{
    match value {
        serde_json::Value::Null => Json::Null,
        serde_json::Value::Bool(b) => Json::Bool(b),
        serde_json::Value::Number(n) => Json::Number(n.to_string()),
        serde_json::Value::String(s) => Json::Text(s),
        serde_json::Value::Array(a) => Json::Array(a.into_iter().map(lift).collect()),
        serde_json::Value::Object(o) => Json::Object(
            o.into_iter().map(|(k, v)| (k, lift(v))).collect(),
        ),
    }
}

impl Json {
    /// Reads a JSON text. `None` where the text is not JSON.
    pub fn parse(text: &str) -> (json: Option<Json>)
        ensures
            json is Some <==> parsed_json(text@) is Some,
            json matches Some(j) ==> parsed_json(text@) == Some(j@),
    {
        match read_value(text) {
            Ok(value) => Some(lift(value)),
            Err(_) => None,
        }
    }

    /// The member `name` of an object.
    pub fn member(&self, name: &str) -> (found: Option<&Json>)
        ensures
            found is Some <==> self@.member(name@) is Some,
            found matches Some(json) ==> self@.member(name@) == Some(json@),
    {
        match self {
            Json::Object(members) => {
                let key = name.to_owned();
                let ghost model = member_models(members@);
                let mut i: usize = members.len();
                proof {
                    lemma_member_models(members@);
                    assert(model.subrange(0, i as int) =~= model);
                }
                while i > 0
                    invariant
                        i <= members@.len(),
                        model.len() == members@.len(),
                        key@ == name@,
                        self@.member(name@) == last_named(model, name@),
                        forall|k: int|
                            0 <= k < members@.len() ==> model[k] == (
                                members@[k].0@,
                                members@[k].1@,
                            ),
                        last_named(model, name@) == last_named(model.subrange(0, i as int), name@),
                    decreases i,
                {
                    i -= 1;
                    let ghost prefix = model.subrange(0, i + 1);
                    assert(prefix.drop_last() =~= model.subrange(0, i as int));
                    if members[i].0 == key {
                        return Some(&members[i].1);
                    }
                }
                None
            },
            _ => None,
        }
    }

    /// The characters of a string document.
    pub fn text(&self) -> (text: Option<&String>)
        ensures
            text is Some <==> self@.text() is Some,
            text matches Some(t) ==> self@.text() == Some(t@),
    {
        match self {
            Json::Text(t) => Some(t),
            _ => None,
        }
    }

    /// The member list of an object.
    pub fn members(&self) -> (members: Option<&Vec<(String, Json)>>)
        ensures
            members is Some <==> self@.members() is Some,
            members matches Some(list) ==> self@.members() == Some(member_models(list@)),
    {
        match self {
            Json::Object(members) => Some(members),
            _ => None,
        }
    }
}

/// A list of members and its models correspond position by position.
pub proof fn lemma_member_models(members: Seq<(String, Json)>)
    ensures
        member_models(members).len() == members.len(),
        forall|i: int|
            0 <= i < members.len() ==> #[trigger] member_models(members)[i] == (
                members[i].0@,
                members[i].1@,
            ),
    decreases members.len(),
{
    reveal_with_fuel(member_models, 2);
    if members.len() > 0 {
        lemma_member_models(members.drop_last());
    }
}

} // verus!
