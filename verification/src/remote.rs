//! What the remote list endpoint answers: pages of article payloads.

use crate::article::{Article, ArticleModel};
use crate::json::{lemma_member_models, Json, JsonModel, parsed_json};
use vstd::prelude::*;

verus! {

/// The fields of a remote article payload that the library reads. A field is
/// `None` where the payload has no such member or the member is no string.
#[derive(Debug, PartialEq, Eq)]
pub struct RemoteItem {
    pub resolved_title: Option<String>,
    pub given_title: Option<String>,
    pub given_url: Option<String>,
}

/// The mathematical value of a [`RemoteItem`].
pub struct RemoteItemModel {
    pub resolved_title: Option<Seq<char>>,
    pub given_title: Option<Seq<char>>,
    pub given_url: Option<Seq<char>>,
}

/// The characters of an optional string.
pub open spec fn optional_text(text: Option<String>) -> Option<Seq<char>> {
    match text {
        Some(t) => Some(t@),
        None => None,
    }
}

impl View for RemoteItem {
    type V = RemoteItemModel;

    open spec fn view(&self) -> RemoteItemModel {
        RemoteItemModel {
            resolved_title: optional_text(self.resolved_title),
            given_title: optional_text(self.given_title),
            given_url: optional_text(self.given_url),
        }
    }
}

fn copy_text(text: &Option<String>) -> (copy: Option<String>)
    ensures
        optional_text(copy) == optional_text(*text),
{
    match text {
        Some(t) => Some(t.clone()),
        None => None,
    }
}

impl Clone for RemoteItem {
    fn clone(&self) -> (copy: RemoteItem)
        ensures
            copy@ == self@,
    {
        RemoteItem {
            resolved_title: copy_text(&self.resolved_title),
            given_title: copy_text(&self.given_title),
            given_url: copy_text(&self.given_url),
        }
    }
}

/// The string member `name` of a payload.
pub open spec fn text_member(payload: JsonModel, name: Seq<char>) -> Option<Seq<char>> {
    match payload.member(name) {
        Some(member) => member.text(),
        None => None,
    }
}

/// The fields that a payload gives.
pub open spec fn item_of(payload: JsonModel) -> RemoteItemModel {
    RemoteItemModel {
        resolved_title: text_member(payload, "resolved_title"@),
        given_title: text_member(payload, "given_title"@),
        given_url: text_member(payload, "given_url"@),
    }
}

/// The title of an article: the resolved title unless it is missing or
/// empty, else the given title unless it is missing or empty, else
/// "Untitled".
pub open spec fn title_of(item: RemoteItemModel) -> Seq<char> {
    if item.resolved_title is Some && item.resolved_title->0.len() > 0 {
        item.resolved_title->0
    } else if item.given_title is Some && item.given_title->0.len() > 0 {
        item.given_title->0
    } else {
        "Untitled"@
    }
}

/// The article that the payload stored under `id` stands for. A missing
/// address becomes the empty string.
pub open spec fn article_of(id: Seq<char>, item: RemoteItemModel) -> ArticleModel {
    ArticleModel {
        id,
        url: match item.given_url {
            Some(url) => url,
            None => Seq::empty(),
        },
        title: title_of(item),
    }
}

/// A title is never empty.
pub proof fn lemma_title_not_empty(item: RemoteItemModel)
    ensures
        title_of(item).len() > 0,
{
    reveal_strlit("Untitled");
}

fn read_text_member(payload: &Json, name: &str) -> (text: Option<String>)
    ensures
        optional_text(text) == text_member(payload@, name@),
{
    match payload.member(name) {
        Some(member) => match member.text() {
            Some(t) => Some(t.clone()),
            None => None,
        },
        None => None,
    }
}

impl RemoteItem {
    /// Reads the fields of a payload.
    pub fn from_json(payload: &Json) -> (item: RemoteItem)
        ensures
            item@ == item_of(payload@),
    {
        RemoteItem {
            resolved_title: read_text_member(payload, "resolved_title"),
            given_title: read_text_member(payload, "given_title"),
            given_url: read_text_member(payload, "given_url"),
        }
    }

    /// The article that this payload, stored under `id`, stands for.
    pub fn article(&self, id: &str) -> (article: Article)
        ensures
            article@ == article_of(id@, self@),
            article@.title.len() > 0,
    {
        proof {
            lemma_title_not_empty(self@);
        }
        let title = match &self.resolved_title {
            Some(t) if !t.as_str().is_empty() => t.clone(),
            _ => match &self.given_title {
                Some(t) if !t.as_str().is_empty() => t.clone(),
                _ => "Untitled".to_owned(),
            },
        };
        let url = match &self.given_url {
            Some(u) => u.clone(),
            None => String::new(),
        };
        Article { id: id.to_owned(), url, title }
    }
}

/// One page of the remote list: payload fields by article id, in the order
/// of the answer.
#[derive(Debug, PartialEq, Eq)]
pub struct Page {
    pub items: Vec<(String, RemoteItem)>,
}

/// The models of a list of page items, in order.
pub open spec fn item_models(items: Seq<(String, RemoteItem)>) -> Seq<
    (Seq<char>, RemoteItemModel),
> {
    Seq::new(items.len(), |i: int| (items[i].0@, items[i].1@))
}

impl View for Page {
    type V = Seq<(Seq<char>, RemoteItemModel)>;

    open spec fn view(&self) -> Seq<(Seq<char>, RemoteItemModel)> {
        item_models(self.items@)
    }
}

/// The view of an optional page.
pub open spec fn optional_page(page: Option<Page>) -> Option<Seq<(Seq<char>, RemoteItemModel)>> {
    match page {
        Some(p) => Some(p@),
        None => None,
    }
}

/// The page that an answer holds: the members of its member `list`, each
/// with the fields of its payload. A `list` that is no object has no
/// members, so the page is empty. `None` where the answer is no object or
/// has no member `list`.
pub open spec fn page_of(answer: JsonModel) -> Option<Seq<(Seq<char>, RemoteItemModel)>> {
    match answer.member("list"@) {
        Some(list) => match list.members() {
            Some(members) => Some(
                Seq::new(members.len(), |i: int| (members[i].0, item_of(members[i].1))),
            ),
            None => Some(Seq::empty()),
        },
        None => None,
    }
}

/// The page that the body of an answer holds: `None` where the body is not
/// JSON or holds no page.
pub open spec fn page_of_body(body: Seq<char>) -> Option<Seq<(Seq<char>, RemoteItemModel)>> {
    match parsed_json(body) {
        Some(answer) => page_of(answer),
        None => None,
    }
}

impl Page {
    /// The page that an answer holds.
    pub fn from_json(answer: &Json) -> (page: Option<Page>)
        ensures
            optional_page(page) == page_of(answer@),
    {
        let list = match answer.member("list") {
            Some(list) => list,
            None => {
                return None;
            },
        };
        let members = match list.members() {
            Some(members) => members,
            None => {
                return Some(Page { items: Vec::new() });
            },
        };
        proof {
            lemma_member_models(members@);
        }
        let mut items: Vec<(String, RemoteItem)> = Vec::new();
        let mut i: usize = 0;
        while i < members.len()
            invariant
                i <= members@.len(),
                items@.len() == i,
                forall|k: int|
                    0 <= k < i ==> items@[k].0@ == members@[k].0@ && items@[k].1@ == item_of(
                        members@[k].1@,
                    ),
            decreases members@.len() - i,
        {
            let item = RemoteItem::from_json(&members[i].1);
            items.push((members[i].0.clone(), item));
            i += 1;
        }
        Some(Page { items })
    }

    /// The page that the body of an answer holds.
    pub fn from_body(body: &str) -> (page: Option<Page>)
        ensures
            optional_page(page) == page_of_body(body@),
    {
        match Json::parse(body) {
            Some(answer) => Page::from_json(&answer),
            None => None,
        }
    }
}

} // verus!
