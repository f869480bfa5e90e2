//! Articles of the reading list.

use vstd::prelude::*;

verus! {

/// One saved article. `id` is the identifier that the remote service gave
/// it.
#[derive(Debug, PartialEq, Eq)]
pub struct Article {
    pub id: String,
    pub url: String,
    pub title: String,
}

/// The mathematical value of an [`Article`].
pub struct ArticleModel {
    pub id: Seq<char>,
    pub url: Seq<char>,
    pub title: Seq<char>,
}

impl View for Article {
    type V = ArticleModel;

    open spec fn view(&self) -> ArticleModel {
        ArticleModel { id: self.id@, url: self.url@, title: self.title@ }
    }
}

/// The ids of a list of articles, in order.
pub open spec fn ids_of(articles: Seq<&Article>) -> Seq<Seq<char>> {
    Seq::new(articles.len(), |i: int| articles[i].id@)
}

impl Clone for Article {
    fn clone(&self) -> (copy: Article)
        ensures
            copy@ == self@,
    {
        Article { id: self.id.clone(), url: self.url.clone(), title: self.title.clone() }
    }
}

} // verus!
