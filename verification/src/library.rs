//! The local library: the unread and the read bucket, the picker and the
//! replacement of the library by a fresh remote set.

use crate::article::{ids_of, Article, ArticleModel};
use crate::fetcher::ItemsModel;
use crate::inventory::Inventory;
use crate::remote::{article_of, RemoteItem};
use crate::text::texts;
use rand::seq::SliceRandom;
use vstd::prelude::*;

verus! {

/// A bucket of articles by id.
pub type BucketModel = Map<Seq<char>, ArticleModel>;

/// The mathematical value of a [`Library`].
pub struct LibraryModel {
    pub read: BucketModel,
    pub unread: BucketModel,
}

/// Every article of the bucket is stored under its own id.
pub open spec fn keyed_by_id(bucket: BucketModel) -> bool {
    forall|id: Seq<char>| bucket.contains_key(id) ==> (#[trigger] bucket[id]).id == id
}

/// The ids of a list of articles, in order.
pub open spec fn article_ids(articles: Seq<Article>) -> Seq<Seq<char>> {
    Seq::new(articles.len(), |i: int| articles[i].id@)
}

/// The bucket that a list of articles fills: each article under its own id;
/// of two articles with one id the later one stays.
pub open spec fn bucket_of(articles: Seq<Article>) -> BucketModel
    decreases articles.len(),
{
    if articles.len() == 0 {
        Map::empty()
    } else {
        bucket_of(articles.drop_last()).insert(articles.last().id@, articles.last()@)
    }
}

/// The articles that a fetched set stands for, by id.
pub open spec fn articles_of(items: ItemsModel) -> BucketModel {
    Map::new(|id: Seq<char>| items.contains_key(id), |id: Seq<char>| article_of(id, items[id]))
}

impl LibraryModel {
    /// Both buckets hold finitely many articles, each under its own id.
    pub open spec fn valid(self) -> bool {
        &&& self.read.dom().finite()
        &&& self.unread.dom().finite()
        &&& keyed_by_id(self.read)
        &&& keyed_by_id(self.unread)
    }

    /// No id is in both buckets.
    pub open spec fn disjoint(self) -> bool {
        forall|id: Seq<char>| !(self.read.contains_key(id) && self.unread.contains_key(id))
    }

    /// The library after the unread article `id` became read; the library
    /// itself where no unread article has that id.
    pub open spec fn moved(self, id: Seq<char>) -> LibraryModel {
        if self.unread.contains_key(id) {
            LibraryModel {
                read: self.read.insert(id, self.unread[id]),
                unread: self.unread.remove(id),
            }
        } else {
            self
        }
    }

    /// The library after the articles `ids` became read one after the other.
    pub open spec fn moved_all(self, ids: Seq<Seq<char>>) -> LibraryModel
        decreases ids.len(),
    {
        if ids.len() == 0 {
            self
        } else {
            self.moved_all(ids.drop_last()).moved(ids.last())
        }
    }

    /// The library that a fetched set gives: nothing read, and unread what
    /// was fetched.
    pub open spec fn renewed(items: ItemsModel) -> LibraryModel {
        LibraryModel { read: Map::empty(), unread: articles_of(items) }
    }
}

/// The counts that `status` reports.
#[derive(Debug, Clone, Copy, PartialEq, Eq, Structural)]
pub struct Status {
    pub read: usize,
    pub unread: usize,
}

/// The local library.
#[derive(Debug)]
pub struct Library {
    read: Inventory<Article>,
    unread: Inventory<Article>,
}

impl View for Library {
    type V = LibraryModel;

    closed spec fn view(&self) -> LibraryModel {
        LibraryModel { read: self.read@, unread: self.unread@ }
    }
}

/// Draws one of `ids` with `rand`'s `SliceRandom::choose` on the generator
/// of the thread, `rand::thread_rng`. Trusted, as the documentation of
/// `choose` says: `None` exactly for an empty list, else a reference to one
/// of its elements. Which one is left open: two draws from one list may
/// differ. The generator cannot be had where the system has no source of
/// randomness; the call then panics.
#[verifier::external_body]
fn draw(ids: &Vec<String>) -> (drawn: Option<&String>)
    ensures
        drawn is Some <==> ids@.len() > 0,
        drawn matches Some(id) ==> ids@.contains(*id),
{
    ids.as_slice().choose(&mut rand::thread_rng())
}

/// Stores each article of the list under its own id.
fn fill(articles: Vec<Article>) -> (bucket: Inventory<Article>)
    ensures
        bucket@ == bucket_of(articles@),
        keyed_by_id(bucket@),
{
    let mut bucket: Inventory<Article> = Inventory::new();
    let mut i: usize = 0;
    while i < articles.len()
        invariant
            i <= articles@.len(),
            bucket@ == bucket_of(articles@.take(i as int)),
            keyed_by_id(bucket@),
        decreases articles@.len() - i,
    {
        proof {
            let prefix = articles@.take(i + 1);
            assert(prefix.drop_last() =~= articles@.take(i as int));
            assert(prefix.last() == articles@[i as int]);
        }
        bucket.insert(articles[i].id.clone(), articles[i].clone());
        i += 1;
    }
    assert(articles@.take(i as int) =~= articles@);
    bucket
}

/// Copies the articles of a bucket into a list, in stored order.
fn copies(bucket: &Inventory<Article>) -> (articles: Vec<Article>)
    requires
        keyed_by_id(bucket@),
    ensures
        lists(articles@, bucket@),
{
    let values = bucket.values();
    let mut articles: Vec<Article> = Vec::new();
    let mut i: usize = 0;
    while i < values.len()
        invariant
            i <= values@.len(),
            articles@.len() == i,
            forall|k: int| 0 <= k < i ==> articles@[k]@ == values@[k]@,
        decreases values@.len() - i,
    {
        articles.push(values[i].clone());
        i += 1;
    }
    proof {
        let ids = article_ids(articles@);
        assert forall|k: int| 0 <= k < ids.len() implies ids[k] == bucket.order()[k] by {
            let id = bucket.order()[k];
            assert(bucket@.contains_key(id));
            assert(bucket@[id].id == id);
        }
        assert(ids =~= bucket.order());
        assert forall|id: Seq<char>| bucket@.contains_key(id) implies ids.contains(id) by {
            assert(bucket.order().to_set().contains(id));
        }
    }
    articles
}

impl Library {
    #[verifier::type_invariant]
    spec fn keyed(self) -> bool {
        keyed_by_id(self.read@) && keyed_by_id(self.unread@)
    }

    /// The ids of the read articles, in the order in which `read_articles`
    /// lists them.
    pub closed spec fn read_order(&self) -> Seq<Seq<char>> {
        self.read.order()
    }

    /// The read articles: what a renewal deletes remotely. Each read article
    /// is listed once.
    pub fn read_articles(&self) -> (articles: Vec<&Article>)
        ensures
            ids_of(articles@) == self.read_order(),
            self.read_order().no_duplicates(),
            self.read_order().to_set() == self@.read.dom(),
            forall|i: int|
                0 <= i < articles@.len() ==> articles@[i]@ == self@.read[#[trigger] self.read_order()[
                    i
                ]],
            self@.valid(),
    {
        proof {
            use_type_invariant(self);
            self.read.lemma_finite();
            self.unread.lemma_finite();
        }
        let articles = self.read.values();
        assert(ids_of(articles@) =~= self.read_order()) by {
            assert forall|i: int| 0 <= i < articles@.len() implies ids_of(articles@)[i]
                == self.read.order()[i] by {
                let id = self.read.order()[i];
                assert(self.read@.contains_key(id));
                assert(self.read@[id].id == id);
            }
        }
        articles
    }

    /// The empty library.
    pub fn new() -> (library: Library)
        ensures
            library@.read == BucketModel::empty(),
            library@.unread == BucketModel::empty(),
            library@.valid(),
    {
        Library { read: Inventory::new(), unread: Inventory::new() }
    }

    /// The library that holds the given articles, each under its own id.
    pub fn from_articles(read: Vec<Article>, unread: Vec<Article>) -> (library: Library)
        ensures
            library@.read == bucket_of(read@),
            library@.unread == bucket_of(unread@),
            library@.valid(),
    {
        let library = Library { read: fill(read), unread: fill(unread) };
        proof {
            library.read.lemma_finite();
            library.unread.lemma_finite();
        }
        library
    }

    /// Copies of the read and of the unread articles, each article once: the
    /// lists from which `from_articles` makes this library again.
    pub fn to_articles(&self) -> (articles: (Vec<Article>, Vec<Article>))
        ensures
            lists(articles.0@, self@.read),
            lists(articles.1@, self@.unread),
            bucket_of(articles.0@) == self@.read,
            bucket_of(articles.1@) == self@.unread,
    {
        proof {
            use_type_invariant(self);
        }
        let read = copies(&self.read);
        let unread = copies(&self.unread);
        proof {
            lemma_listed_bucket(read@, self@.read);
            lemma_listed_bucket(unread@, self@.unread);
        }
        (read, unread)
    }

    /// The read bucket.
    pub fn read(&self) -> (bucket: &Inventory<Article>)
        ensures
            bucket@ == self@.read,
            bucket.order() == self.read_order(),
            self@.valid(),
    {
        proof {
            use_type_invariant(self);
            self.read.lemma_finite();
            self.unread.lemma_finite();
        }
        &self.read
    }

    /// The unread bucket.
    pub fn unread(&self) -> (bucket: &Inventory<Article>)
        ensures
            bucket@ == self@.unread,
            self@.valid(),
    {
        proof {
            use_type_invariant(self);
            self.read.lemma_finite();
            self.unread.lemma_finite();
        }
        &self.unread
    }

    /// How many articles are read and how many unread.
    pub fn status(&self) -> (status: Status)
        ensures
            status.read == self@.read.len(),
            status.unread == self@.unread.len(),
            self@.valid(),
    {
        proof {
            use_type_invariant(self);
        }
        Status { read: self.read.len(), unread: self.unread.len() }
    }

    /// One unread article, drawn at random; `None` exactly where nothing is
    /// unread.
    pub fn random_unread_article(&self) -> (article: Option<Article>)
        ensures
            self@.valid(),
            article is Some <==> self@.unread.len() > 0,
            article matches Some(a) ==> self@.unread.contains_key(a@.id) && self@.unread[a@.id]
                == a@,
    {
        proof {
            use_type_invariant(self);
            self.read.lemma_finite();
            self.unread.lemma_finite();
        }
        let ids = self.unread.ids();
        match draw(&ids) {
            Some(id) => {
                proof {
                    let i = choose|i: int| 0 <= i < ids@.len() && ids@[i] == *id;
                    assert(texts(ids@)[i] == id@);
                    assert(self.unread.order().to_set().contains(id@));
                }
                match self.unread.get(id.as_str()) {
                    Some(article) => Some(article.clone()),
                    None => None,
                }
            },
            None => {
                assert(texts(ids@).len() == 0);
                None
            },
        }
    }

    /// Makes the unread article `article_id` a read one and hands out a copy
    /// of it. `None`, and nothing changes, where no unread article has that
    /// id.
    pub fn take(&mut self, article_id: &str) -> (taken: Option<Article>)
        ensures
            final(self)@ == old(self)@.moved(article_id@),
            final(self)@.valid(),
            taken is Some <==> old(self)@.unread.contains_key(article_id@),
            taken matches Some(a) ==> a@ == old(self)@.unread[article_id@],
            old(self)@.disjoint() ==> final(self)@.disjoint(),
    {
        proof {
            use_type_invariant(&*self);
        }
        let mut read: Inventory<Article> = Inventory::new();
        let mut unread: Inventory<Article> = Inventory::new();
        std::mem::swap(&mut read, &mut self.read);
        std::mem::swap(&mut unread, &mut self.unread);
        let ghost before = LibraryModel { read: read@, unread: unread@ };
        let taken = match unread.remove(article_id) {
            Some(article) => {
                assert(before.unread[article_id@].id == article_id@);
                let copy = article.clone();
                read.insert(article.id.clone(), article);
                Some(copy)
            },
            None => None,
        };
        proof {
            read.lemma_finite();
            unread.lemma_finite();
            assert(read@ =~= before.moved(article_id@).read);
            assert(unread@ =~= before.moved(article_id@).unread);
        }
        *self = Library { read, unread };
        taken
    }

    /// Makes the unread article `article_id` a read one. Nothing changes
    /// where no unread article has that id.
    pub fn move_to_read(&mut self, article_id: String)
        ensures
            final(self)@ == old(self)@.moved(article_id@),
            final(self)@.valid(),
    {
        let _ = self.take(article_id.as_str());
    }

    /// Draws unread articles at random, one after the other, and makes each a
    /// read one, until `quantity` articles were drawn (one where `quantity`
    /// is `None`) or nothing is unread any more. Hands out the drawn
    /// articles in the order of drawing.
    pub fn pick(&mut self, quantity: Option<usize>) -> (picked: Vec<Article>)
        ensures
            old(self)@.valid(),
            final(self)@.valid(),
            final(self)@ == old(self)@.moved_all(article_ids(picked@)),
            picked@.len() == if wanted(quantity) <= old(self)@.unread.len() {
                wanted(quantity)
            } else {
                old(self)@.unread.len()
            },
            article_ids(picked@).no_duplicates(),
            forall|i: int|
                0 <= i < picked@.len() ==> old(self)@.unread.contains_key(
                    #[trigger] article_ids(picked@)[i],
                ) && old(self)@.unread[article_ids(picked@)[i]] == picked@[i]@,
            final(self)@.unread.len() == old(self)@.unread.len() - picked@.len(),
            old(self)@.disjoint() ==> final(self)@.read.len() == old(self)@.read.len()
                + picked@.len(),
            old(self)@.unread.len() == 0 ==> picked@.len() == 0 && final(self)@ == old(self)@,
            old(self)@.disjoint() ==> final(self)@.disjoint(),
    {
        let wanted = match quantity {
            Some(q) => q,
            None => 1,
        };
        let ghost before = self@;
        proof {
            use_type_invariant(&*self);
            self.read.lemma_finite();
            self.unread.lemma_finite();
        }
        let mut picked: Vec<Article> = Vec::new();
        assert(article_ids(picked@) =~= Seq::<Seq<char>>::empty());
        while picked.len() < wanted
            invariant
                before.valid(),
                self@.valid(),
                picked@.len() <= wanted,
                self@ == before.moved_all(article_ids(picked@)),
                article_ids(picked@).no_duplicates(),
                forall|i: int|
                    0 <= i < picked@.len() ==> before.unread.contains_key(
                        #[trigger] article_ids(picked@)[i],
                    ) && before.unread[article_ids(picked@)[i]] == picked@[i]@,
                self@.unread == before.unread.remove_keys(article_ids(picked@).to_set()),
            ensures
                picked@.len() == wanted || self@.unread.len() == 0,
            decreases wanted - picked@.len(),
        {
            let article = match self.random_unread_article() {
                Some(article) => article,
                None => {
                    break ;
                },
            };
            let ghost ids = article_ids(picked@);
            let ghost id = article@.id;
            self.take(article.id.as_str());
            picked.push(article);
            proof {
                let more = article_ids(picked@);
                assert(more =~= ids.push(id));
                assert(more.drop_last() =~= ids);
                assert(!ids.contains(id)) by {
                    if ids.contains(id) {
                        assert(ids.to_set().contains(id));
                    }
                }
                assert(more.no_duplicates());
                ids.lemma_push_to_set_commute(id);
                assert(self@.unread =~= before.unread.remove_keys(more.to_set()));
            }
        }
        proof {
            let ids = article_ids(picked@);
            lemma_moved_all(before, ids);
            vstd::seq_lib::seq_to_set_is_finite(ids);
            ids.unique_seq_to_set();
        }
        picked
    }

    /// The library that a fetched set gives: nothing read, and unread the
    /// article of each fetched item. What was in a library before is not
    /// looked at.
    pub fn renewed(items: &Inventory<RemoteItem>) -> (library: Library)
        ensures
            library@ == LibraryModel::renewed(items@),
            library@.valid(),
            library.read_order() == Seq::<Seq<char>>::empty(),
    {
        let ids = items.ids();
        let values = items.values();
        let mut unread: Inventory<Article> = Inventory::new();
        let mut i: usize = 0;
        while i < ids.len()
            invariant
                i <= ids@.len(),
                ids@.len() == values@.len(),
                texts(ids@) == items.order(),
                items.order().to_set() == items@.dom(),
                forall|k: int|
                    0 <= k < values@.len() ==> items@.contains_key(#[trigger] items.order()[k])
                        && values@[k]@ == items@[items.order()[k]],
                unread@ == articles_of(items@).restrict(items.order().take(i as int).to_set()),
            decreases ids@.len() - i,
        {
            let ghost id = ids@[i as int]@;
            assert(texts(ids@)[i as int] == id);
            assert(items.order()[i as int] == id);
            let article = values[i].article(ids[i].as_str());
            unread.insert(ids[i].clone(), article);
            proof {
                let done = items.order().take(i as int);
                let more = items.order().take(i + 1);
                assert(more =~= done.push(id));
                done.lemma_push_to_set_commute(id);
                assert(unread@ =~= articles_of(items@).restrict(more.to_set()));
            }
            i += 1;
        }
        proof {
            assert(items.order().take(i as int) =~= items.order());
            assert(unread@ =~= articles_of(items@));
            unread.lemma_finite();
        }
        let library = Library { read: Inventory::new(), unread };
        proof {
            library.read.lemma_finite();
        }
        library
    }

    /// Ends a renewal. With a fetched set the library is replaced by what the
    /// set gives and the result is `true`; without one, the fetch having
    /// failed, the library stays as it is and the result is `false`.
    pub fn renew(&mut self, fetched: Option<&Inventory<RemoteItem>>) -> (replaced: bool)
        ensures
            replaced == (fetched is Some),
            fetched matches Some(items) ==> final(self)@ == LibraryModel::renewed(items@),
            fetched is Some ==> final(self).read_order() == Seq::<Seq<char>>::empty(),
            fetched is None ==> final(self)@ == old(self)@,
            fetched is None ==> final(self).read_order() == old(self).read_order(),
            final(self)@.valid(),
    {
        proof {
            use_type_invariant(&*self);
            self.read.lemma_finite();
            self.unread.lemma_finite();
        }
        match fetched {
            Some(items) => {
                *self = Library::renewed(items);
                true
            },
            None => false,
        }
    }
}

/// The number of articles that `pick` is asked for: one unless said
/// otherwise.
pub open spec fn wanted(quantity: Option<usize>) -> nat {
    match quantity {
        Some(q) => q as nat,
        None => 1,
    }
}

/// Moving distinct unread articles takes exactly them out of the unread
/// bucket, and, where no id is in both buckets, adds as many to the read
/// bucket.
pub proof fn lemma_moved_all(library: LibraryModel, ids: Seq<Seq<char>>)
    requires
        library.valid(),
        ids.no_duplicates(),
        forall|i: int| 0 <= i < ids.len() ==> library.unread.contains_key(#[trigger] ids[i]),
    ensures
        library.moved_all(ids).valid(),
        library.moved_all(ids).unread == library.unread.remove_keys(ids.to_set()),
        library.moved_all(ids).read == library.read.union_prefer_right(
            library.unread.restrict(ids.to_set()),
        ),
        library.moved_all(ids).unread.len() == library.unread.len() - ids.len(),
        library.disjoint() ==> library.moved_all(ids).read.len() == library.read.len() + ids.len(),
        library.disjoint() ==> library.moved_all(ids).disjoint(),
    decreases ids.len(),
{
    if ids.len() == 0 {
        assert(ids.to_set() =~= Set::<Seq<char>>::empty());
        assert(library.unread.remove_keys(ids.to_set()) =~= library.unread);
        assert(library.read.union_prefer_right(library.unread.restrict(ids.to_set()))
            =~= library.read);
    } else {
        let rest = ids.drop_last();
        let id = ids.last();
        lemma_moved_all(library, rest);
        let mid = library.moved_all(rest);
        let end = mid.moved(id);
        assert(ids =~= rest.push(id));
        rest.lemma_push_to_set_commute(id);
        assert(!rest.contains(id)) by {
            if rest.contains(id) {
                let j = choose|j: int| 0 <= j < rest.len() && rest[j] == id;
                assert(ids[j] == ids[ids.len() - 1]);
            }
        }
        assert(mid.unread.contains_key(id));
        assert(mid.unread[id] == library.unread[id]);
        assert(end.unread =~= library.unread.remove_keys(ids.to_set()));
        assert(end.read =~= library.read.union_prefer_right(
            library.unread.restrict(ids.to_set()),
        ));
        mid.unread.lemma_remove_key_len(id);
        if library.disjoint() {
            assert(!mid.read.contains_key(id)) by {
                if mid.read.contains_key(id) {
                    assert(library.unread.restrict(rest.to_set()).contains_key(id)
                        || library.read.contains_key(id));
                }
            }
            assert(end.disjoint());
        }
    }
}

/// The list names every article of the bucket once, under its own id, and
/// nothing else.
pub open spec fn lists(articles: Seq<Article>, bucket: BucketModel) -> bool {
    &&& article_ids(articles).no_duplicates()
    &&& forall|i: int|
        0 <= i < articles.len() ==> bucket.contains_key(#[trigger] article_ids(articles)[i])
            && bucket[article_ids(articles)[i]] == articles[i]@
    &&& forall|id: Seq<char>| bucket.contains_key(id) ==> article_ids(articles).contains(id)
}

/// A list of the articles of a bucket, in whatever order, fills the same
/// bucket again.
pub proof fn lemma_listed_bucket(articles: Seq<Article>, bucket: BucketModel)
    requires
        lists(articles, bucket),
    ensures
        bucket_of(articles) == bucket,
    decreases articles.len(),
{
    let ids = article_ids(articles);
    if articles.len() == 0 {
        assert forall|id: Seq<char>| !bucket.contains_key(id) by {
            if bucket.contains_key(id) {
                assert(ids.contains(id));
            }
        }
        assert(bucket =~= Map::empty());
    } else {
        let rest = articles.drop_last();
        let last = articles.last();
        let less = bucket.remove(last.id@);
        let rest_ids = article_ids(rest);
        assert(rest_ids =~= ids.drop_last());
        assert(ids[ids.len() - 1] == last.id@);
        assert forall|i: int| 0 <= i < rest.len() implies less.contains_key(
            #[trigger] rest_ids[i],
        ) && less[rest_ids[i]] == rest[i]@ by {
            assert(ids[i] == rest_ids[i]);
            assert(ids[i] != ids[ids.len() - 1]);
            assert(bucket.contains_key(ids[i]));
        }
        assert forall|id: Seq<char>| less.contains_key(id) implies rest_ids.contains(id) by {
            assert(ids.contains(id));
            let i = choose|i: int| 0 <= i < ids.len() && ids[i] == id;
            assert(rest_ids[i] == id);
        }
        lemma_listed_bucket(rest, less);
        assert(bucket.contains_key(ids[ids.len() - 1]));
        assert(bucket_of(articles) =~= bucket);
    }
}

/// A library that is written out as the lists of its read and its unread
/// articles, in whatever order, is the same library when it is filled from
/// these lists again.
pub proof fn lemma_listed_library(library: LibraryModel, read: Seq<Article>, unread: Seq<Article>)
    requires
        lists(read, library.read),
        lists(unread, library.unread),
    ensures
        library == (LibraryModel { read: bucket_of(read), unread: bucket_of(unread) }),
{
    lemma_listed_bucket(read, library.read);
    lemma_listed_bucket(unread, library.unread);
}

} // verus!
