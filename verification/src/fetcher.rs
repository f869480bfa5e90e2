//! The paginated fetch of the remote unread list, as a state machine.
//!
//! The machine decides which pages to ask for and when to stop; its user
//! sends the requests and hands back the answers. Pages are asked for by
//! offset: page `k` starts at offset `k * PAGE_SIZE`.
//!
//! An answer is unusable where the request failed, where its body is not
//! JSON, and where the body has no member `list`. An unusable first page
//! fails the fetch: there is no data, which is not the same as a list of
//! no articles.
//!
//! The rule of termination is the one of concurrent batches with a hard
//! ceiling: a first page that is not full is the whole list; after a full
//! first page, the following pages are requested in batches of up to
//! `MAX_CONCURRENT_REQUESTS`; the fetch ends at the first page that is empty
//! or unusable, or once `MAX_PAGES` following pages have been requested. A
//! total that the server reports is never consulted.

use crate::inventory::Inventory;
use crate::remote::{optional_page, Page, RemoteItem, RemoteItemModel, page_of_body};
use vstd::prelude::*;

verus! {

/// The number of items asked for per page.
pub const PAGE_SIZE: usize = 30;

/// The largest number of pages requested at once.
pub const MAX_CONCURRENT_REQUESTS: usize = 5;

/// The largest number of pages requested after the first one.
pub const MAX_PAGES: usize = 50;

/// The items of one page, in the order of the answer.
pub type PageModel = Seq<(Seq<char>, RemoteItemModel)>;

/// The set of fetched items, by id.
pub type ItemsModel = Map<Seq<char>, RemoteItemModel>;

/// Where a fetch stands.
#[derive(Debug, Clone, Copy, PartialEq, Eq, Structural)]
pub enum Phase {
    /// The first page is awaited.
    First,
    /// A batch of following pages is awaited.
    Paging,
    /// The fetch has ended with the complete set.
    Complete,
    /// The first page could not be used: there is no data.
    Failed,
}

/// What the user of the machine does next.
#[derive(Debug, PartialEq, Eq)]
pub enum FetchAction {
    /// Request the pages at these offsets, concurrently, and hand back their
    /// answers in this order.
    Request(Vec<usize>),
    /// Nothing: the complete set is ready.
    Complete,
    /// Nothing: the fetch failed.
    Failed,
}

/// The mathematical state of a fetch.
pub struct FetcherModel {
    pub phase: Phase,
    /// The number of the first page that has not been requested yet.
    pub next: nat,
    /// The number of pages that are awaited: the pages before `next`.
    pub pending: nat,
    /// What has been merged so far.
    pub items: ItemsModel,
}

/// `items` after the items of `page` were stored in it one after the other:
/// of two items with one id the later one stays.
pub open spec fn merged(items: ItemsModel, page: PageModel) -> ItemsModel
    decreases page.len(),
{
    if page.len() == 0 {
        items
    } else {
        merged(items, page.drop_last()).insert(page.last().0, page.last().1)
    }
}

/// An answer that ends the fetch: no usable page, or a page without items.
pub open spec fn is_stop(answer: Option<PageModel>) -> bool {
    answer is None || answer->0.len() == 0
}

/// Some answer of the batch ends the fetch.
pub open spec fn stops(answers: Seq<Option<PageModel>>) -> bool {
    exists|k: int| 0 <= k < answers.len() && is_stop(#[trigger] answers[k])
}

/// `items` after the pages of a batch were merged into it in order, up to
/// the first answer that ends the fetch; what follows that answer is
/// dropped.
pub open spec fn absorbed(items: ItemsModel, answers: Seq<Option<PageModel>>) -> ItemsModel
    decreases answers.len(),
{
    if answers.len() == 0 || is_stop(answers[0]) {
        items
    } else {
        absorbed(merged(items, answers[0]->0), answers.drop_first())
    }
}

/// The answer for the `k`-th awaited page: an answer that was not handed in
/// counts as unusable.
pub open spec fn answer_at(pages: Seq<Option<PageModel>>, k: int) -> Option<PageModel> {
    if 0 <= k < pages.len() {
        pages[k]
    } else {
        None
    }
}

/// The answers for the awaited pages: answers beyond their number are
/// ignored.
pub open spec fn answers_for(pending: nat, pages: Seq<Option<PageModel>>) -> Seq<
    Option<PageModel>,
> {
    Seq::new(pending, |k: int| answer_at(pages, k))
}

/// The size of the batch that starts at page `next`.
pub open spec fn batch_size(next: nat) -> nat {
    if next + MAX_CONCURRENT_REQUESTS <= MAX_PAGES + 1 {
        MAX_CONCURRENT_REQUESTS as nat
    } else if next <= MAX_PAGES {
        (MAX_PAGES + 1 - next) as nat
    } else {
        0
    }
}

/// The state in which the batch that starts at page `next` is awaited.
pub open spec fn paging(next: nat, items: ItemsModel) -> FetcherModel {
    FetcherModel {
        phase: Phase::Paging,
        next: next + batch_size(next),
        pending: batch_size(next),
        items,
    }
}

/// The state in which the fetch has ended.
pub open spec fn ended(phase: Phase, next: nat, items: ItemsModel) -> FetcherModel {
    FetcherModel { phase, next, pending: 0, items }
}

impl FetcherModel {
    /// The state in which the first page is awaited.
    pub open spec fn initial() -> FetcherModel {
        FetcherModel { phase: Phase::First, next: 1, pending: 1, items: Map::empty() }
    }

    /// The state after the answers to the awaited pages came in.
    pub open spec fn step(self, pages: Seq<Option<PageModel>>) -> FetcherModel {
        match self.phase {
            Phase::First => match answer_at(pages, 0) {
                None => ended(Phase::Failed, self.next, self.items),
                Some(page) => if page.len() < PAGE_SIZE {
                    ended(Phase::Complete, self.next, merged(self.items, page))
                } else {
                    paging(self.next, merged(self.items, page))
                },
            },
            Phase::Paging => {
                let answers = answers_for(self.pending, pages);
                let items = absorbed(self.items, answers);
                if stops(answers) || self.next > MAX_PAGES {
                    ended(Phase::Complete, self.next, items)
                } else {
                    paging(self.next, items)
                }
            },
            Phase::Complete => self,
            Phase::Failed => self,
        }
    }

    /// The offsets of the awaited pages, in order.
    pub open spec fn offsets(self) -> Seq<usize> {
        Seq::new(self.pending, |k: int| ((self.next - self.pending + k) * PAGE_SIZE) as usize)
    }

    /// What a state asks of the user: it takes the offsets as given.
    pub open spec fn asks(self, action: FetchAction) -> bool {
        match self.phase {
            Phase::First | Phase::Paging => action matches FetchAction::Request(offsets)
                && offsets@ == self.offsets(),
            Phase::Complete => action is Complete,
            Phase::Failed => action is Failed,
        }
    }
}

/// The views of a list of answers, in order.
pub open spec fn page_models(pages: Seq<Option<Page>>) -> Seq<Option<PageModel>> {
    Seq::new(pages.len(), |i: int| optional_page(pages[i]))
}

/// The pages of a list of answer bodies, in order: a missing body is an
/// unusable answer.
pub open spec fn body_pages(bodies: Seq<Option<String>>) -> Seq<Option<PageModel>> {
    Seq::new(
        bodies.len(),
        |i: int|
            match bodies[i] {
                Some(body) => page_of_body(body@),
                None => None,
            },
    )
}

/// The state of one fetch.
#[derive(Debug)]
pub struct Fetcher {
    phase: Phase,
    next: usize,
    pending: usize,
    items: Inventory<RemoteItem>,
}

impl View for Fetcher {
    type V = FetcherModel;

    closed spec fn view(&self) -> FetcherModel {
        FetcherModel {
            phase: self.phase,
            next: self.next as nat,
            pending: self.pending as nat,
            items: self.items@,
        }
    }
}

/// Stores the items of `page` in `items`, in order.
fn merge_page(items: &mut Inventory<RemoteItem>, page: &Page)
    ensures
        final(items)@ == merged(old(items)@, page@),
{
    let mut i: usize = 0;
    while i < page.items.len()
        invariant
            i <= page.items@.len(),
            items@ == merged(old(items)@, page@.take(i as int)),
        decreases page.items@.len() - i,
    {
        proof {
            let prefix = page@.take(i + 1);
            assert(prefix.drop_last() =~= page@.take(i as int));
            assert(prefix.last() == page@[i as int]);
        }
        items.insert(page.items[i].0.clone(), page.items[i].1.clone());
        i += 1;
    }
    assert(page@.take(i as int) =~= page@);
}

impl Fetcher {
    #[verifier::type_invariant]
    spec fn bounded(self) -> bool {
        &&& 1 <= self.next <= MAX_PAGES + 1
        &&& self.pending <= self.next
        &&& self.pending <= MAX_CONCURRENT_REQUESTS
    }

    fn request(next: usize, pending: usize) -> (offsets: Vec<usize>)
        requires
            pending <= next <= MAX_PAGES + 1,
        ensures
            offsets@ == Seq::new(
                pending as nat,
                |k: int| ((next - pending + k) * PAGE_SIZE) as usize,
            ),
    {
        let mut offsets: Vec<usize> = Vec::new();
        let mut k: usize = 0;
        while k < pending
            invariant
                k <= pending <= next <= MAX_PAGES + 1,
                offsets@.len() == k,
                forall|j: int|
                    0 <= j < k ==> offsets@[j] == ((next - pending + j) * PAGE_SIZE) as usize,
            decreases pending - k,
        {
            offsets.push((next - pending + k) * PAGE_SIZE);
            k += 1;
        }
        assert(offsets@ =~= Seq::new(
            pending as nat,
            |k: int| ((next - pending + k) * PAGE_SIZE) as usize,
        ));
        offsets
    }

    fn batch(next: usize) -> (size: usize)
        requires
            next <= MAX_PAGES + 1,
        ensures
            size == batch_size(next as nat),
            next + size <= MAX_PAGES + 1,
            size <= MAX_CONCURRENT_REQUESTS,
    {
        if next + MAX_CONCURRENT_REQUESTS <= MAX_PAGES + 1 {
            MAX_CONCURRENT_REQUESTS
        } else if next <= MAX_PAGES {
            MAX_PAGES + 1 - next
        } else {
            0
        }
    }

    /// Starts a fetch: the first page, at offset 0, is to be requested.
    pub fn begin() -> (start: (Fetcher, FetchAction))
        ensures
            start.0@ == FetcherModel::initial(),
            start.0@.asks(start.1),
    {
        let fetcher = Fetcher { phase: Phase::First, next: 1, pending: 1, items: Inventory::new() };
        let offsets = Fetcher::request(1, 1);
        assert(offsets@ =~= fetcher@.offsets());
        (fetcher, FetchAction::Request(offsets))
    }

    /// Where the fetch stands.
    pub fn phase(&self) -> (phase: Phase)
        ensures
            phase == self@.phase,
    {
        self.phase
    }

    /// The offsets of the awaited pages, in order.
    pub fn awaited(&self) -> (offsets: Vec<usize>)
        ensures
            offsets@ == self@.offsets(),
    {
        proof {
            use_type_invariant(self);
        }
        Fetcher::request(self.next, self.pending)
    }

    /// What has been merged so far.
    pub fn items(&self) -> (items: &Inventory<RemoteItem>)
        ensures
            items@ == self@.items,
    {
        &self.items
    }

    /// Takes the answers to the awaited pages, in the order in which the pages
    /// were requested, and says what to do next. `None` stands for an answer
    /// that could not be had or holds no page.
    pub fn receive(&mut self, pages: &Vec<Option<Page>>) -> (action: FetchAction)
        ensures
            final(self)@ == old(self)@.step(page_models(pages@)),
            final(self)@.asks(action),
    {
        proof {
            use_type_invariant(&*self);
        }
        let ghost given = page_models(pages@);
        let ghost before = self@;
        let mut items: Inventory<RemoteItem> = Inventory::new();
        std::mem::swap(&mut items, &mut self.items);
        let next = self.next;
        match self.phase {
            Phase::First => {
                if pages.len() == 0 {
                    *self = Fetcher { phase: Phase::Failed, next, pending: 0, items };
                    return FetchAction::Failed;
                }
                match &pages[0] {
                    None => {
                        assert(answer_at(given, 0) is None);
                        *self = Fetcher { phase: Phase::Failed, next, pending: 0, items };
                        FetchAction::Failed
                    },
                    Some(page) => {
                        assert(answer_at(given, 0) == Some(page@));
                        merge_page(&mut items, page);
                        if page.items.len() < PAGE_SIZE {
                            *self = Fetcher { phase: Phase::Complete, next, pending: 0, items };
                            FetchAction::Complete
                        } else {
                            let size = Fetcher::batch(next);
                            let offsets = Fetcher::request(next + size, size);
                            *self = Fetcher {
                                phase: Phase::Paging,
                                next: next + size,
                                pending: size,
                                items,
                            };
                            assert(offsets@ =~= self@.offsets());
                            FetchAction::Request(offsets)
                        }
                    },
                }
            },
            Phase::Paging => {
                let pending = self.pending;
                let ghost answers = answers_for(pending as nat, given);
                let mut stopped = false;
                let mut k: usize = 0;
                assert(answers.skip(0) =~= answers);
                while k < pending && !stopped
                    invariant
                        k <= pending,
                        answers == answers_for(pending as nat, given),
                        given == page_models(pages@),
                        absorbed(before.items, answers) == absorbed(
                            items@,
                            answers.skip(k as int),
                        ),
                        stopped ==> k < pending && is_stop(answers[k as int]),
                        forall|j: int| 0 <= j < k ==> !is_stop(#[trigger] answers[j]),
                    decreases pending - k, if stopped { 0int } else { 1int },
                {
                    let ghost rest = answers.skip(k as int);
                    assert(rest[0] == answers[k as int]);
                    assert(rest.drop_first() =~= answers.skip(k + 1));
                    if k < pages.len() {
                        match &pages[k] {
                            Some(page) => {
                                assert(answers[k as int] == Some(page@));
                                if page.items.len() == 0 {
                                    stopped = true;
                                } else {
                                    merge_page(&mut items, page);
                                    k += 1;
                                }
                            },
                            None => {
                                stopped = true;
                            },
                        }
                    } else {
                        stopped = true;
                    }
                }
                assert(stopped == stops(answers));
                assert(items@ == absorbed(before.items, answers));
                if stopped || next > MAX_PAGES {
                    *self = Fetcher { phase: Phase::Complete, next, pending: 0, items };
                    FetchAction::Complete
                } else {
                    let size = Fetcher::batch(next);
                    let offsets = Fetcher::request(next + size, size);
                    *self = Fetcher {
                        phase: Phase::Paging,
                        next: next + size,
                        pending: size,
                        items,
                    };
                    assert(offsets@ =~= self@.offsets());
                    FetchAction::Request(offsets)
                }
            },
            Phase::Complete => {
                self.items = items;
                FetchAction::Complete
            },
            Phase::Failed => {
                self.items = items;
                FetchAction::Failed
            },
        }
    }

    /// Takes the bodies of the answers to the awaited pages, in the order in
    /// which the pages were requested, and says what to do next. `None`
    /// stands for an answer without a body: a request that failed or was
    /// refused.
    pub fn receive_bodies(&mut self, bodies: &Vec<Option<String>>) -> (action: FetchAction)
        ensures
            final(self)@ == old(self)@.step(body_pages(bodies@)),
            final(self)@.asks(action),
    {
        let mut pages: Vec<Option<Page>> = Vec::new();
        let mut i: usize = 0;
        while i < bodies.len()
            invariant
                i <= bodies@.len(),
                pages@.len() == i,
                forall|k: int| 0 <= k < i ==> optional_page(pages@[k]) == body_pages(bodies@)[k],
            decreases bodies@.len() - i,
        {
            let page = match &bodies[i] {
                Some(body) => Page::from_body(body.as_str()),
                None => None,
            };
            pages.push(page);
            i += 1;
        }
        assert(page_models(pages@) =~= body_pages(bodies@));
        self.receive(&pages)
    }

    /// Ends the fetch and hands out the complete set; `None` unless the fetch
    /// is complete.
    pub fn finish(self) -> (items: Option<Inventory<RemoteItem>>)
        ensures
            items is Some <==> self@.phase == Phase::Complete,
            items matches Some(set) ==> set@ == self@.items,
    {
        match self.phase {
            Phase::Complete => Some(self.items),
            _ => None,
        }
    }
}

/// The ids of the items of a page.
pub open spec fn page_ids(page: PageModel) -> Set<Seq<char>> {
    Set::new(|id: Seq<char>| exists|i: int| 0 <= i < page.len() && (#[trigger] page[i]).0 == id)
}

/// The ids of the items of the pages of a batch.
pub open spec fn batch_ids(answers: Seq<Option<PageModel>>) -> Set<Seq<char>> {
    Set::new(
        |id: Seq<char>|
            exists|k: int|
                0 <= k < answers.len() && (#[trigger] answers[k]) is Some && page_ids(
                    answers[k]->0,
                ).contains(id),
    )
}

/// Merging a page adds exactly the ids of its items, and keeps what was
/// stored under other ids.
pub proof fn lemma_merged_ids(items: ItemsModel, page: PageModel)
    ensures
        merged(items, page).dom() == items.dom().union(page_ids(page)),
        forall|id: Seq<char>|
            items.contains_key(id) && !page_ids(page).contains(id) ==> merged(items, page)[id]
                == items[id],
        items.dom().finite() ==> merged(items, page).dom().finite(),
    decreases page.len(),
{
    if page.len() == 0 {
        assert(merged(items, page).dom() =~= items.dom().union(page_ids(page)));
    } else {
        let rest = page.drop_last();
        lemma_merged_ids(items, rest);
        assert forall|id: Seq<char>| page_ids(page).contains(id) <==> (page_ids(rest).contains(id)
            || id == page.last().0) by {
            if page_ids(page).contains(id) {
                let i = choose|i: int| 0 <= i < page.len() && (#[trigger] page[i]).0 == id;
                if i < rest.len() {
                    assert(rest[i].0 == id);
                }
            }
            if page_ids(rest).contains(id) {
                let i = choose|i: int| 0 <= i < rest.len() && (#[trigger] rest[i]).0 == id;
                assert(page[i].0 == id);
            }
            if id == page.last().0 {
                assert(page[page.len() - 1].0 == id);
            }
        }
        assert(merged(items, page).dom() =~= items.dom().union(page_ids(page)));
    }
}

/// A batch without an answer that ends the fetch adds exactly the ids of the
/// items of its pages.
pub proof fn lemma_absorbed_ids(items: ItemsModel, answers: Seq<Option<PageModel>>)
    requires
        !stops(answers),
    ensures
        absorbed(items, answers).dom() == items.dom().union(batch_ids(answers)),
    decreases answers.len(),
{
    if answers.len() == 0 {
        assert(absorbed(items, answers).dom() =~= items.dom().union(batch_ids(answers)));
    } else {
        let rest = answers.drop_first();
        let first = answers[0];
        assert(!is_stop(first));
        assert(!stops(rest)) by {
            if stops(rest) {
                let k = choose|k: int| 0 <= k < rest.len() && is_stop(#[trigger] rest[k]);
                assert(is_stop(answers[k + 1]));
            }
        }
        lemma_merged_ids(items, first->0);
        lemma_absorbed_ids(merged(items, first->0), rest);
        assert forall|id: Seq<char>| batch_ids(answers).contains(id) <==> (page_ids(
            first->0,
        ).contains(id) || batch_ids(rest).contains(id)) by {
            if batch_ids(answers).contains(id) {
                let k = choose|k: int|
                    0 <= k < answers.len() && (#[trigger] answers[k]) is Some && page_ids(
                        answers[k]->0,
                    ).contains(id);
                if k > 0 {
                    assert(rest[k - 1] == answers[k]);
                }
            }
            if batch_ids(rest).contains(id) {
                let k = choose|k: int|
                    0 <= k < rest.len() && (#[trigger] rest[k]) is Some && page_ids(
                        rest[k]->0,
                    ).contains(id);
                assert(answers[k + 1] == rest[k]);
            }
            if page_ids(first->0).contains(id) {
                assert(answers[0] is Some);
            }
        }
        assert(absorbed(items, answers).dom() =~= items.dom().union(batch_ids(answers)));
    }
}

/// The order of the answers within a batch does not matter for the set of
/// ids: two batches of awaited pages that hold the same answers, each as
/// often as the other, none of which ends the fetch, leave the same ids and
/// ask for the same next step.
pub proof fn lemma_batch_order(
    state: FetcherModel,
    one: Seq<Option<PageModel>>,
    other: Seq<Option<PageModel>>,
)
    requires
        state.phase == Phase::Paging,
        one.len() == state.pending,
        one.to_multiset() == other.to_multiset(),
        !stops(one),
    ensures
        !stops(other),
        state.step(one).items.dom() == state.step(other).items.dom(),
        state.step(one).phase == state.step(other).phase,
        state.step(one).offsets() == state.step(other).offsets(),
{
    one.to_multiset_ensures();
    other.to_multiset_ensures();
    assert(other.len() == state.pending);
    assert forall|answer: Option<PageModel>| one.contains(answer) <==> other.contains(answer) by {
        assert(one.contains(answer) <==> one.to_multiset().count(answer) > 0);
        assert(other.contains(answer) <==> other.to_multiset().count(answer) > 0);
    }
    assert(answers_for(state.pending, one) =~= one);
    assert(answers_for(state.pending, other) =~= other);
    assert(!stops(other)) by {
        if stops(other) {
            let k = choose|k: int| 0 <= k < other.len() && is_stop(#[trigger] other[k]);
            assert(other.contains(other[k]));
            assert(one.contains(other[k]));
            let j = choose|j: int| 0 <= j < one.len() && one[j] == other[k];
            assert(is_stop(one[j]));
        }
    }
    lemma_absorbed_ids(state.items, one);
    lemma_absorbed_ids(state.items, other);
    assert forall|id: Seq<char>| batch_ids(one).contains(id) <==> batch_ids(other).contains(
        id,
    ) by {
        if batch_ids(one).contains(id) {
            let k = choose|k: int|
                0 <= k < one.len() && (#[trigger] one[k]) is Some && page_ids(
                    one[k]->0,
                ).contains(id);
            assert(one.contains(one[k]));
            assert(other.contains(one[k]));
            let j = choose|j: int| 0 <= j < other.len() && other[j] == one[k];
            assert(other[j] is Some && page_ids(other[j]->0).contains(id));
        }
        if batch_ids(other).contains(id) {
            let k = choose|k: int|
                0 <= k < other.len() && (#[trigger] other[k]) is Some && page_ids(
                    other[k]->0,
                ).contains(id);
            assert(other.contains(other[k]));
            assert(one.contains(other[k]));
            let j = choose|j: int| 0 <= j < one.len() && one[j] == other[k];
            assert(one[j] is Some && page_ids(one[j]->0).contains(id));
        }
    }
    assert(batch_ids(one) =~= batch_ids(other));
}

/// A first page with fewer items than a page can hold ends the fetch with
/// exactly the items of that page, whatever else is handed in, then or
/// later.
pub proof fn lemma_short_first_page(
    pages: Seq<Option<PageModel>>,
    later: Seq<Option<PageModel>>,
)
    requires
        pages.len() > 0,
        pages[0] is Some,
        pages[0]->0.len() < PAGE_SIZE,
    ensures
        FetcherModel::initial().step(pages) == ended(
            Phase::Complete,
            1,
            merged(Map::empty(), pages[0]->0),
        ),
        FetcherModel::initial().step(pages).step(later) == FetcherModel::initial().step(pages),
{
}

/// What is gathered from page `page` on, into `items`, where `remote` gives
/// the answer for each page number: the pages are merged in order up to the
/// first answer that ends the fetch, and no further than page `MAX_PAGES`.
pub open spec fn gathered(
    remote: spec_fn(nat) -> Option<PageModel>,
    items: ItemsModel,
    page: nat,
) -> ItemsModel
    decreases MAX_PAGES + 1 - page,
{
    if page > MAX_PAGES || is_stop(remote(page)) {
        items
    } else {
        gathered(remote, merged(items, remote(page)->0), (page + 1) as nat)
    }
}

/// What a whole fetch gives, where `remote` gives the answer for each page
/// number: no data where the first page is unusable; the first page alone
/// where it is not full; else the first page and what is gathered from the
/// second page on.
pub open spec fn fetched(remote: spec_fn(nat) -> Option<PageModel>) -> Option<ItemsModel> {
    match remote(0) {
        None => None,
        Some(first) => if first.len() < PAGE_SIZE {
            Some(merged(Map::empty(), first))
        } else {
            Some(gathered(remote, merged(Map::empty(), first), 1))
        },
    }
}

impl FetcherModel {
    /// The answers of `remote` to the awaited pages.
    pub open spec fn answers_from(self, remote: spec_fn(nat) -> Option<PageModel>) -> Seq<
        Option<PageModel>,
    > {
        Seq::new(self.pending, |k: int| remote((self.next - self.pending + k) as nat))
    }

    /// The state after `steps` rounds in which `remote` answered the awaited
    /// pages.
    pub open spec fn run(
        self,
        remote: spec_fn(nat) -> Option<PageModel>,
        steps: nat,
    ) -> FetcherModel
        decreases steps,
    {
        if steps == 0 {
            self
        } else {
            self.step(self.answers_from(remote)).run(remote, (steps - 1) as nat)
        }
    }

    /// What an ended fetch gives: the set where it is complete, no data
    /// where it failed.
    pub open spec fn outcome(self) -> Option<ItemsModel> {
        if self.phase == Phase::Complete {
            Some(self.items)
        } else {
            None
        }
    }
}

proof fn lemma_run_ended(
    state: FetcherModel,
    remote: spec_fn(nat) -> Option<PageModel>,
    steps: nat,
)
    requires
        state.phase == Phase::Complete || state.phase == Phase::Failed,
    ensures
        state.run(remote, steps) == state,
    decreases steps,
{
    if steps > 0 {
        lemma_run_ended(state, remote, (steps - 1) as nat);
    }
}

proof fn lemma_absorbed_gathered(
    remote: spec_fn(nat) -> Option<PageModel>,
    items: ItemsModel,
    start: nat,
    count: nat,
)
    requires
        start + count <= MAX_PAGES + 1,
    ensures
        ({
            let answers = Seq::new(count, |k: int| remote((start + k) as nat));
            gathered(remote, items, start) == if stops(answers) {
                absorbed(items, answers)
            } else {
                gathered(remote, absorbed(items, answers), start + count)
            }
        }),
    decreases count,
{
    let answers = Seq::new(count, |k: int| remote((start + k) as nat));
    if count > 0 {
        let first = remote(start);
        assert(answers[0] == first);
        if !is_stop(first) {
            let rest = Seq::new((count - 1) as nat, |k: int| remote((start + 1 + k) as nat));
            assert(answers.drop_first() =~= rest);
            lemma_absorbed_gathered(remote, merged(items, first->0), start + 1, (count - 1) as nat);
            assert(stops(answers) == stops(rest)) by {
                if stops(answers) {
                    let k = choose|k: int| 0 <= k < answers.len() && is_stop(#[trigger] answers[k]);
                    assert(is_stop(rest[k - 1]));
                }
                if stops(rest) {
                    let k = choose|k: int| 0 <= k < rest.len() && is_stop(#[trigger] rest[k]);
                    assert(is_stop(answers[k + 1]));
                }
            }
        }
    }
}

proof fn lemma_run_paging(
    state: FetcherModel,
    remote: spec_fn(nat) -> Option<PageModel>,
    steps: nat,
)
    requires
        state.phase == Phase::Paging,
        state.pending <= state.next <= MAX_PAGES + 1,
        steps >= MAX_PAGES + 2 - state.next,
    ensures
        state.run(remote, steps).phase == Phase::Complete,
        state.run(remote, steps).items == gathered(
            remote,
            state.items,
            (state.next - state.pending) as nat,
        ),
    decreases steps,
{
    let start = (state.next - state.pending) as nat;
    let answers = state.answers_from(remote);
    assert(answers =~= Seq::new(state.pending, |k: int| remote((start + k) as nat)));
    assert(answers_for(state.pending, answers) =~= answers);
    lemma_absorbed_gathered(remote, state.items, start, state.pending);
    let after = state.step(answers);
    if stops(answers) || state.next > MAX_PAGES {
        lemma_run_ended(after, remote, (steps - 1) as nat);
    } else {
        lemma_run_paging(after, remote, (steps - 1) as nat);
    }
}

/// A fetch in which `remote` answers the requests ends, after no more rounds
/// than there are pages, with what `fetched` describes: the batches are a
/// way of asking, and do not show in the result.
pub proof fn lemma_run_fetches(remote: spec_fn(nat) -> Option<PageModel>, steps: nat)
    requires
        steps >= MAX_PAGES + 2,
    ensures
        ({
            let end = FetcherModel::initial().run(remote, steps);
            &&& end.phase == Phase::Complete || end.phase == Phase::Failed
            &&& end.outcome() == fetched(remote)
        }),
{
    let start = FetcherModel::initial();
    let answers = start.answers_from(remote);
    assert(answers[0] == remote(0));
    let after = start.step(answers);
    match remote(0) {
        None => {
            lemma_run_ended(after, remote, (steps - 1) as nat);
        },
        Some(first) => {
            if first.len() < PAGE_SIZE {
                lemma_run_ended(after, remote, (steps - 1) as nat);
            } else {
                lemma_run_paging(after, remote, (steps - 1) as nat);
            }
        },
    }
}

} // verus!
