//! One renewal of the library: the read articles are deleted remotely, the
//! unread list is fetched, and the library is replaced by what was fetched.
//!
//! The renewal decides; its user posts the requests and persists the
//! library. The deletions come first and are never undone: where the fetch
//! fails afterwards, the library stays as it was.

use crate::api::{request_models, Action, ConfigurationModel, Request, RequestModel, API};
use crate::fetcher::{body_pages, FetchAction, Fetcher, FetcherModel, PageModel, Phase};
use crate::library::{Library, LibraryModel};
use vstd::prelude::*;

verus! {

/// Where a renewal stands.
#[derive(Debug, Clone, Copy, PartialEq, Eq, Structural)]
pub enum Stage {
    /// The deletions are being posted.
    Deleting,
    /// Pages of the unread list are awaited.
    Fetching,
    /// The library has been replaced and is to be persisted.
    Replaced,
    /// The fetch failed: the library is as it was.
    Aborted,
}

/// What the user of a renewal does next.
#[derive(Debug, PartialEq, Eq)]
pub enum RenewAction {
    /// Post these requests one after the other, go on whatever is answered,
    /// and take the next step.
    Delete(Vec<Request>),
    /// Post these requests concurrently and take the next step with the
    /// bodies of the answers, in this order.
    Fetch(Vec<Request>),
    /// Persist the library of the renewal.
    Save,
    /// Persist nothing.
    Abort,
}

/// The mathematical state of a renewal.
pub struct RenewalModel {
    pub configuration: ConfigurationModel,
    pub access_token: Seq<char>,
    pub stage: Stage,
    pub library: LibraryModel,
    /// The ids of the read articles of the library, in the order in which
    /// they are sent for deletion.
    pub read_order: Seq<Seq<char>>,
    pub fetcher: FetcherModel,
}

/// The requests for the pages at `offsets`, in order.
pub open spec fn page_requests(
    configuration: ConfigurationModel,
    access_token: Seq<char>,
    offsets: Seq<usize>,
) -> Seq<RequestModel> {
    Seq::new(offsets.len(), |i: int| configuration.page_request(access_token, offsets[i] as nat))
}

impl RenewalModel {
    /// The state in which a renewal of `library` begins: with the deletions
    /// where there is a read article, with the fetch where there is none.
    pub open spec fn initial(
        configuration: ConfigurationModel,
        access_token: Seq<char>,
        library: LibraryModel,
        read_order: Seq<Seq<char>>,
    ) -> RenewalModel {
        RenewalModel {
            configuration,
            access_token,
            stage: if read_order.len() == 0 {
                Stage::Fetching
            } else {
                Stage::Deleting
            },
            library,
            read_order,
            fetcher: FetcherModel::initial(),
        }
    }

    /// The state after the requests of the last action were posted and
    /// answered with `pages`. The answers to deletions are not looked at.
    pub open spec fn step(self, pages: Seq<Option<PageModel>>) -> RenewalModel {
        match self.stage {
            Stage::Deleting => RenewalModel { stage: Stage::Fetching, ..self },
            Stage::Fetching => {
                let fetcher = self.fetcher.step(pages);
                match fetcher.phase {
                    Phase::Complete => RenewalModel {
                        stage: Stage::Replaced,
                        library: LibraryModel::renewed(fetcher.items),
                        read_order: Seq::empty(),
                        fetcher,
                        ..self
                    },
                    Phase::Failed => RenewalModel { stage: Stage::Aborted, fetcher, ..self },
                    _ => RenewalModel { fetcher, ..self },
                }
            },
            Stage::Replaced => self,
            Stage::Aborted => self,
        }
    }

    /// What a state asks of the user.
    pub open spec fn asks(self, action: RenewAction) -> bool {
        match self.stage {
            Stage::Deleting => action matches RenewAction::Delete(requests) && request_models(
                requests@,
            ) == self.configuration.action_requests(
                self.access_token,
                Action::Delete,
                self.read_order,
            ),
            Stage::Fetching => action matches RenewAction::Fetch(requests) && request_models(
                requests@,
            ) == page_requests(self.configuration, self.access_token, self.fetcher.offsets()),
            Stage::Replaced => action is Save,
            Stage::Aborted => action is Abort,
        }
    }
}

/// One renewal.
#[derive(Debug)]
pub struct Renewal {
    api: API,
    access_token: String,
    stage: Stage,
    library: Library,
    fetcher: Fetcher,
}

impl View for Renewal {
    type V = RenewalModel;

    closed spec fn view(&self) -> RenewalModel {
        RenewalModel {
            configuration: self.api@,
            access_token: self.access_token@,
            stage: self.stage,
            library: self.library@,
            read_order: self.library.read_order(),
            fetcher: self.fetcher@,
        }
    }
}

impl Renewal {
    fn fetch(&self) -> (action: RenewAction)
        ensures
            action matches RenewAction::Fetch(requests) && request_models(requests@)
                == page_requests(self@.configuration, self@.access_token, self@.fetcher.offsets()),
    {
        let offsets = self.fetcher.awaited();
        let requests = self.api.page_requests(self.access_token.as_str(), &offsets);
        assert(request_models(requests@) =~= page_requests(
            self@.configuration,
            self@.access_token,
            self@.fetcher.offsets(),
        ));
        RenewAction::Fetch(requests)
    }

    /// Begins the renewal of `library`. Where the library has read articles,
    /// the first action is their deletion, in chunks; where it has none, the
    /// request of the first page.
    pub fn begin(api: API, access_token: String, library: Library) -> (start: (
        Renewal,
        RenewAction,
    ))
        ensures
            start.0@ == RenewalModel::initial(
                api@,
                access_token@,
                library@,
                library.read_order(),
            ),
            start.0@.asks(start.1),
            library.read_order().no_duplicates(),
            library.read_order().to_set() == library@.read.dom(),
    {
        let read = library.read_articles();
        let requests = api.delete(access_token.as_str(), &read);
        let nothing_read = read.len() == 0;
        let (fetcher, _) = Fetcher::begin();
        if nothing_read {
            let renewal = Renewal { api, access_token, stage: Stage::Fetching, library, fetcher };
            let action = renewal.fetch();
            (renewal, action)
        } else {
            let renewal = Renewal { api, access_token, stage: Stage::Deleting, library, fetcher };
            (renewal, RenewAction::Delete(requests))
        }
    }

    /// Where the renewal stands.
    pub fn stage(&self) -> (stage: Stage)
        ensures
            stage == self@.stage,
    {
        self.stage
    }

    /// The library of the renewal: the one it began with until it is
    /// replaced.
    pub fn library(&self) -> (library: &Library)
        ensures
            library@ == self@.library,
    {
        &self.library
    }

    /// Ends the renewal and hands out its library.
    pub fn into_library(self) -> (library: Library)
        ensures
            library@ == self@.library,
    {
        self.library
    }

    /// Takes the bodies of the answers to the requests of the last action, in
    /// the order of the requests, and says what to do next. `None` stands for
    /// an answer without a body: a request that failed or was refused.
    pub fn step(&mut self, bodies: &Vec<Option<String>>) -> (action: RenewAction)
        ensures
            final(self)@ == old(self)@.step(body_pages(bodies@)),
            final(self)@.asks(action),
    {
        match self.stage {
            Stage::Deleting => {
                self.stage = Stage::Fetching;
                self.fetch()
            },
            Stage::Fetching => {
                match self.fetcher.receive_bodies(bodies) {
                    FetchAction::Request(_) => self.fetch(),
                    FetchAction::Complete => {
                        self.library.renew(Some(self.fetcher.items()));
                        self.stage = Stage::Replaced;
                        RenewAction::Save
                    },
                    FetchAction::Failed => {
                        self.stage = Stage::Aborted;
                        RenewAction::Abort
                    },
                }
            },
            Stage::Replaced => RenewAction::Save,
            Stage::Aborted => RenewAction::Abort,
        }
    }
}

/// A renewal replaces the library only by a complete fetched set: whatever
/// is answered, a step either leaves the library as it is or ends the fetch
/// and puts the fetched set in its place, with nothing read.
pub proof fn lemma_step_library(renewal: RenewalModel, pages: Seq<Option<PageModel>>)
    ensures
        ({
            let after = renewal.step(pages);
            if renewal.stage == Stage::Fetching && after.stage == Stage::Replaced {
                &&& after.fetcher.phase == Phase::Complete
                &&& after.library == LibraryModel::renewed(after.fetcher.items)
                &&& after.library.read == Map::<Seq<char>, crate::article::ArticleModel>::empty()
            } else {
                after.library == renewal.library
            }
        }),
        renewal.step(pages).stage == Stage::Aborted ==> renewal.step(pages).library
            == renewal.library,
{
}

} // verus!
