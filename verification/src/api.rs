//! The requests of the remote service: the pages of the unread list and the
//! bulk actions on articles.
//!
//! Nothing here sends anything. A [`Request`] says what to post where; its
//! user posts it, form-encoded, and hands the answer to the fetcher.

use crate::article::{ids_of, Article};
use crate::fetcher::{FetchAction, Fetcher, FetcherModel, PAGE_SIZE};
use crate::text::{decimal, decimal_text, field, pairs};
use vstd::prelude::*;

verus! {

/// The largest number of actions that one request carries.
pub const MAX_ACTIONS_PER_REQUEST: usize = 100;

/// The addresses of the remote service and the key of the application.
#[derive(Debug, PartialEq, Eq)]
pub struct Configuration {
    pub consumer_key: String,
    pub pocket_homepage: String,
    pub pocket_oauth_authorize_url: String,
    pub pocket_oauth_request_url: String,
    pub pocket_retrieve_url: String,
    pub pocket_send_url: String,
    pub pocket_user_authorize_url: String,
}

/// The mathematical value of a [`Configuration`].
pub struct ConfigurationModel {
    pub consumer_key: Seq<char>,
    pub pocket_homepage: Seq<char>,
    pub pocket_oauth_authorize_url: Seq<char>,
    pub pocket_oauth_request_url: Seq<char>,
    pub pocket_retrieve_url: Seq<char>,
    pub pocket_send_url: Seq<char>,
    pub pocket_user_authorize_url: Seq<char>,
}

impl View for Configuration {
    type V = ConfigurationModel;

    open spec fn view(&self) -> ConfigurationModel {
        ConfigurationModel {
            consumer_key: self.consumer_key@,
            pocket_homepage: self.pocket_homepage@,
            pocket_oauth_authorize_url: self.pocket_oauth_authorize_url@,
            pocket_oauth_request_url: self.pocket_oauth_request_url@,
            pocket_retrieve_url: self.pocket_retrieve_url@,
            pocket_send_url: self.pocket_send_url@,
            pocket_user_authorize_url: self.pocket_user_authorize_url@,
        }
    }
}

impl ConfigurationModel {
    /// The addresses of the service, with the given key.
    pub open spec fn service(consumer_key: Seq<char>) -> ConfigurationModel {
        ConfigurationModel {
            consumer_key,
            pocket_homepage: "https://getpocket.com"@,
            pocket_oauth_authorize_url: "https://getpocket.com/v3/oauth/authorize"@,
            pocket_oauth_request_url: "https://getpocket.com/v3/oauth/request"@,
            pocket_retrieve_url: "https://getpocket.com/v3/get"@,
            pocket_send_url: "https://getpocket.com/v3/send"@,
            pocket_user_authorize_url: "https://getpocket.com/auth/authorize"@,
        }
    }
}

impl Configuration {
    /// The addresses of the service, with the given key.
    pub fn with_consumer_key(consumer_key: String) -> (configuration: Configuration)
        ensures
            configuration@ == ConfigurationModel::service(consumer_key@),
    {
        Configuration {
            consumer_key,
            pocket_homepage: "https://getpocket.com".to_owned(),
            pocket_oauth_authorize_url: "https://getpocket.com/v3/oauth/authorize".to_owned(),
            pocket_oauth_request_url: "https://getpocket.com/v3/oauth/request".to_owned(),
            pocket_retrieve_url: "https://getpocket.com/v3/get".to_owned(),
            pocket_send_url: "https://getpocket.com/v3/send".to_owned(),
            pocket_user_authorize_url: "https://getpocket.com/auth/authorize".to_owned(),
        }
    }
}

impl Default for Configuration {
    /// The addresses of the service, with an empty key.
    fn default() -> (configuration: Configuration)
        ensures
            configuration@ == ConfigurationModel::service(Seq::empty()),
    {
        Configuration::with_consumer_key(String::new())
    }
}

impl Clone for Configuration {
    fn clone(&self) -> (copy: Configuration)
        ensures
            copy@ == self@,
    {
        Configuration {
            consumer_key: self.consumer_key.clone(),
            pocket_homepage: self.pocket_homepage.clone(),
            pocket_oauth_authorize_url: self.pocket_oauth_authorize_url.clone(),
            pocket_oauth_request_url: self.pocket_oauth_request_url.clone(),
            pocket_retrieve_url: self.pocket_retrieve_url.clone(),
            pocket_send_url: self.pocket_send_url.clone(),
            pocket_user_authorize_url: self.pocket_user_authorize_url.clone(),
        }
    }
}

/// A form to post: the address and the fields, in order.
#[derive(Debug, PartialEq, Eq)]
pub struct Request {
    pub url: String,
    pub form: Vec<(String, String)>,
}

/// The mathematical value of a [`Request`].
pub struct RequestModel {
    pub url: Seq<char>,
    pub form: Seq<(Seq<char>, Seq<char>)>,
}

impl View for Request {
    type V = RequestModel;

    open spec fn view(&self) -> RequestModel {
        RequestModel { url: self.url@, form: pairs(self.form@) }
    }
}

/// The views of a list of requests, in order.
pub open spec fn request_models(requests: Seq<Request>) -> Seq<RequestModel> {
    Seq::new(requests.len(), |i: int| requests[i]@)
}

/// What a bulk action does to an article.
#[derive(Debug, Clone, Copy, PartialEq, Eq, Structural)]
pub enum Action {
    Archive,
    Delete,
}

impl Action {
    /// The name of the action in a request.
    pub open spec fn name(self) -> Seq<char> {
        match self {
            Action::Archive => "archive"@,
            Action::Delete => "delete"@,
        }
    }

    /// The name of the action in a request.
    pub fn as_str(&self) -> (name: &'static str)
        ensures
            name@ == self.name(),
    {
        match self {
            Action::Archive => "archive",
            Action::Delete => "delete",
        }
    }
}

/// The text that `serde_json` writes for an array of objects whose members
/// are strings: one object for each record, one member for each pair.
pub uninterp spec fn json_records_text(records: Seq<Seq<(Seq<char>, Seq<char>)>>) -> Seq<char>;

/// The views of a list of records, in order.
pub open spec fn record_models(records: Seq<Vec<(String, String)>>) -> Seq<
    Seq<(Seq<char>, Seq<char>)>,
> {
    Seq::new(records.len(), |i: int| pairs(records[i]@))
}

/// Builds a `serde_json::Value`, an array with one object of strings for
/// each record, and writes it with `to_string`. Trusted: the text depends on
/// the records alone.
#[verifier::external_body]
fn records_text(records: &Vec<Vec<(String, String)>>) -> (text: String)
    ensures
        text@ == json_records_text(record_models(records@)),
{
    let rows = records.iter().map(
        |r| serde_json::Value::Object(
            r.iter().map(|(k, v)| (k.clone(), serde_json::Value::String(v.clone()))).collect(),
        ),
    ).collect();
    serde_json::Value::Array(rows).to_string()
}

/// The number of requests that `count` actions take.
pub open spec fn chunk_count(count: nat) -> nat {
    (count + MAX_ACTIONS_PER_REQUEST - 1) as nat / (MAX_ACTIONS_PER_REQUEST as nat)
}

/// The `k`-th chunk of a list: its items from `k * MAX_ACTIONS_PER_REQUEST`
/// on, as many as one request carries or as are left.
pub open spec fn chunk<T>(list: Seq<T>, k: int) -> Seq<T> {
    let start = k * MAX_ACTIONS_PER_REQUEST;
    let end = if start + MAX_ACTIONS_PER_REQUEST <= list.len() {
        start + MAX_ACTIONS_PER_REQUEST
    } else {
        list.len() as int
    };
    list.subrange(start, end)
}

/// The records of an action on the articles `ids`: for each the name of the
/// action and the id.
pub open spec fn action_records(action: Action, ids: Seq<Seq<char>>) -> Seq<
    Seq<(Seq<char>, Seq<char>)>,
> {
    Seq::new(ids.len(), |i: int| seq![("action"@, action.name()), ("item_id"@, ids[i])])
}

impl ConfigurationModel {
    /// The request for the page of the unread list at `offset`.
    pub open spec fn page_request(self, access_token: Seq<char>, offset: nat) -> RequestModel {
        RequestModel {
            url: self.pocket_retrieve_url,
            form: seq![
                ("consumer_key"@, self.consumer_key),
                ("access_token"@, access_token),
                ("state"@, "unread"@),
                ("count"@, decimal_text(PAGE_SIZE as nat)),
                ("offset"@, decimal_text(offset)),
                ("detailType"@, "simple"@),
            ],
        }
    }

    /// The request that applies `action` to the articles `ids`.
    pub open spec fn action_request(
        self,
        access_token: Seq<char>,
        action: Action,
        ids: Seq<Seq<char>>,
    ) -> RequestModel {
        RequestModel {
            url: self.pocket_send_url,
            form: seq![
                ("consumer_key"@, self.consumer_key),
                ("access_token"@, access_token),
                ("actions"@, json_records_text(action_records(action, ids))),
            ],
        }
    }

    /// The requests that apply `action` to the articles `ids`, chunk by
    /// chunk.
    pub open spec fn action_requests(
        self,
        access_token: Seq<char>,
        action: Action,
        ids: Seq<Seq<char>>,
    ) -> Seq<RequestModel> {
        Seq::new(
            chunk_count(ids.len()),
            |k: int| self.action_request(access_token, action, chunk(ids, k)),
        )
    }
}

/// The remote service, as the application sees it.
#[derive(Debug)]
pub struct API {
    configuration: Configuration,
}

impl View for API {
    type V = ConfigurationModel;

    closed spec fn view(&self) -> ConfigurationModel {
        self.configuration@
    }
}

impl API {
    /// The service at its usual addresses, with an empty key.
    pub fn new() -> (api: API)
        ensures
            api@ == ConfigurationModel::service(Seq::empty()),
    {
        API { configuration: Configuration::default() }
    }

    /// The service as `configuration` describes it.
    pub fn with_configuration(configuration: Configuration) -> (api: API)
        ensures
            api@ == configuration@,
    {
        API { configuration }
    }

    /// The configuration in use.
    pub fn configuration(&self) -> (configuration: &Configuration)
        ensures
            configuration@ == self@,
    {
        &self.configuration
    }

    /// Starts the retrieval of the unread list: the state of the fetch and
    /// its first step, the request of the page at offset 0.
    pub fn retrieve(&self) -> (start: (Fetcher, FetchAction))
        ensures
            start.0@ == FetcherModel::initial(),
            start.0@.asks(start.1),
    {
        Fetcher::begin()
    }

    /// The request for the page of the unread list at `offset`.
    pub fn page_request(&self, access_token: &str, offset: usize) -> (request: Request)
        ensures
            request@ == self@.page_request(access_token@, offset as nat),
    {
        let mut form: Vec<(String, String)> = Vec::new();
        form.push(field("consumer_key", self.configuration.consumer_key.as_str()));
        form.push(field("access_token", access_token));
        form.push(field("state", "unread"));
        form.push(field("count", decimal(PAGE_SIZE).as_str()));
        form.push(field("offset", decimal(offset).as_str()));
        form.push(field("detailType", "simple"));
        let request = Request { url: self.configuration.pocket_retrieve_url.clone(), form };
        assert(request@.form =~= self@.page_request(access_token@, offset as nat).form);
        request
    }

    /// The requests for the pages at `offsets`, in order.
    pub fn page_requests(&self, access_token: &str, offsets: &Vec<usize>) -> (requests: Vec<
        Request,
    >)
        ensures
            requests@.len() == offsets@.len(),
            forall|i: int|
                0 <= i < offsets@.len() ==> (#[trigger] requests@[i])@ == self@.page_request(
                    access_token@,
                    offsets@[i] as nat,
                ),
    {
        let mut requests: Vec<Request> = Vec::new();
        let mut i: usize = 0;
        while i < offsets.len()
            invariant
                i <= offsets@.len(),
                requests@.len() == i,
                forall|k: int|
                    0 <= k < i ==> (#[trigger] requests@[k])@ == self@.page_request(
                        access_token@,
                        offsets@[k] as nat,
                    ),
            decreases offsets@.len() - i,
        {
            requests.push(self.page_request(access_token, offsets[i]));
            i += 1;
        }
        requests
    }

    fn action_request(
        &self,
        access_token: &str,
        action: Action,
        articles: &Vec<&Article>,
        start: usize,
        end: usize,
    ) -> (request: Request)
        requires
            start <= end <= articles@.len(),
        ensures
            request@ == self@.action_request(
                access_token@,
                action,
                ids_of(articles@).subrange(start as int, end as int),
            ),
    {
        let ghost ids = ids_of(articles@).subrange(start as int, end as int);
        let mut records: Vec<Vec<(String, String)>> = Vec::new();
        let mut i: usize = start;
        while i < end
            invariant
                start <= i <= end <= articles@.len(),
                records@.len() == i - start,
                ids == ids_of(articles@).subrange(start as int, end as int),
                forall|k: int|
                    0 <= k < records@.len() ==> pairs((#[trigger] records@[k])@)
                        == action_records(action, ids)[k],
            decreases end - i,
        {
            let mut record: Vec<(String, String)> = Vec::new();
            record.push(field("action", action.as_str()));
            record.push(field("item_id", articles[i].id.as_str()));
            records.push(record);
            i += 1;
        }
        assert(record_models(records@) =~= action_records(action, ids));
        let text = records_text(&records);
        let mut form: Vec<(String, String)> = Vec::new();
        form.push(field("consumer_key", self.configuration.consumer_key.as_str()));
        form.push(field("access_token", access_token));
        form.push(field("actions", text.as_str()));
        let request = Request { url: self.configuration.pocket_send_url.clone(), form };
        assert(request@.form =~= self@.action_request(access_token@, action, ids).form);
        request
    }

    /// The requests that apply `action` to `articles`: one for each chunk of
    /// at most `MAX_ACTIONS_PER_REQUEST` articles, in order; none for no
    /// articles.
    pub fn action_requests(
        &self,
        access_token: &str,
        action: Action,
        articles: &Vec<&Article>,
    ) -> (requests: Vec<Request>)
        ensures
            request_models(requests@) == self@.action_requests(
                access_token@,
                action,
                ids_of(articles@),
            ),
    {
        let count = articles.len();
        let chunks = count / MAX_ACTIONS_PER_REQUEST + if count % MAX_ACTIONS_PER_REQUEST == 0 {
            0
        } else {
            1
        };
        let ghost ids = ids_of(articles@);
        let mut requests: Vec<Request> = Vec::new();
        let mut k: usize = 0;
        while k < chunks
            invariant
                k <= chunks,
                count == articles@.len(),
                chunks == chunk_count(count as nat),
                ids == ids_of(articles@),
                requests@.len() == k,
                forall|j: int|
                    0 <= j < k ==> (#[trigger] requests@[j])@ == self@.action_request(
                        access_token@,
                        action,
                        chunk(ids, j),
                    ),
            decreases chunks - k,
        {
            let start = k * MAX_ACTIONS_PER_REQUEST;
            let end = if count - start >= MAX_ACTIONS_PER_REQUEST {
                start + MAX_ACTIONS_PER_REQUEST
            } else {
                count
            };
            requests.push(self.action_request(access_token, action, articles, start, end));
            k += 1;
        }
        requests
    }

    /// The requests that archive `articles`.
    pub fn archive(&self, access_token: &str, articles: &Vec<&Article>) -> (requests: Vec<Request>)
        ensures
            request_models(requests@) == self@.action_requests(
                access_token@,
                Action::Archive,
                ids_of(articles@),
            ),
    {
        self.action_requests(access_token, Action::Archive, articles)
    }

    /// The requests that delete `articles`.
    pub fn delete(&self, access_token: &str, articles: &Vec<&Article>) -> (requests: Vec<Request>)
        ensures
            request_models(requests@) == self@.action_requests(
                access_token@,
                Action::Delete,
                ids_of(articles@),
            ),
    {
        self.action_requests(access_token, Action::Delete, articles)
    }
}

/// The chunks cut a list into consecutive pieces: every chunk but the last
/// is full, the last one is not empty, and every item of the list is in the
/// chunk and at the place that its position gives. No articles take no
/// request.
pub proof fn lemma_chunks<T>(list: Seq<T>)
    ensures
        chunk_count(list.len()) == 0 <==> list.len() == 0,
        forall|k: int|
            0 <= k < chunk_count(list.len()) ==> 0 < (#[trigger] chunk(list, k)).len()
                <= MAX_ACTIONS_PER_REQUEST,
        forall|k: int|
            0 <= k < chunk_count(list.len()) - 1 ==> (#[trigger] chunk(list, k)).len()
                == MAX_ACTIONS_PER_REQUEST,
        forall|i: int|
            0 <= i < list.len() ==> i / (MAX_ACTIONS_PER_REQUEST as int) < chunk_count(list.len())
                && chunk(list, i / (MAX_ACTIONS_PER_REQUEST as int))[i % (
                MAX_ACTIONS_PER_REQUEST as int)] == #[trigger] list[i],
{
}

} // verus!
