//! The two steps by which the user lets the application use the account:
//! what to post, how to read the answer, and where to send the user.
//!
//! Nothing here sends anything or opens a browser.

use crate::api::{Configuration, ConfigurationModel, Request, RequestModel};
use crate::text::field;
use vstd::prelude::*;
use vstd::utf8::encode_utf8;

verus! {

/// `url::Url`, a parsed address.
#[verifier::external_type_specification]
#[verifier::external_body]
pub struct ExUrl(url::Url);

/// `url::ParseError`, the reason why an address was refused.
#[verifier::external_type_specification]
#[verifier::external_body]
pub struct ExParseError(url::ParseError);

/// The text that a `url::Url` holds: what it is written out as.
pub uninterp spec fn url_text(url: url::Url) -> Seq<char>;

/// The text of the address that `url::Url::parse` reads from `text`, or
/// `None` where it refuses the text.
pub uninterp spec fn parsed_url(text: Seq<char>) -> Option<Seq<char>>;

/// The text of an address after `url::Url::set_query` gave it the query
/// `query`.
pub uninterp spec fn url_with_query(url: Seq<char>, query: Seq<char>) -> Seq<char>;

/// The first name and value that `url::form_urlencoded::parse` finds in a
/// form-encoded text, or `None` where it finds none.
pub uninterp spec fn first_form_pair(text: Seq<char>) -> Option<(Seq<char>, Seq<char>)>;

/// Calls `url::Url::parse`. Trusted: whether the text is accepted and what
/// the address then holds depend on the text alone.
#[verifier::external_body]
fn parse_url(text: &str) -> (parsed: Result<url::Url, url::ParseError>)
    ensures
        parsed is Ok <==> parsed_url(text@) is Some,
        parsed matches Ok(url) ==> parsed_url(text@) == Some(url_text(url)),
{
    url::Url::parse(text)
}

/// Calls `url::Url::set_query` with a query. Required: the address and the
/// query, each byte of which may be written as three, stay within the
/// 32-bit positions that the call unwraps. Trusted: the address then holds a
/// text that depends on its former text and the query alone.
#[verifier::external_body]
fn set_query(url: &mut url::Url, query: &str)
    requires
        encode_utf8(url_text(*old(url))).len() + 3 * encode_utf8(query@).len() + 1 <= u32::MAX,
    ensures
        url_text(*final(url)) == url_with_query(url_text(*old(url)), query@),
{
    url.set_query(Some(query))
}

/// Writes an address out with `to_string`. Trusted: the result is the text
/// that the address holds.
#[verifier::external_body]
fn url_string(url: &url::Url) -> (text: String)
    ensures
        text@ == url_text(*url),
{
    url.to_string()
}

/// Takes the first pair that `url::form_urlencoded::parse` yields for the
/// bytes of `text`. Trusted: the pair depends on the text alone.
#[verifier::external_body]
fn first_pair(text: &str) -> (pair: Option<(String, String)>)
    ensures
        pair is Some <==> first_form_pair(text@) is Some,
        pair matches Some(p) ==> first_form_pair(text@) == Some((p.0@, p.1@)),
{
    url::form_urlencoded::parse(text.as_bytes()).into_owned().next()
}

/// The token that an answer of the service carries: the value of its first
/// pair. `None` where the answer has no pair, and where the value is the
/// word "Error", which stands for a failure.
pub open spec fn token_of(pair: Option<(Seq<char>, Seq<char>)>) -> Option<Seq<char>> {
    match pair {
        Some(p) => if p.1 == "Error"@ {
            None
        } else {
            Some(p.1)
        },
        None => None,
    }
}

/// The query of the address at which the user allows the application.
pub open spec fn authorization_query(request_token: Seq<char>, homepage: Seq<char>) -> Seq<char> {
    "request_token="@ + request_token + "&redirect_uri="@ + homepage
}

/// The address and the query can be put together.
pub open spec fn query_fits(url: Seq<char>, query: Seq<char>) -> bool {
    encode_utf8(url).len() + 3 * encode_utf8(query).len() + 1 <= u32::MAX
}

impl ConfigurationModel {
    /// The request of the first step: for a request token.
    pub open spec fn token_request(self) -> RequestModel {
        RequestModel {
            url: self.pocket_oauth_request_url,
            form: seq![
                ("consumer_key"@, self.consumer_key),
                ("redirect_uri"@, self.pocket_homepage),
            ],
        }
    }

    /// The request of the second step: for an access token.
    pub open spec fn access_request(self, request_token: Seq<char>) -> RequestModel {
        RequestModel {
            url: self.pocket_oauth_authorize_url,
            form: seq![("consumer_key"@, self.consumer_key), ("code"@, request_token)],
        }
    }

    /// The address at which the user allows the application, where it can be
    /// made.
    pub open spec fn user_authorization_url(self, request_token: Seq<char>) -> Option<Seq<char>> {
        let query = authorization_query(request_token, self.pocket_homepage);
        match parsed_url(self.pocket_user_authorize_url) {
            Some(url) => if query_fits(url, query) {
                Some(url_with_query(url, query))
            } else {
                None
            },
            None => None,
        }
    }
}

/// The steps of the authorization.
#[derive(Debug)]
pub struct OAuth {}

impl OAuth {
    /// The request of the first step, which asks the service for a request
    /// token.
    pub fn request_authorization(configuration: &Configuration) -> (request: Request)
        ensures
            request@ == configuration@.token_request(),
    {
        let mut form: Vec<(String, String)> = Vec::new();
        form.push(field("consumer_key", configuration.consumer_key.as_str()));
        form.push(field("redirect_uri", configuration.pocket_homepage.as_str()));
        let request = Request { url: configuration.pocket_oauth_request_url.clone(), form };
        assert(request@.form =~= configuration@.token_request().form);
        request
    }

    /// The request of the second step, which trades the request token for an
    /// access token.
    pub fn authorize(configuration: &Configuration, request_token: &str) -> (request: Request)
        ensures
            request@ == configuration@.access_request(request_token@),
    {
        let mut form: Vec<(String, String)> = Vec::new();
        form.push(field("consumer_key", configuration.consumer_key.as_str()));
        form.push(field("code", request_token));
        let request = Request { url: configuration.pocket_oauth_authorize_url.clone(), form };
        assert(request@.form =~= configuration@.access_request(request_token@).form);
        request
    }

    /// The token that a pair stands for.
    pub fn token_from_pair(pair: Option<(String, String)>) -> (token: Option<String>)
        ensures
            token is Some <==> token_of(optional_pair(pair)) is Some,
            token matches Some(t) ==> token_of(optional_pair(pair)) == Some(t@),
    {
        match pair {
            Some(p) => {
                let failure = "Error".to_owned();
                if p.1 == failure {
                    None
                } else {
                    Some(p.1)
                }
            },
            None => None,
        }
    }

    /// The token that the body of an answer of either step carries.
    pub fn token(body: &str) -> (token: Option<String>)
        ensures
            token is Some <==> token_of(first_form_pair(body@)) is Some,
            token matches Some(t) ==> token_of(first_form_pair(body@)) == Some(t@),
    {
        OAuth::token_from_pair(first_pair(body))
    }

    /// The address to open in a browser, at which the user allows the
    /// application. `None` where the configured address is no address, or
    /// where address and query are too long to be put together.
    pub fn user_authorization_url(configuration: &Configuration, request_token: &str) -> (address:
        Option<String>)
        ensures
            address is Some <==> configuration@.user_authorization_url(request_token@) is Some,
            address matches Some(a) ==> configuration@.user_authorization_url(request_token@)
                == Some(a@),
    {
        let mut query = "request_token=".to_owned();
        query.append(request_token);
        query.append("&redirect_uri=");
        query.append(configuration.pocket_homepage.as_str());
        let mut url = match parse_url(configuration.pocket_user_authorize_url.as_str()) {
            Ok(url) => url,
            Err(_) => {
                return None;
            },
        };
        let text = url_string(&url);
        let limit: usize = 0xffff_ffff;
        let room: usize = (limit - 1) / 3;
        let query_length = query.as_str().as_bytes().len();
        let url_length = text.as_str().as_bytes().len();
        if query_length > room || url_length > limit - 1 - 3 * query_length {
            return None;
        }
        set_query(&mut url, query.as_str());
        Some(url_string(&url))
    }
}

/// The views of an optional pair of strings.
pub open spec fn optional_pair(pair: Option<(String, String)>) -> Option<(Seq<char>, Seq<char>)> {
    match pair {
        Some(p) => Some((p.0@, p.1@)),
        None => None,
    }
}

} // verus!
