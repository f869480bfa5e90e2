use pickpocket::api::{Action, Configuration, Request, API, MAX_ACTIONS_PER_REQUEST};
use pickpocket::article::Article;
use pickpocket::fetcher::{FetchAction, Phase};
use pickpocket::json::Json;

fn pair(name: &str, value: &str) -> (String, String) {
    (name.to_string(), value.to_string())
}

fn articles(count: usize) -> Vec<Article> {
    let mut list = Vec::new();
    for id in 0..count {
        list.push(Article {
            id: format!("{}", id),
            url: format!("https://example.com/{}", id),
            title: format!("Article {}", id),
        });
    }
    list
}

fn keyed() -> API {
    API::with_configuration(Configuration::with_consumer_key("key-1".to_string()))
}

/// The ids that the actions of a request name, in order.
fn action_ids(request: &Request, action: &str) -> Vec<String> {
    assert_eq!(request.form.len(), 3);
    assert_eq!(request.form[2].0, "actions");
    let actions = match Json::parse(&request.form[2].1) {
        Some(Json::Array(actions)) => actions,
        _ => panic!("the actions are no array"),
    };
    let mut ids = Vec::new();
    for entry in &actions {
        assert_eq!(entry.member("action"), Some(&Json::Text(action.to_string())));
        match entry.member("item_id") {
            Some(Json::Text(id)) => ids.push(id.clone()),
            _ => panic!("an action names no article"),
        }
    }
    ids
}

#[test]
fn the_usual_configuration_names_the_service() {
    let configuration = Configuration::default();
    assert_eq!(configuration.consumer_key, "");
    assert_eq!(configuration.pocket_homepage, "https://getpocket.com");
    assert_eq!(configuration.pocket_oauth_request_url, "https://getpocket.com/v3/oauth/request");
    assert_eq!(configuration.pocket_oauth_authorize_url, "https://getpocket.com/v3/oauth/authorize");
    assert_eq!(configuration.pocket_user_authorize_url, "https://getpocket.com/auth/authorize");
    assert_eq!(configuration.pocket_retrieve_url, "https://getpocket.com/v3/get");
    assert_eq!(configuration.pocket_send_url, "https://getpocket.com/v3/send");
    assert_eq!(API::new().configuration(), &configuration);
    assert_eq!(configuration.clone(), configuration);
}

#[test]
fn a_configuration_takes_the_key_of_the_application() {
    let configuration = Configuration::with_consumer_key("key-1".to_string());
    assert_eq!(configuration.consumer_key, "key-1");
    assert_eq!(configuration.pocket_retrieve_url, "https://getpocket.com/v3/get");
    assert_eq!(keyed().configuration(), &configuration);
}

#[test]
fn a_page_request_carries_the_six_fields() {
    let request = keyed().page_request("token-1", 60);
    assert_eq!(request.url, "https://getpocket.com/v3/get");
    assert_eq!(
        request.form,
        vec![
            pair("consumer_key", "key-1"),
            pair("access_token", "token-1"),
            pair("state", "unread"),
            pair("count", "30"),
            pair("offset", "60"),
            pair("detailType", "simple"),
        ]
    );
}

#[test]
fn page_requests_follow_the_offsets() {
    let requests = keyed().page_requests("token-1", &vec![0, 30, 1500]);
    assert_eq!(requests.len(), 3);
    assert_eq!(requests[0], keyed().page_request("token-1", 0));
    assert_eq!(requests[1].form[4], pair("offset", "30"));
    assert_eq!(requests[2].form[4], pair("offset", "1500"));
}

#[test]
fn retrieve_starts_a_fetch_at_offset_zero() {
    let (fetcher, action) = keyed().retrieve();
    assert_eq!(fetcher.phase(), Phase::First);
    assert_eq!(action, FetchAction::Request(vec![0]));
}

#[test]
fn a_request_carries_at_most_a_hundred_actions() {
    assert_eq!(MAX_ACTIONS_PER_REQUEST, 100);
}

#[test]
fn two_hundred_and_fifty_articles_take_three_requests() {
    let list = articles(250);
    let references: Vec<&Article> = list.iter().collect();
    let requests = keyed().delete("token-1", &references);
    assert_eq!(requests.len(), 3);
    let first = action_ids(&requests[0], "delete");
    let second = action_ids(&requests[1], "delete");
    let third = action_ids(&requests[2], "delete");
    assert_eq!(first.len(), 100);
    assert_eq!(second.len(), 100);
    assert_eq!(third.len(), 50);
    let mut all = first;
    all.extend(second);
    all.extend(third);
    let expected: Vec<String> = list.iter().map(|a| a.id.clone()).collect();
    assert_eq!(all, expected);
}

#[test]
fn no_articles_take_no_request() {
    let references: Vec<&Article> = Vec::new();
    assert!(keyed().delete("token-1", &references).is_empty());
    assert!(keyed().archive("token-1", &references).is_empty());
}

#[test]
fn the_last_chunk_holds_what_is_left() {
    for (count, sizes) in [
        (1usize, vec![1usize]),
        (99, vec![99]),
        (100, vec![100]),
        (101, vec![100, 1]),
        (200, vec![100, 100]),
    ] {
        let list = articles(count);
        let references: Vec<&Article> = list.iter().collect();
        let requests = keyed().archive("token-1", &references);
        let found: Vec<usize> =
            requests.iter().map(|r| action_ids(r, "archive").len()).collect();
        assert_eq!(found, sizes);
    }
}

#[test]
fn an_action_request_is_written_as_json() {
    let list = articles(2);
    let references: Vec<&Article> = list.iter().collect();
    let requests = keyed().delete("token-1", &references);
    assert_eq!(requests.len(), 1);
    assert_eq!(requests[0].url, "https://getpocket.com/v3/send");
    assert_eq!(
        requests[0].form,
        vec![
            pair("consumer_key", "key-1"),
            pair("access_token", "token-1"),
            pair(
                "actions",
                "[{\"action\":\"delete\",\"item_id\":\"0\"},{\"action\":\"delete\",\"item_id\":\"1\"}]"
            ),
        ]
    );
}

#[test]
fn archive_names_the_archive_action() {
    let list = articles(1);
    let references: Vec<&Article> = list.iter().collect();
    let requests = keyed().archive("token-1", &references);
    assert_eq!(requests[0].form[2], pair("actions", "[{\"action\":\"archive\",\"item_id\":\"0\"}]"));
    assert_eq!(requests, keyed().action_requests("token-1", Action::Archive, &references));
}

#[test]
fn an_id_is_escaped_in_the_actions() {
    let odd = Article { id: "a\"b\\c".to_string(), url: String::new(), title: String::new() };
    let references = vec![&odd];
    let requests = keyed().delete("token-1", &references);
    assert_eq!(
        requests[0].form[2].1,
        "[{\"action\":\"delete\",\"item_id\":\"a\\\"b\\\\c\"}]"
    );
    assert_eq!(action_ids(&requests[0], "delete"), vec!["a\"b\\c".to_string()]);
}

#[test]
fn the_actions_have_their_names() {
    assert_eq!(Action::Archive.as_str(), "archive");
    assert_eq!(Action::Delete.as_str(), "delete");
}
