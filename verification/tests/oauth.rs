use pickpocket::api::Configuration;
use pickpocket::oauth::OAuth;

fn pair(name: &str, value: &str) -> (String, String) {
    (name.to_string(), value.to_string())
}

fn configuration() -> Configuration {
    Configuration::with_consumer_key("key-1".to_string())
}

#[test]
fn the_first_step_asks_for_a_request_token() {
    let request = OAuth::request_authorization(&configuration());
    assert_eq!(request.url, "https://getpocket.com/v3/oauth/request");
    assert_eq!(
        request.form,
        vec![pair("consumer_key", "key-1"), pair("redirect_uri", "https://getpocket.com")]
    );
}

#[test]
fn the_second_step_trades_the_request_token() {
    let request = OAuth::authorize(&configuration(), "request-1");
    assert_eq!(request.url, "https://getpocket.com/v3/oauth/authorize");
    assert_eq!(request.form, vec![pair("consumer_key", "key-1"), pair("code", "request-1")]);
}

#[test]
fn the_token_is_the_value_of_the_first_pair() {
    assert_eq!(OAuth::token("code=abc-123"), Some("abc-123".to_string()));
    assert_eq!(
        OAuth::token("access_token=tok&username=someone"),
        Some("tok".to_string())
    );
    assert_eq!(OAuth::token("&&code=x"), Some("x".to_string()));
    assert_eq!(OAuth::token("lonely"), Some("".to_string()));
}

#[test]
fn the_token_is_decoded() {
    assert_eq!(OAuth::token("code=a%20b+c%3D"), Some("a b c=".to_string()));
}

#[test]
fn an_answer_without_a_pair_carries_no_token() {
    assert_eq!(OAuth::token(""), None);
    assert_eq!(OAuth::token("&&&"), None);
}

#[test]
fn the_word_error_is_no_token() {
    assert_eq!(OAuth::token("code=Error"), None);
    assert_eq!(OAuth::token("code=error"), Some("error".to_string()));
    assert_eq!(OAuth::token_from_pair(Some(pair("code", "Error"))), None);
    assert_eq!(OAuth::token_from_pair(Some(pair("Error", "t"))), Some("t".to_string()));
    assert_eq!(OAuth::token_from_pair(None), None);
}

#[test]
fn the_user_is_sent_to_the_service_with_the_request_token() {
    assert_eq!(
        OAuth::user_authorization_url(&configuration(), "request-1"),
        Some(
            "https://getpocket.com/auth/authorize?request_token=request-1&redirect_uri=https://getpocket.com"
                .to_string()
        )
    );
}

#[test]
fn the_query_replaces_one_that_the_address_has() {
    let mut configuration = configuration();
    configuration.pocket_user_authorize_url = "https://example.com/auth?old=1#part".to_string();
    configuration.pocket_homepage = "https://example.com".to_string();
    assert_eq!(
        OAuth::user_authorization_url(&configuration, "a b"),
        Some(
            "https://example.com/auth?request_token=a%20b&redirect_uri=https://example.com#part"
                .to_string()
        )
    );
}

#[test]
fn an_address_that_is_none_gives_no_place_to_send_the_user() {
    let mut configuration = configuration();
    configuration.pocket_user_authorize_url = "not an address".to_string();
    assert_eq!(OAuth::user_authorization_url(&configuration, "request-1"), None);
}
