use dta4hana::error::DtaError;
use dta4hana::login::{complete_login, lookup_field, parse_form_pairs, parse_pair, parse_request_token, split_on_exec};
use dta4hana::twitter_client::{
    access_token_path, authorize_path, destroy_favorite_path, destroy_status_path, expand_date,
    liked_tweets_path, likes_query_params, request_token_path, require_user_cred,
    timeline_query_params, user_lookup_path, user_tweets_path, TwitterAppUserCredential,
};

#[test]
fn split_keeps_order_and_empty_segments() {
    assert_eq!(split_on_exec("a=1&b=2&c=3", '&'), vec!["a=1", "b=2", "c=3"]);
    assert_eq!(split_on_exec("", '&'), vec![""]);
    assert_eq!(split_on_exec("a&&b", '&'), vec!["a", "", "b"]);
    assert_eq!(split_on_exec("&a", '&'), vec!["", "a"]);
}

#[test]
fn pair_parsing_takes_value_between_first_and_second_separator() {
    assert_eq!(parse_pair("a=b"), Some((String::from("a"), String::from("b"))));
    assert_eq!(parse_pair("a=b=c"), Some((String::from("a"), String::from("b"))));
    assert_eq!(parse_pair("a="), Some((String::from("a"), String::from(""))));
    assert_eq!(parse_pair("=b"), Some((String::from(""), String::from("b"))));
    assert_eq!(parse_pair("nopair"), None);
}

#[test]
fn form_pairs_skip_segments_without_separator() {
    let pairs = parse_form_pairs("a=1&junk&b=2");
    assert_eq!(
        pairs,
        vec![
            (String::from("a"), String::from("1")),
            (String::from("b"), String::from("2")),
        ]
    );
}

#[test]
fn lookup_keeps_the_last_value_of_a_repeated_key() {
    let pairs = parse_form_pairs("k=first&x=0&k=second");
    assert_eq!(lookup_field(&pairs, "k"), Some(String::from("second")));
    assert_eq!(lookup_field(&pairs, "x"), Some(String::from("0")));
    assert_eq!(lookup_field(&pairs, "missing"), None);
}

#[test]
fn request_token_is_read_from_response() {
    let r = parse_request_token("oauth_token=tmpA&oauth_token_secret=s&oauth_callback_confirmed=true");
    assert_eq!(r, Ok(String::from("tmpA")));
}

#[test]
fn request_token_missing_field_is_an_exchange_failure() {
    let r = parse_request_token("oauth_callback_confirmed=true");
    assert_eq!(r, Err(DtaError::CredentialExchangeFailed));
}

#[test]
fn login_flow_assembles_the_final_credential() {
    // username "alice" was looked up to id "123"
    assert_eq!(user_lookup_path("alice"), "2/users/by/username/alice");
    // the request-token step answered with a temporary token
    let tmp = parse_request_token("oauth_token=tmpA&oauth_token_secret=x").unwrap();
    assert_eq!(tmp, "tmpA");
    assert_eq!(authorize_path(&tmp), "oauth/authorize?oauth_token=tmpA");
    // the operator typed the verifier
    assert_eq!(
        access_token_path(&tmp, "000000"),
        "oauth/access_token?oauth_token=tmpA&oauth_verifier=000000"
    );
    // the access-token step answered with the final pair
    let cred = complete_login("alice", "123", "oauth_token=finalB&oauth_token_secret=secC")
        .unwrap();
    assert_eq!(cred.username, "alice");
    assert_eq!(cred.id, "123");
    assert_eq!(cred.oauth_token, "finalB");
    assert_eq!(cred.oauth_token_secret, "secC");
}

#[test]
fn incomplete_access_token_response_fails_the_exchange() {
    let r = complete_login("alice", "123", "oauth_token=finalB");
    assert!(matches!(r, Err(DtaError::CredentialExchangeFailed)));
    let r2 = complete_login("alice", "123", "");
    assert!(matches!(r2, Err(DtaError::CredentialExchangeFailed)));
}

#[test]
fn endpoint_paths_are_exact() {
    assert_eq!(request_token_path("ck"), "oauth/request_token?oauth_consumer_key=ck&oauth_callback=oob");
    assert_eq!(destroy_status_path("42"), "1.1/statuses/destroy/42.json");
    assert_eq!(destroy_favorite_path(), "1.1/favorites/destroy.json");
    assert_eq!(user_tweets_path("123"), "2/users/123/tweets");
    assert_eq!(liked_tweets_path("123"), "2/users/123/liked_tweets");
    assert_eq!(expand_date("2022-01-01"), "2022-01-01T00:00:00Z");
}

#[test]
fn fetch_query_params_follow_the_date_window() {
    let both = timeline_query_params(
        &Some(String::from("2022-01-01")),
        &Some(String::from("2022-12-31")),
    );
    let kv: Vec<(String, String)> = both.into_iter().map(|q| (q.key, q.value)).collect();
    assert_eq!(
        kv,
        vec![
            (String::from("max_results"), String::from("100")),
            (
                String::from("tweet.fields"),
                String::from("created_at,public_metrics,attachments")
            ),
            (String::from("end_time"), String::from("2022-12-31T00:00:00Z")),
            (String::from("start_time"), String::from("2022-01-01T00:00:00Z")),
        ]
    );

    let none = timeline_query_params(&None, &None);
    assert_eq!(none.len(), 2);
    let likes = likes_query_params();
    assert_eq!(likes.len(), 2);
    assert_eq!(likes[0].key, "max_results");
    assert_eq!(likes[0].value, "100");
    assert_eq!(likes[1].key, "tweet.fields");
}

#[test]
fn authenticated_calls_demand_a_loaded_credential() {
    let none: Option<TwitterAppUserCredential> = None;
    let r = require_user_cred(&none);
    assert!(matches!(r, Err(DtaError::SigningPrerequisiteMissing)));
    let some = Some(TwitterAppUserCredential {
        username: String::from("alice"),
        id: String::from("123"),
        oauth_token: String::from("t"),
        oauth_token_secret: String::from("s"),
    });
    let r2 = require_user_cred(&some);
    assert!(r2.is_ok());
    assert_eq!(r2.unwrap().username, "alice");
}
