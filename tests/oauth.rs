use raid_finder::config::Config;
use raid_finder::error::Error;
use raid_finder::oauth::{
    join_strings, sort_strings, OAuthParameters, OAuthRequestBuilder, Parameter, ParameterConvertible,
};
use raid_finder::sign::percent_encode;
use raid_finder::stream::{FilterStreamClient, STREAM_URL};

fn config(secret: &str, token_secret: &str) -> Config {
    Config::new(
        Some("key".to_string()),
        Some(secret.to_string()),
        Some("token".to_string()),
        Some(token_secret.to_string()),
        Some("redis://localhost".to_string()),
        None,
    )
    .unwrap()
}

fn reference_builder(method: &str) -> OAuthRequestBuilder {
    let oauth = OAuthParameters::with_nonce_and_timestamp(
        "xvz1evFS4wEEPTGEFPHBog",
        "370773112-GmHxMAgYyLbNEtIKZeRNFsMKPR9EyMZeS9weJAEb",
        "1.0",
        "kYjzVBB8Y0ZFabxSWbWovY3uYSQ2pTgmZeNu2VS4cg",
        "1318622958",
    );
    OAuthRequestBuilder::new(
        "https://api.twitter.com/1.1/statuses/update.json",
        method,
        config("kAcSOqF21Fu85e7zjz7ZN2U4ZRhfV3WpwPAoE3Z7kBw", "LswwdoUaIvS8ltyTt5jkRh4J50vUPVVHtR2YPi5kE"),
        oauth,
        vec![
            Parameter::new("include_entities", "true"),
            Parameter::new("status", "Hello Ladies + Gentlemen, a signed OAuth request!"),
        ],
    )
}

#[test]
fn reference_parameter_string() {
    let b = reference_builder("POST");
    assert_eq!(
        "include_entities=true&oauth_consumer_key=xvz1evFS4wEEPTGEFPHBog&oauth_nonce=kYjzVBB8Y0ZFabxSWbWovY3uYSQ2pTgmZeNu2VS4cg&oauth_signature_method=HMAC-SHA1&oauth_timestamp=1318622958&oauth_token=370773112-GmHxMAgYyLbNEtIKZeRNFsMKPR9EyMZeS9weJAEb&oauth_version=1.0&status=Hello%20Ladies%20%2B%20Gentlemen%2C%20a%20signed%20OAuth%20request%21",
        b.collecting_parameters()
    );
}

#[test]
fn reference_signing_key_and_base_string() {
    let b = reference_builder("post");
    assert_eq!(
        "kAcSOqF21Fu85e7zjz7ZN2U4ZRhfV3WpwPAoE3Z7kBw&LswwdoUaIvS8ltyTt5jkRh4J50vUPVVHtR2YPi5kE",
        b.getting_signing_key()
    );
    let base = b.generate_base_signature_string();
    assert!(base.starts_with("POST&https%3A%2F%2Fapi.twitter.com%2F1.1%2Fstatuses%2Fupdate.json&include_entities%3Dtrue%26oauth_consumer_key%3D"));
}

#[test]
fn reference_signature() {
    let b = reference_builder("POST");
    assert_eq!("hCtSmYh+iHYCEqBWrE7C7hYmtUk=", b.create_signature());
}

#[test]
fn signing_is_deterministic() {
    let a = reference_builder("POST").create_authorization_header();
    let b = reference_builder("POST").create_authorization_header();
    assert_eq!(a, b);
    assert!(a.starts_with("OAuth oauth_consumer_key=\"xvz1evFS4wEEPTGEFPHBog\", oauth_nonce=\""));
    assert!(a.ends_with("oauth_version=\"1.0\", oauth_signature=\"hCtSmYh%2BiHYCEqBWrE7C7hYmtUk%3D\""));
}

#[test]
fn query_and_request() {
    let b = reference_builder("POST");
    assert_eq!(
        "include_entities=true&status=Hello%20Ladies%20%2B%20Gentlemen%2C%20a%20signed%20OAuth%20request%21",
        b.query()
    );
    let req = b.build().unwrap();
    assert_eq!("POST", req.method);
    assert!(req.uri.starts_with("https://api.twitter.com/1.1/statuses/update.json?include_entities=true&"));
    assert_eq!(("Connection".to_string(), "close".to_string()), req.headers[0]);
    assert_eq!(
        ("Content-Type".to_string(), "application/x-www-form-urlencoded".to_string()),
        req.headers[1]
    );
    assert_eq!("Authorization", req.headers[2].0);
}

#[test]
fn invalid_method_is_refused() {
    assert!(matches!(reference_builder("GE T").build(), Err(Error::InvalidHttpMethod)));
    assert!(matches!(reference_builder("").build(), Err(Error::InvalidHttpMethod)));
}

#[test]
fn percent_encoding_of_reserved_and_unicode() {
    assert_eq!("Hello%20Ladies%20%2B%20Gentlemen", percent_encode("Hello Ladies + Gentlemen"));
    assert_eq!("-._~aZ09", percent_encode("-._~aZ09"));
    assert_eq!("%E2%98%83", percent_encode("☃"));
    assert_eq!("", percent_encode(""));
}

#[test]
fn parameter_forms() {
    let p = Parameter::new("a b", "c&d");
    assert_eq!("a%20b=c%26d", p.as_percent_encoding());
    assert_eq!("a%20b=\"c%26d\"", p.as_http_parameter());
    assert_eq!(("a b", "c&d"), p.as_http_query());
}

#[test]
fn sorting_and_joining() {
    let v = vec!["b".to_string(), "a=2".to_string(), "a".to_string(), "B".to_string()];
    assert_eq!(vec!["B", "a", "a=2", "b"], sort_strings(v));
    assert_eq!("x, y", join_strings(&vec!["x".to_string(), "y".to_string()], ", "));
    assert_eq!("", join_strings(&vec![], ","));
}

#[test]
fn fresh_parameters_have_a_nonce_and_time() {
    let p = OAuthParameters::new("k", "t", "1.0");
    assert_eq!(21, p.nonce.value.len());
    assert!(p.timestamp.value.chars().all(|c| c.is_ascii_digit()));
    assert_eq!(6, p.to_vec().len());
    assert!(p.nonce.value.chars().all(|c| c.is_ascii_alphanumeric() || c == '_' || c == '-'));
    assert_ne!(p.nonce.value, OAuthParameters::new("k", "t", "1.0").nonce.value);
}

#[test]
fn stream_client_request() {
    let track = vec![
        "参加者募集！".to_string(),
        ":参戦ID".to_string(),
        "I need backup!".to_string(),
        ":Battle ID".to_string(),
    ];
    let client = FilterStreamClient::new(config("s", "t"), &track, "true");
    assert_eq!("stall_warning", client.parameters[0].key);
    assert_eq!("参加者募集！,:参戦ID,I need backup!,:Battle ID", client.parameters[1].value);
    let req = client.oauth_stream(STREAM_URL).unwrap();
    assert_eq!("POST", req.method);
    assert!(req.uri.starts_with("https://stream.twitter.com/1.1/statuses/filter.json?stall_warning=true&track="));
}
