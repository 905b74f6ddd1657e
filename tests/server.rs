use raid_finder::config::{log_level_of, Config, LogLevel};
use raid_finder::error::{Error, HttpError};
use raid_finder::image::{cropped_height, first_match};
use raid_finder::language::Language;
use raid_finder::pipeline::{reconnects, retry_policy, RetryPolicy};
use raid_finder::records::RaidTweet;
use raid_finder::server::{expiry_for, healthz, needs_round_trip, recent_persistence_keys};
use raid_finder::subscribers::{client_action, ClientAction, ClientFrame, Subscribers};

#[test]
fn healthz_boundary() {
    let ok = healthz(1020, 1000);
    assert!(ok.ok);
    assert_eq!(200, ok.status);
    assert_eq!("ok", ok.body);
    let late = healthz(1021, 1000);
    assert!(!late.ok);
    assert_eq!(500, late.status);
    assert_eq!("error: 21", late.body);
    assert!(healthz(5, 10).ok);
}

#[test]
fn empty_key_list_needs_no_round_trip() {
    assert!(!needs_round_trip(&vec![]));
    assert!(needs_round_trip(&vec!["gbf:translator:a".to_string()]));
    assert_eq!(None, expiry_for(0));
    assert_eq!(Some(7200), expiry_for(7200));
}

#[test]
fn persistence_keys_newest_first_and_limited() {
    let keys = vec![
        "gbf:persistence:b.1.100".to_string(),
        "gbf:persistence:b.2.300".to_string(),
        "gbf:persistence:b.3.200".to_string(),
    ];
    assert_eq!(
        vec!["gbf:persistence:b.2.300".to_string(), "gbf:persistence:b.3.200".to_string()],
        recent_persistence_keys(&keys, 2)
    );
    assert_eq!(3, recent_persistence_keys(&keys, 10).len());
    assert!(recent_persistence_keys(&keys, 0).is_empty());
    let mixed = vec!["x.9".to_string(), "x.10".to_string(), "x.bad".to_string()];
    assert_eq!(
        vec!["x.10".to_string(), "x.9".to_string(), "x.bad".to_string()],
        recent_persistence_keys(&mixed, 3)
    );
}

#[test]
fn retry_policy_by_error() {
    assert_eq!(RetryPolicy::WaitRetry { seconds: 1 }, retry_policy(&Error::StreamEOF));
    assert_eq!(RetryPolicy::WaitRetry { seconds: 5 }, retry_policy(&Error::BadResponse));
    assert_eq!(RetryPolicy::WaitRetry { seconds: 5 }, retry_policy(&Error::StreamUnexpected));
    assert_eq!(RetryPolicy::ForwardError, retry_policy(&Error::ApiKeyNotFound));
    assert!(reconnects(&Error::StreamEOF));
    assert!(!reconnects(&Error::JSONParse));
}

#[test]
fn config_reports_first_missing_variable() {
    let s = |v: &str| Some(v.to_string());
    assert!(matches!(Config::new(None, s("b"), s("c"), s("d"), s("e"), None), Err(Error::ApiKeyNotFound)));
    assert!(matches!(
        Config::new(s("a"), s("b"), s("c"), None, None, None),
        Err(Error::AccessTokenSecretNotFound)
    ));
    assert!(matches!(Config::new(s("a"), s("b"), s("c"), s("d"), None, None), Err(Error::RedisURLNotFound)));
    let c = Config::new(s("a"), s("b"), s("c"), s("d"), s("e"), None).unwrap();
    assert_eq!("/var/log", c.log_path);
    assert!(!c.logs_to_console());
    let c = Config::new(s("a"), s("b"), s("c"), s("d"), s("e"), s("stdout")).unwrap();
    assert!(c.logs_to_console());
    assert_eq!(LogLevel::Info, log_level_of(3));
    assert_eq!(LogLevel::Error, log_level_of(9));
    assert_eq!(LogLevel::Trace, log_level_of(-1));
}

#[test]
fn rest_rejections() {
    let r = HttpError::CannotGetRedisKeysError.reject();
    assert_eq!(404, r.code);
    assert_eq!("Cannot get redis keys.", r.message);
    assert_eq!("Cannot mget redis values.", HttpError::CannotMGetRedisError.reject().message);
}

#[test]
fn image_crop_and_first_match() {
    assert_eq!(75, cropped_height(100));
    assert_eq!(2, cropped_height(3));
    assert_eq!(usize::MAX / 4 * 3 + 2, cropped_height(usize::MAX));
    // candidates [Wilnas, Akasha]: only Akasha is close enough
    assert_eq!(Some(1), first_match(&vec![false, true]));
    // two close candidates: the earliest wins
    assert_eq!(Some(0), first_match(&vec![true, true]));
    assert_eq!(None, first_match(&vec![false, false]));
    assert_eq!(None, first_match(&vec![]));
}

#[test]
fn websocket_filter_update_and_fan_out() {
    let mut subs = Subscribers::new();
    subs.register("c1".to_string());
    subs.register("c2".to_string());
    let action = client_action(ClientFrame::Text {
        text: r#"{"boss_names":["Lv150 プロトバハムート"]}"#.to_string(),
        request: Some(vec!["Lv150 プロトバハムート".to_string()]),
    });
    match action {
        ClientAction::UpdateFilter { boss_names } => subs.update_filter("c1", boss_names),
        _ => panic!("expected a filter update"),
    }
    let invitation = RaidTweet::with_args(1, "s", 2, "Lv150 プロトバハムート", "7D705AE2", "", Language::Japanese, "");
    assert_eq!(vec!["c1".to_string()], subs.recipients(&invitation.boss_name));
    let frame = invitation.to_bytes().unwrap();
    assert_eq!("Lv150 プロトバハムート", RaidTweet::decode(&frame).unwrap().boss_name);
    assert!(matches!(
        client_action(ClientFrame::Text { text: "__PING__".to_string(), request: None }),
        ClientAction::Pong
    ));
    assert!(matches!(
        client_action(ClientFrame::Text { text: "hello".to_string(), request: None }),
        ClientAction::Ignore
    ));
    assert!(matches!(client_action(ClientFrame::Close), ClientAction::Disconnect));
    assert!(matches!(client_action(ClientFrame::Other), ClientAction::Ignore));
    subs.remove("c1");
    assert!(subs.recipients("Lv150 プロトバハムート").is_empty());
    subs.update_filter("gone", vec!["x".to_string()]);
    assert!(subs.recipients("x").is_empty());
}
