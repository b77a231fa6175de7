use ecdysis::firehose::{ConfigError, FirehoseConfig};

#[test]
fn rejects_mastodon_social() {
    assert!(matches!(
        FirehoseConfig::validate("mastodon.social"),
        Err(ConfigError::ForbiddenInstance(_))
    ));
    assert!(matches!(
        FirehoseConfig::validate("https://Mastodon.Social/"),
        Err(ConfigError::ForbiddenInstance(_))
    ));
}

#[test]
fn accepts_pawoo() {
    let cfg = FirehoseConfig::validate("pawoo.net").unwrap();
    assert_eq!(cfg.instance, "pawoo.net");
}

#[test]
fn rejects_empty() {
    assert!(matches!(
        FirehoseConfig::validate(""),
        Err(ConfigError::EmptyInstance)
    ));
}

use ecdysis::firehose::{
    health_after, read_action, FeedEvent, Health, ReadAction, SocketMessage, FORBIDDEN_INSTANCE,
};

#[test]
fn validate_normalises_host() {
    let cfg = FirehoseConfig::validate("  wss://ws://pawoo.net//  ").unwrap();
    assert_eq!(cfg.instance, "pawoo.net");
    let cfg = FirehoseConfig::validate("https://https://a.b/").unwrap();
    assert_eq!(cfg.instance, "a.b");
    let cfg = FirehoseConfig::validate("\u{3000}x.y\t").unwrap();
    assert_eq!(cfg.instance, "x.y");
}

#[test]
fn validate_rejects_scheme_only_and_slashes() {
    assert!(matches!(FirehoseConfig::validate("https://"), Err(ConfigError::EmptyInstance)));
    assert!(matches!(FirehoseConfig::validate(" /// "), Err(ConfigError::EmptyInstance)));
}

#[test]
fn forbidden_instance_error_carries_normalised_host() {
    match FirehoseConfig::validate("ws://MASTODON.social") {
        Err(ConfigError::ForbiddenInstance(h)) => assert_eq!(h, "MASTODON.social"),
        other => panic!("unexpected {other:?}"),
    }
    assert!(matches!(
        FirehoseConfig::validate(FORBIDDEN_INSTANCE),
        Err(ConfigError::ForbiddenInstance(_))
    ));
    assert!(FirehoseConfig::validate("mastodon.social.evil").is_ok());
}

#[test]
fn config_error_messages() {
    assert_eq!(ConfigError::EmptyInstance.message(), "empty instance host");
    assert_eq!(
        ConfigError::ForbiddenInstance("m.s".to_string()).message(),
        "instance `m.s` is forbidden (over-filtered firehose lacks irritation density)"
    );
}

#[test]
fn rate_limit_starves_without_retry() {
    assert_eq!(health_after(FeedEvent::Connected), Health::FirehoseFeeding);
    assert_eq!(health_after(FeedEvent::StreamEnded), Health::BusFeeding);
    assert_eq!(health_after(FeedEvent::ConnectFailed(Some(429))), Health::Starved);
    assert_eq!(health_after(FeedEvent::ConnectFailed(Some(500))), Health::BusFeeding);
    assert_eq!(health_after(FeedEvent::ConnectFailed(None)), Health::BusFeeding);
}

#[test]
fn socket_message_actions() {
    assert_eq!(read_action(&SocketMessage::Text(vec![1])), ReadAction::Push);
    assert_eq!(read_action(&SocketMessage::Binary(vec![])), ReadAction::Push);
    assert_eq!(read_action(&SocketMessage::Ping), ReadAction::Skip);
    assert_eq!(read_action(&SocketMessage::Pong), ReadAction::Skip);
    assert_eq!(read_action(&SocketMessage::Other), ReadAction::Skip);
    assert_eq!(read_action(&SocketMessage::Close), ReadAction::Stop);
    assert_eq!(read_action(&SocketMessage::Error), ReadAction::Stop);
}

#[test]
fn push_lossy_drops_overflow() {
    let (tx, mut rx) = tokio::sync::mpsc::channel::<u8>(2);
    let mut feed = ecdysis::firehose::LossyFeed::new(tx);
    let dropped = ecdysis::firehose::push_lossy(&mut feed, &[1, 2, 3, 4]);
    assert_eq!(dropped, 2);
    assert_eq!(rx.try_recv().unwrap(), 1);
    assert_eq!(rx.try_recv().unwrap(), 2);
    assert!(rx.try_recv().is_err());
}

#[test]
fn push_lossy_drops_everything_once_closed() {
    let (tx, rx) = tokio::sync::mpsc::channel::<u8>(8);
    drop(rx);
    let mut feed = ecdysis::firehose::LossyFeed::new(tx);
    assert_eq!(ecdysis::firehose::push_lossy(&mut feed, &[9, 8, 7]), 3);
    assert_eq!(ecdysis::firehose::push_lossy(&mut feed, &[]), 0);
}
