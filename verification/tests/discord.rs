use room_monitoring::discord::{DiscordWebhookPostData, PostError, PostHistory, PostRateExceeded};
use room_monitoring::time::Instant;

fn at(secs: i64) -> Instant {
    Instant { secs, nanos: 0 }
}

#[test]
fn post_data_carries_content_only() {
    let data = DiscordWebhookPostData::with_content("温度 20 ℃".to_string());
    assert_eq!(data.content.as_deref(), Some("温度 20 ℃"));
    assert!(data.username.is_none());
    assert!(data.avatar_url.is_none());
    let empty = DiscordWebhookPostData::default();
    assert!(empty.content.is_none() && empty.username.is_none() && empty.avatar_url.is_none());
}

#[test]
fn five_posts_per_minute_are_permitted() {
    let mut history = PostHistory::new();
    for i in 0..5 {
        assert_eq!(history.record_post_at(at(1000 + i)), Ok(()));
    }
    assert_eq!(history.record_post_at(at(1010)), Err(PostRateExceeded));
}

#[test]
fn posts_older_than_a_minute_are_forgotten() {
    let mut history = PostHistory::new();
    for i in 0..5 {
        assert_eq!(history.record_post_at(at(1000 + i)), Ok(()));
    }
    // Exactly one minute after the first post it still counts.
    assert_eq!(history.record_post_at(at(1060)), Err(PostRateExceeded));
    // A nanosecond later it no longer does.
    assert_eq!(history.record_post_at(Instant { secs: 1060, nanos: 1 }), Ok(()));
    assert_eq!(history.record_post_at(Instant { secs: 1060, nanos: 2 }), Err(PostRateExceeded));
    assert_eq!(history.record_post_at(at(1200)), Ok(()));
}

#[test]
fn refused_post_is_not_recorded() {
    let mut history = PostHistory::new();
    for i in 0..5 {
        history.record_post_at(at(1000 + i)).unwrap();
    }
    assert_eq!(history.record_post_at(at(1030)), Err(PostRateExceeded));
    // Had the refused post been recorded, this one would be refused too.
    assert_eq!(history.record_post_at(at(1061)), Ok(()));
}

#[test]
fn record_post_reads_the_clock() {
    let mut history = PostHistory::new();
    for _ in 0..5 {
        assert_eq!(history.record_post(), Ok(()));
    }
    assert_eq!(history.record_post(), Err(PostError::RateExceeded));
}

#[test]
fn record_under_a_steady_clock_stays_within_a_minute() {
    let mut history = PostHistory::new();
    let mut admitted = Vec::new();
    for i in 0..40i64 {
        if history.record_post_at(at(1000 + 7 * i)).is_ok() {
            admitted.push(1000 + 7 * i);
        }
    }
    // Never more than five admitted posts within any minute.
    for w in admitted.windows(6) {
        assert!(w[5] - w[0] > 60);
    }
    assert!(admitted.len() > 5);
}

#[test]
fn post_body_is_the_json_object() {
    let data = DiscordWebhookPostData::with_content("温度 \"20\"\n湿度".to_string());
    assert_eq!(
        data.post_body(),
        "{\"content\":\"温度 \\\"20\\\"\\n湿度\",\"username\":null,\"avatar_url\":null}"
    );
    assert_eq!(
        DiscordWebhookPostData::default().post_body(),
        "{\"content\":null,\"username\":null,\"avatar_url\":null}"
    );
}
