use url_shortener::ids::ObjectId;
use url_shortener::error::URLError;
use url_shortener::leaderboard::{
    build_leaderboard, leaderboard_source, rank_routes, refresh_step, LeaderboardSource, RefreshAction,
    LEADERBOARD_REFRESH_SECS,
};
use url_shortener::models::{AggregationResult, LeaderboardItem};
use url_shortener::queue::{visit_from_message, visit_message, write_step, WriteAction, WRITE_RETRY_SECS};

fn route(tag: u8, count: u32) -> AggregationResult {
    AggregationResult { _id: ObjectId { bytes: [tag; 12] }, count }
}

fn tags(routes: &[AggregationResult]) -> Vec<u8> {
    routes.iter().map(|r| r._id.bytes[0]).collect()
}

#[test]
fn routes_rank_by_visits_most_first() {
    let groups = vec![route(1, 3), route(2, 9), route(3, 5), route(4, 9), route(5, 1)];
    let ranked = rank_routes(&groups);
    assert_eq!(tags(&ranked), vec![2, 4, 3, 1, 5]);
    let counts: Vec<u32> = ranked.iter().map(|r| r.count).collect();
    assert_eq!(counts, vec![9, 9, 5, 3, 1]);
}

#[test]
fn leaderboard_keeps_the_ten_most_visited() {
    let groups: Vec<AggregationResult> = (0..15u8).map(|i| route(i, (i as u32 * 7) % 15)).collect();
    let ranked = rank_routes(&groups);
    assert_eq!(ranked.len(), 10);
    let counts: Vec<u32> = ranked.iter().map(|r| r.count).collect();
    assert_eq!(counts, vec![14, 13, 12, 11, 10, 9, 8, 7, 6, 5]);
    assert_eq!(rank_routes(&Vec::new()).len(), 0);
}

#[test]
fn leaderboard_skips_routes_without_address() {
    let found = vec![
        (route(1, 9), Some("https://a.example/".to_string())),
        (route(2, 7), None),
        (route(3, 4), Some("https://c.example/".to_string())),
    ];
    let items = build_leaderboard(&found);
    assert_eq!(items.len(), 2);
    assert_eq!(items[0].url, "https://a.example/");
    assert_eq!(items[0].count, 9);
    assert_eq!(items[1].url, "https://c.example/");
    assert_eq!(items[1].count, 4);
}

#[test]
fn visit_messages_read_back() {
    let id = ObjectId { bytes: [3, 1, 4, 1, 5, 9, 2, 6, 5, 3, 5, 8] };
    let message = visit_message(&id);
    assert_eq!(message, id.bytes.to_vec());
    assert_eq!(visit_from_message(&message), Some(id));
    assert_eq!(visit_from_message(&message[..11]), None);
    assert_eq!(visit_from_message(&[0u8; 13]), None);
}

#[test]
fn refresh_stores_what_it_loaded_then_waits_a_minute() {
    assert_eq!(LEADERBOARD_REFRESH_SECS, 60);
    let items = vec![LeaderboardItem { url: "https://a.example/".to_string(), count: 3 }];
    match refresh_step(Ok(items)) {
        RefreshAction::StoreThenWait { items, secs } => {
            assert_eq!(secs, 60);
            assert_eq!(items.len(), 1);
            assert_eq!(items[0].url, "https://a.example/");
        }
        RefreshAction::WaitOnly { .. } => panic!("a loaded leaderboard is stored"),
    }
    match refresh_step(Err(URLError::Database)) {
        RefreshAction::WaitOnly { secs } => assert_eq!(secs, 60),
        RefreshAction::StoreThenWait { .. } => panic!("a failed load stores nothing"),
    }
}

#[test]
fn cached_leaderboard_is_served_else_rebuilt() {
    let items = vec![LeaderboardItem { url: "https://a.example/".to_string(), count: 3 }];
    match leaderboard_source(Some(items)) {
        LeaderboardSource::Cached(items) => assert_eq!(items[0].count, 3),
        LeaderboardSource::Rebuild => panic!("a readable cache is served"),
    }
    assert!(matches!(leaderboard_source(None), LeaderboardSource::Rebuild));
}

#[test]
fn failed_writes_are_retried_until_stored() {
    assert_eq!(write_step(Ok(())), WriteAction::Done);
    assert_eq!(write_step(Err(URLError::Database)), WriteAction::RetryAfter { secs: WRITE_RETRY_SECS });
    assert_eq!(WRITE_RETRY_SECS, 5);
}
