use chrono::{Local, NaiveDateTime};
use navop_core::middleware_pages::{
    mode_from_value, mode_key, parse_local_datetime, MiddlewareCapabilities, MiddlewarePageKind,
    MiddlewarePages, QueryMode, StatusPresentation,
};

#[test]
fn mode_roundtrip_from_value() {
    assert_eq!(mode_from_value("time"), QueryMode::TimeWindow);
    assert_eq!(mode_from_value("key"), QueryMode::Key);
    assert_eq!(mode_from_value("id"), QueryMode::Id);
    assert_eq!(mode_from_value("unknown"), QueryMode::TimeWindow);
}

#[test]
fn every_mode_reads_back_from_its_key() {
    for mode in [QueryMode::TimeWindow, QueryMode::Key, QueryMode::Id] {
        assert_eq!(mode, mode_from_value(mode_key(mode)));
    }
    assert_eq!(QueryMode::TimeWindow, QueryMode::default());
}

#[test]
fn parse_local_datetime_accepts_expected_format() {
    let ms = parse_local_datetime("2025-01-02 08:00");
    assert!(ms.is_some());
    let back = NaiveDateTime::parse_from_str("2025-01-02 08:00", "%Y-%m-%d %H:%M")
        .unwrap()
        .and_local_timezone(Local)
        .single()
        .unwrap()
        .timestamp_millis();
    assert_eq!(ms, Some(back));
}

#[test]
fn parse_local_datetime_rejects_invalid() {
    assert!(parse_local_datetime("").is_none());
    assert!(parse_local_datetime("2025/01/02").is_none());
    assert!(parse_local_datetime("not-a-time").is_none());
}

#[test]
fn parse_local_datetime_ignores_surrounding_blanks() {
    assert_eq!(
        parse_local_datetime("2025-01-02 08:00"),
        parse_local_datetime("  2025-01-02 08:00 \n")
    );
    assert!(parse_local_datetime("   ").is_none());
}

#[test]
fn pages_follow_the_backend_capabilities() {
    let all = MiddlewareCapabilities {
        metrics: true,
        cluster_overview: false,
        topics: true,
        groups: true,
        message_query: true,
    };
    let pages = MiddlewarePages::page_plan(all, "7");
    let ids: Vec<&str> = pages.iter().map(|(id, _)| id.as_str()).collect();
    assert_eq!(vec!["7-overview", "7-topics", "7-groups", "7-messages"], ids);
    assert_eq!(MiddlewarePageKind::Overview, pages[0].1);

    let only_topics = MiddlewareCapabilities {
        metrics: false,
        cluster_overview: false,
        topics: true,
        groups: false,
        message_query: false,
    };
    let pages = MiddlewarePages::page_plan(only_topics, "c");
    assert_eq!(1, pages.len());
    assert_eq!(("c-topics".to_string(), MiddlewarePageKind::Topics), pages[0]);

    let cluster = MiddlewareCapabilities {
        metrics: false,
        cluster_overview: true,
        topics: false,
        groups: false,
        message_query: false,
    };
    assert_eq!(MiddlewarePageKind::Overview, MiddlewarePages::page_plan(cluster, "x")[0].1);
}

#[test]
fn status_is_neutral_by_default() {
    assert_eq!(StatusPresentation::Neutral, StatusPresentation::default());
}

#[test]
fn local_times_lie_within_a_day_of_the_wall_clock() {
    let wall = NaiveDateTime::parse_from_str("2025-06-30 23:59", "%Y-%m-%d %H:%M")
        .expect("valid")
        .and_utc()
        .timestamp_millis();
    let local = parse_local_datetime("2025-06-30 23:59").expect("an unambiguous time");
    assert!((local - wall).abs() < 86_400_000);
}
