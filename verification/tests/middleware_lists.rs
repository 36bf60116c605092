use navop_core::middleware_forms::{
    build_message_query, message_query, queue_count_from_text, send_request, topic_editor_form, topic_request,
    MessageQuery, MessageQueryProblem, TopicFormProblem,
};
use navop_core::middleware_lists::{
    body_text, filter_topics, hex_dump, message_cell, message_detail_values, message_property_lines, page_count, page_window, pagination,
    resend_prefill, toggle_type_filter, topic_cell, MessageSummary, PaginationSpec, TopicSummary, TOPIC_TYPE_FILTERS,
};
use navop_core::middleware_pages::QueryMode;

fn topic(name: &str, topic_type: Option<&str>) -> TopicSummary {
    TopicSummary { name: name.to_string(), topic_type: topic_type.map(str::to_string), queue_count: None, perm: None, message_count: None, created_at: None }
}

fn topics() -> Vec<TopicSummary> {
    vec![
        topic("OrderCreated", Some("NORMAL")),
        topic("order-fifo", Some("FIFO")),
        topic("%RETRY%group", Some("RETRY")),
        topic("Ärger", None),
    ]
}

#[test]
fn page_counts_round_up_and_never_drop_below_one() {
    assert_eq!(1, page_count(0, 10));
    assert_eq!(1, page_count(10, 10));
    assert_eq!(2, page_count(11, 10));
    assert_eq!(3, page_count(21, 10));
    assert_eq!(7, page_count(7, 0));
    assert_eq!(usize::MAX, page_count(usize::MAX, 1));
}

#[test]
fn pagination_bar_enables_buttons_by_position() {
    let first = pagination(PaginationSpec { total: 25, page: 1, page_size: 10, has_more: false });
    assert_eq!((3, false, true), (first.pages, first.can_prev, first.can_next));
    let last = pagination(PaginationSpec { total: 25, page: 3, page_size: 10, has_more: false });
    assert_eq!((3, true, false), (last.pages, last.can_prev, last.can_next));
    let more = pagination(PaginationSpec { total: 0, page: 1, page_size: 20, has_more: true });
    assert_eq!((1, false, true), (more.pages, more.can_prev, more.can_next));
}

#[test]
fn page_windows_are_clamped_to_the_list() {
    assert_eq!((1, 0, 10), page_window(25, 1, 10));
    assert_eq!((3, 20, 25), page_window(25, 3, 10));
    assert_eq!((3, 20, 25), page_window(25, 9, 10));
    assert_eq!((1, 0, 0), page_window(0, 4, 10));
    assert_eq!((0, 0, 10), page_window(25, 0, 10));
}

#[test]
fn every_row_lands_on_exactly_one_page() {
    let (total, size) = (23usize, 5usize);
    for row in 0..total {
        let pages: Vec<usize> = (1..=page_count(total, size))
            .filter(|&page| {
                let (_, start, end) = page_window(total, page, size);
                start <= row && row < end
            })
            .collect();
        assert_eq!(vec![row / size + 1], pages);
    }
}

#[test]
fn hex_dumps_are_upper_case_pairs() {
    assert_eq!("", hex_dump(&[]));
    assert_eq!("0A", hex_dump(&[10]));
    assert_eq!("00 7F FF", hex_dump(&[0, 127, 255]));
}

#[test]
fn bodies_read_as_text_unless_hex_or_not_utf8() {
    assert_eq!("héllo", body_text("héllo".as_bytes(), false));
    assert_eq!("68 69", body_text(b"hi", true));
    assert_eq!("FF FE", body_text(&[0xFF, 0xFE], false));
    assert_eq!("", body_text(&[], false));
}

#[test]
fn topics_filter_by_name_without_case_and_by_type() {
    let list = topics();
    assert_eq!(vec![0, 1, 2, 3], filter_topics(&list, "   ", &Vec::new()));
    assert_eq!(vec![0, 1], filter_topics(&list, "  ORDER ", &Vec::new()));
    assert_eq!(vec![3], filter_topics(&list, "ärg", &Vec::new()));
    assert_eq!(vec![1, 2], filter_topics(&list, "", &vec!["FIFO".to_string(), "RETRY".to_string()]));
    assert_eq!(vec![1], filter_topics(&list, "order", &vec!["FIFO".to_string()]));
    assert!(filter_topics(&list, "nothing", &Vec::new()).is_empty());
}

#[test]
fn type_filters_toggle_on_and_off() {
    let mut active: Vec<String> = Vec::new();
    toggle_type_filter(&mut active, TOPIC_TYPE_FILTERS[1]);
    toggle_type_filter(&mut active, TOPIC_TYPE_FILTERS[5]);
    assert_eq!(vec!["FIFO".to_string(), "DLQ".to_string()], active);
    toggle_type_filter(&mut active, "FIFO");
    assert_eq!(vec!["DLQ".to_string()], active);
    toggle_type_filter(&mut active, "DLQ");
    assert!(active.is_empty());
}

#[test]
fn the_topic_editor_starts_from_the_listed_topic() {
    let mut list = topics();
    list[1].queue_count = Some(16);
    list[1].perm = Some("4".to_string());
    let edit = topic_editor_form(Some("order-fifo"), &list);
    assert_eq!(("order-fifo", "FIFO", "16", "4"), (&*edit.topic, &*edit.topic_type, &*edit.queues, &*edit.perm));
    let fresh = topic_editor_form(None, &list);
    assert_eq!(("", "NORMAL", "8", "6"), (&*fresh.topic, &*fresh.topic_type, &*fresh.queues, &*fresh.perm));
    let untyped = topic_editor_form(Some("Ärger"), &list);
    assert_eq!(("Ärger", "NORMAL", "8", "6"), (&*untyped.topic, &*untyped.topic_type, &*untyped.queues, &*untyped.perm));
    let unknown = topic_editor_form(Some("gone"), &list);
    assert_eq!(("gone", "NORMAL", "8", "6"), (&*unknown.topic, &*unknown.topic_type, &*unknown.queues, &*unknown.perm));
}

#[test]
fn queue_counts_default_when_blank_and_must_fit_u32() {
    assert_eq!(Some(8), queue_count_from_text("  "));
    assert_eq!(Some(16), queue_count_from_text(" 16 "));
    assert_eq!(Some(4294967295), queue_count_from_text("4294967295"));
    assert_eq!(None, queue_count_from_text("4294967296"));
    assert_eq!(None, queue_count_from_text("-1"));
    assert_eq!(None, queue_count_from_text("eight"));
}

#[test]
fn topic_requests_need_a_name_and_a_queue_count() {
    assert_eq!(
        Err(TopicFormProblem::TopicRequired),
        topic_request("  ", Some("NORMAL".to_string()), "8", None)
    );
    assert_eq!(
        Err(TopicFormProblem::QueuesInvalid),
        topic_request("orders", Some("NORMAL".to_string()), "x", None)
    );
    let request = topic_request(" orders ", Some(String::new()), "", Some("6".to_string())).expect("valid");
    assert_eq!("orders", request.topic);
    assert_eq!(None, request.topic_type);
    assert_eq!(Some(8), request.queue_count);
    assert_eq!(Some("6".to_string()), request.perm);
    assert!(request.attributes.is_empty());
}

#[test]
fn send_requests_trim_and_drop_empty_tags_and_keys() {
    assert!(send_request("  ", "tag", "key", b"body".to_vec()).is_none());
    let request = send_request(" orders ", "  ", " k1 ", b" raw ".to_vec()).expect("topic given");
    assert_eq!("orders", request.topic);
    assert_eq!(None, request.tag);
    assert_eq!(Some("k1".to_string()), request.key);
    assert_eq!(b" raw ".to_vec(), request.body);
}

#[test]
fn message_queries_check_what_each_mode_needs() {
    assert_eq!(
        Err(MessageQueryProblem::TopicRequired),
        message_query(QueryMode::Key, " ", None, None, "k", "", 1, 10)
    );
    assert_eq!(
        Err(MessageQueryProblem::InvalidTime),
        message_query(QueryMode::TimeWindow, "t", Some(1), None, "", "", 1, 10)
    );
    assert_eq!(
        Ok(MessageQuery::ByTimeWindow { topic: "t".into(), begin_unix_ms: 1, end_unix_ms: 2, page: 3, page_size: 20 }),
        message_query(QueryMode::TimeWindow, " t ", Some(1), Some(2), "", "", 3, 20)
    );
    assert_eq!(
        Err(MessageQueryProblem::KeyRequired),
        message_query(QueryMode::Key, "t", None, None, "  ", "id", 1, 10)
    );
    assert_eq!(
        Ok(MessageQuery::ByKey { topic: "t".into(), key: "k".into() }),
        message_query(QueryMode::Key, "t", None, None, " k ", "", 1, 10)
    );
    assert_eq!(
        Err(MessageQueryProblem::MessageIdRequired),
        message_query(QueryMode::Id, "t", None, None, "k", "", 1, 10)
    );
    assert_eq!(
        Ok(MessageQuery::ById { topic: "t".into(), message_id: "AC11".into() }),
        message_query(QueryMode::Id, "t", None, None, "", "AC11 ", 1, 10)
    );
}

#[test]
fn typed_time_windows_are_read_in_local_time() {
    assert_eq!(
        Err(MessageQueryProblem::InvalidTime),
        build_message_query(QueryMode::TimeWindow, "t", "2025/01/02", "2025-01-02 09:00", "", "", 1, 10)
    );
    match build_message_query(QueryMode::TimeWindow, "t", " 2025-01-02 08:00 ", "2025-01-02 09:00", "", "", 1, 10) {
        Ok(MessageQuery::ByTimeWindow { begin_unix_ms, end_unix_ms, .. }) => {
            assert_eq!(3_600_000, end_unix_ms - begin_unix_ms)
        }
        other => panic!("unexpected {other:?}"),
    }
    assert_eq!(
        Ok(MessageQuery::ByKey { topic: "t".into(), key: "k".into() }),
        build_message_query(QueryMode::Key, "t", "bad", "bad", "k", "", 1, 10)
    );
}

fn message() -> MessageSummary {
    MessageSummary {
        message_id: "AC110001".to_string(),
        topic: "orders".to_string(),
        tag: Some("created".to_string()),
        key: None,
        body: Some(b"{\"id\":1}".to_vec()),
        store_host: Some("10.0.0.1:10911".to_string()),
        born_host: None,
        store_time: Some("2026-01-02 03:04:05".to_string()),
        born_time: None,
        retry_times: Some(2),
        properties: vec![("KEYS".to_string(), "order-1".to_string()), ("TRACE_ON".to_string(), "true".to_string())],
    }
}

#[test]
fn topic_cells_show_dashes_for_missing_values() {
    let mut t = topic("orders", Some("FIFO"));
    t.queue_count = Some(16);
    t.message_count = Some(1234);
    let cells: Vec<String> = (0..7).map(|col| topic_cell(&t, col)).collect();
    assert_eq!(vec!["orders", "FIFO", "16", "-", "1234", "-", ""], cells);
}

#[test]
fn message_cells_and_details_fall_back_to_dashes() {
    let m = message();
    let cells: Vec<String> = (0..5).map(|col| message_cell(&m, col)).collect();
    assert_eq!(vec!["AC110001", "created", "-", "2026-01-02 03:04:05", ""], cells);
    assert_eq!(
        vec!["AC110001", "orders", "created", "-", "10.0.0.1:10911", "-", "2026-01-02 03:04:05", "-", "2"],
        message_detail_values(&m)
    );
}

#[test]
fn resend_starts_from_the_message() {
    let m = message();
    assert_eq!(
        ("orders".to_string(), "created".to_string(), String::new(), Some("{\"id\":1}".to_string())),
        resend_prefill(&m)
    );
    let mut binary = message();
    binary.body = Some(vec![0xC3, 0x28]);
    assert_eq!(None, resend_prefill(&binary).3);
    binary.body = None;
    assert_eq!(Some(String::new()), resend_prefill(&binary).3);
}

#[test]
fn message_details_list_their_properties() {
    assert_eq!(vec!["KEYS: order-1", "TRACE_ON: true"], message_property_lines(&message()));
    let mut bare = message();
    bare.properties = Vec::new();
    assert!(message_property_lines(&bare).is_empty());
}
