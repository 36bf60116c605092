use navop_core::line_timeline::{LineTimeline, LineTimelineSample, SharedLineTimeline};

fn sample(history_size: usize, screen_lines: usize, cursor_line: i32) -> LineTimelineSample {
    LineTimelineSample {
        history_size,
        screen_lines,
        cursor_line,
        alternate_screen: false,
        scrollback_lines: 1000,
    }
}

fn label(text: &str) -> &str {
    text
}

#[test]
fn stamps_cursor_advance_without_renumbering_earlier_lines() {
    let mut timeline = LineTimeline::default();

    timeline.observe_labelled(sample(0, 24, 0), label("10:00:00"));
    timeline.observe_labelled(sample(0, 24, 3), label("10:00:01"));

    assert_eq!(Some("10:00:00"), timeline.label(0));
    assert_eq!(Some("10:00:01"), timeline.label(3));
    assert_eq!(None, timeline.label(5));
}

#[test]
fn scrolling_stamps_new_bottom_lines_only() {
    let mut timeline = LineTimeline::default();

    timeline.observe_labelled(sample(0, 24, 23), label("10:00:00"));
    assert_eq!(Some("10:00:00"), timeline.label(23));

    timeline.observe_labelled(sample(5, 24, 23), label("10:05:00"));

    assert_eq!(Some("10:00:00"), timeline.label(23));
    assert_eq!(Some("10:05:00"), timeline.label(28));
    assert_eq!(None, timeline.label(29));
}

#[test]
fn resizing_does_not_restamp_reflowed_lines() {
    let mut timeline = LineTimeline::default();

    timeline.observe_labelled(sample(0, 24, 10), label("10:00:00"));
    assert_eq!(Some("10:00:00"), timeline.label(5));
    assert_eq!(Some("10:00:00"), timeline.label(10));

    timeline.observe_labelled(sample(2, 23, 10), label("10:00:05"));
    assert_eq!(Some("10:00:00"), timeline.label(5));
    assert_eq!(None, timeline.label(11));
    assert_eq!(None, timeline.label(12));

    timeline.observe_labelled(sample(2, 23, 14), label("10:00:06"));
    assert_eq!(Some("10:00:06"), timeline.label(14));
    assert_eq!(None, timeline.label(17));
}

#[test]
fn clearing_history_restarts_numbering() {
    let mut timeline = LineTimeline::default();

    timeline.observe_labelled(sample(500, 24, 23), label("10:00:00"));
    assert_eq!(Some("10:00:00"), timeline.label(523));

    timeline.observe_labelled(sample(0, 24, 2), label("10:01:00"));

    assert_eq!(None, timeline.label(523));
    assert_eq!(Some("10:01:00"), timeline.label(2));
}

#[test]
fn alternate_screen_is_ignored() {
    let mut timeline = LineTimeline::default();

    timeline.observe_labelled(sample(0, 24, 4), label("10:00:00"));
    let mut alt = sample(0, 24, 4);
    alt.alternate_screen = true;
    timeline.observe_labelled(alt, label("10:00:10"));

    assert_eq!(Some("10:00:00"), timeline.label(4));
    assert_eq!(None, timeline.label(9));
}

#[test]
fn old_stamps_are_trimmed_outside_scrollback_window() {
    let mut timeline = LineTimeline::default();

    timeline.observe_labelled(sample(0, 24, 0), label("10:00:00"));
    timeline.observe_labelled(sample(5000, 24, 23), label("10:10:00"));

    assert_eq!(None, timeline.label(0));
    assert_eq!(Some("10:10:00"), timeline.label(5023));
}

#[test]
fn shared_timeline_exposes_labels() {
    let mut shared = SharedLineTimeline::default();
    shared.observe(sample(0, 24, 1));

    let label = shared.label(1).expect("sampled line should have a label");
    assert_eq!(8, label.len());
    assert_eq!(Some(':'), label.chars().nth(2));
    assert_eq!(None, shared.label(9));
}

#[test]
fn stamped_lines_keep_their_label_when_more_lines_arrive() {
    let mut timeline = LineTimeline::default();
    timeline.observe_labelled(sample(0, 24, 2), label("09:00:00"));
    timeline.observe_labelled(sample(0, 24, 6), label("09:00:01"));
    timeline.observe_labelled(sample(0, 24, 6), label("09:00:02"));
    for id in 0..=2 {
        assert_eq!(Some("09:00:00"), timeline.label(id));
    }
    for id in 3..=6 {
        assert_eq!(Some("09:00:01"), timeline.label(id));
    }
    assert_eq!(None, timeline.label(7));
    assert_eq!(None, timeline.label(-1));
}

#[test]
fn a_cursor_in_the_scrollback_stamps_nothing_new() {
    let mut timeline = LineTimeline::default();
    timeline.observe_labelled(sample(10, 24, 5), label("08:00:00"));
    timeline.observe_labelled(sample(10, 24, -3), label("08:00:01"));
    assert_eq!(Some("08:00:00"), timeline.label(7));
    assert_eq!(Some("08:00:00"), timeline.label(15));
    assert_eq!(None, timeline.label(16));
}

#[test]
fn clock_labels_read_as_hours_minutes_and_seconds() {
    let mut shared = SharedLineTimeline::new();
    shared.observe(sample(0, 24, 0));
    let label = shared.label(0).expect("the first line is stamped");
    let chars: Vec<char> = label.chars().collect();
    assert_eq!(8, chars.len());
    assert_eq!(':', chars[2]);
    assert_eq!(':', chars[5]);
    for (index, ch) in chars.iter().enumerate() {
        if index != 2 && index != 5 {
            assert!(ch.is_ascii_digit());
        }
    }
}
