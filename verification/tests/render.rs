use kyuri::state::BarState;
use kyuri::state::Status;

const SECOND: u64 = 1_000_000_000;

fn bar(len: u64, pos: u64, template: &str) -> BarState {
    let mut state = BarState::new(len, "Downloading", template, true, 0);
    state.pos = pos;
    state
}

#[test]
fn a_new_bar_starts_at_zero_and_is_due() {
    let state = BarState::new(100, "Downloading", "{msg}", false, 17);
    assert_eq!(state.len, 100);
    assert_eq!(state.pos, 0);
    assert_eq!(state.message, "Downloading");
    assert_eq!(state.created_at, 17);
    assert!(!state.visible);
    assert!(state.need_redraw);
}

#[test]
fn text_and_message() {
    assert_eq!(bar(100, 0, "").render(0), "");
    assert_eq!(bar(100, 0, "plain").render(0), "plain");
    assert_eq!(bar(100, 0, "{msg}").render(0), "Downloading");
    assert_eq!(bar(100, 0, "<{message}>").render(0), "<Downloading>");
    assert_eq!(bar(100, 0, "a\nb").render(0), "a\nb");
}

#[test]
fn doubled_braces_render_as_single_braces() {
    assert_eq!(bar(100, 0, "{{}}").render(0), "{}");
    assert_eq!(bar(100, 0, "{{msg}}").render(0), "{msg}");
    assert_eq!(bar(100, 0, "a{{b}}c{{").render(0), "a{b}c{");
}

#[test]
fn unknown_tags_render_verbatim() {
    assert_eq!(bar(100, 0, "{nope}").render(0), "{nope}");
    assert_eq!(bar(100, 0, "{msg}{nope}{pos}").render(0), "Downloading{nope}0");
    assert_eq!(bar(100, 0, "{barx}").render(0), "{barx}");
    assert_eq!(bar(100, 0, "tail{msg").render(0), "tail{msg");
}

#[test]
fn position_and_length() {
    assert_eq!(bar(100, 50, "{pos}/{len}").render(0), "50/100");
    assert_eq!(bar(100, 50, "{pos}/{total}").render(0), "50/100");
    assert_eq!(
        bar(u64::MAX, u64::MAX, "{pos}").render(0),
        "18446744073709551615"
    );
    assert_eq!(
        bar(2048, 1536, "{bytes}/{total_bytes}").render(0),
        "1.50 KiB/2.00 KiB"
    );
}

#[test]
fn elapsed_counts_whole_seconds_since_creation() {
    assert_eq!(bar(100, 0, "{elapsed}").render(0), "0:00:00");
    assert_eq!(bar(100, 0, "{elapsed}").render(SECOND - 1), "0:00:00");
    assert_eq!(bar(100, 0, "{elapsed}").render(SECOND), "0:00:01");
    assert_eq!(bar(100, 0, "{elapsed_precise}").render(3661 * SECOND), "1:01:01");
}

#[test]
fn elapsed_is_zero_when_the_clock_reads_earlier_than_at_creation() {
    let state = BarState::new(100, "", "{elapsed} {bytes_per_sec}", true, 10 * SECOND);
    assert_eq!(state.elapsed_nanos(5 * SECOND), 0);
    assert_eq!(state.render(5 * SECOND), "0:00:00 0 B/s");
}

#[test]
fn throughput_is_position_per_second() {
    assert_eq!(bar(100, 50, "{bytes_per_sec}").render(SECOND), "50 B/s");
    assert_eq!(bar(100, 50, "{bytes_per_second}").render(2 * SECOND), "25 B/s");
    assert_eq!(bar(4096, 1536, "{bytes_per_sec}").render(SECOND), "1.50 KiB/s");
    assert_eq!(bar(100, 50, "{bytes_per_sec}").render(SECOND / 2), "100 B/s");
    assert_eq!(bar(100, 1, "{bytes_per_sec}").render(3 * SECOND), "0 B/s");
    assert_eq!(bar(100, 50, "").bytes_per_second(SECOND / 2), 100);
}

#[test]
fn throughput_with_no_time_elapsed_is_held() {
    assert_eq!(bar(100, 0, "{bytes_per_sec}").render(0), "0 B/s");
    assert_eq!(bar(100, 1, "").bytes_per_second(0), u64::MAX);
    assert_eq!(
        bar(100, 1, "{bytes_per_sec}").render(0),
        "16777216.00 TiB/s"
    );
    assert_eq!(bar(u64::MAX, u64::MAX, "").bytes_per_second(1), u64::MAX);
}

#[test]
fn eta_is_unknown_at_position_zero() {
    assert_eq!(bar(100, 0, "{eta}").render(0), "Unknown");
    assert_eq!(bar(100, 0, "{eta}").render(60 * SECOND), "Unknown");
    assert_eq!(bar(0, 0, "{eta}").render(60 * SECOND), "Unknown");
}

#[test]
fn eta_is_the_rest_at_the_speed_so_far() {
    assert_eq!(bar(100, 25, "{eta}").render(10 * SECOND), "0:00:30");
    assert_eq!(bar(100, 50, "{eta}").render(3600 * SECOND), "1:00:00");
    assert_eq!(bar(100, 99, "{eta}").render(10 * SECOND), "0:00:00");
    assert_eq!(bar(100, 100, "{eta}").render(10 * SECOND), "0:00:00");
    assert_eq!(bar(100, 50, "{eta}").render(0), "0:00:00");
    assert_eq!(bar(100, 25, "").eta_seconds(10 * SECOND), Some(30));
    assert_eq!(bar(100, 100, "").eta_seconds(10 * SECOND), Some(0));
    assert_eq!(bar(100, 0, "").eta_seconds(10 * SECOND), None);
    assert_eq!(bar(u64::MAX, 1, "").eta_seconds(u64::MAX), Some(u64::MAX));
}

#[test]
fn eta_past_the_length_is_zero() {
    assert_eq!(bar(10, 15, "{eta}").render(10 * SECOND), "0:00:00");
    assert_eq!(bar(0, 1, "{eta}").render(10 * SECOND), "0:00:00");
}

#[test]
fn bar_glyph_fills_in_proportion() {
    assert_eq!(bar(100, 0, "{bar}").render(0), "[                    ]");
    assert_eq!(bar(100, 50, "{bar}").render(0), "[==========          ]");
    assert_eq!(bar(100, 100, "{bar}").render(0), "[====================]");
    assert_eq!(bar(100, 50, "{bar10}").render(0), "[=====     ]");
    assert_eq!(bar(3, 1, "{bar10}").render(0), "[===       ]");
    assert_eq!(bar(3, 2, "{bar10}").render(0), "[======    ]");
    assert_eq!(bar(100, 99, "{bar10}").render(0), "[========= ]");
    assert_eq!(bar(100, 50, "{bar0}").render(0), "[]");
    assert_eq!(bar(100, 50, "{bar1}").render(0), "[ ]");
}

#[test]
fn bar_glyph_past_the_length_marks_the_overflow() {
    assert_eq!(bar(10, 15, "{bar10}").render(0), "[==========!!!!!");
    assert_eq!(bar(10, 15, "{bar}").render(0), "[====================!!!!!!!!!!");
    assert_eq!(bar(10, 20, "{bar4}").render(0), "[====!!!!");
    // Eleven of ten fill five of five columns and no more.
    assert_eq!(bar(10, 11, "{bar5}").render(0), "[=====]");
    assert_eq!(bar(10, 15, "{bar0}").render(0), "[]");
}

#[test]
fn bar_glyph_of_a_zero_length() {
    assert_eq!(bar(0, 0, "{bar5}").render(0), "[     ]");
    assert_eq!(bar(0, 1, "{bar5}").render(0), "[=====!");
    assert_eq!(bar(0, u64::MAX, "{bar5}").render(0), "[=====!");
    assert_eq!(bar(0, 7, "{bar0}").render(0), "[!");
}

#[test]
fn overflow_shows_in_glyph_and_status() {
    let state = bar(10, 15, "{bar10} {state_emoji}");
    assert_eq!(state.status(), Status::Overflow);
    assert_eq!(state.render(0), "[==========!!!!! \u{1F4A5}");
}

#[test]
fn status_follows_the_position() {
    assert_eq!(bar(100, 0, "").status(), Status::New);
    assert_eq!(bar(100, 1, "").status(), Status::InProgress);
    assert_eq!(bar(100, 99, "").status(), Status::InProgress);
    assert_eq!(bar(100, 100, "").status(), Status::Done);
    assert_eq!(bar(100, 101, "").status(), Status::Overflow);
    assert_eq!(bar(100, 0, "{state_emoji}").render(0), "\u{1F195}");
    assert_eq!(bar(100, 1, "{state_emoji}").render(0), "\u{23F3}");
    assert_eq!(bar(100, 100, "{state_emoji}").render(0), "\u{2705}");
    assert_eq!(bar(100, 101, "{state_emoji}").render(0), "\u{1F4A5}");
}

#[test]
fn a_bar_of_zero_length_at_zero_is_new_not_done() {
    assert_eq!(bar(0, 0, "").status(), Status::New);
    assert_eq!(bar(0, 0, "{state_emoji}").render(0), "\u{1F195}");
    assert_eq!(bar(0, 1, "").status(), Status::Overflow);
}

#[test]
fn a_bar_advances_from_new_to_done() {
    let mut state = BarState::new(100, "job", "{state_emoji} {bar10} {pos}/{len}", true, 0);
    assert_eq!(state.status(), Status::New);
    assert_eq!(state.render(SECOND), "\u{1F195} [          ] 0/100");
    state.pos = 50;
    assert_eq!(state.status(), Status::InProgress);
    assert_eq!(state.render(SECOND), "\u{23F3} [=====     ] 50/100");
    state.pos = 100;
    assert_eq!(state.status(), Status::Done);
    assert_eq!(state.render(SECOND), "\u{2705} [==========] 100/100");
}

#[test]
fn the_usual_download_template_renders() {
    let state = bar(
        4096,
        1024,
        "{msg}\n[{elapsed}] {bytes}/{total_bytes} ({bytes_per_sec}, {eta})",
    );
    assert_eq!(
        state.render(2 * SECOND),
        "Downloading\n[0:00:02] 1.00 KiB/4.00 KiB (512 B/s, 0:00:06)"
    );
}

#[test]
fn a_message_with_braces_is_not_compiled() {
    let mut state = bar(100, 5, "{msg}");
    state.message = "{pos}".to_string();
    assert_eq!(state.render(0), "{pos}");
}
