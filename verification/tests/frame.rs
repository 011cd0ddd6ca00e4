use kyuri::frame::compose;
use kyuri::frame::push_erase;
use kyuri::frame::Mode;
use kyuri::state::BarState;

const ERASE: &str = "\x1b[F\r\x1b[K";

fn bars() -> Vec<BarState> {
    vec![
        BarState::new(10, "first", "1:{msg}", true, 0),
        BarState::new(10, "second", "2:{msg}", false, 0),
        BarState::new(10, "third", "3:{msg}\n{pos}", true, 0),
    ]
}

#[test]
fn erasing_rows_moves_up_and_clears_each() {
    let mut out = String::from("x");
    push_erase(&mut out, 0);
    assert_eq!(out, "x");
    push_erase(&mut out, 1);
    assert_eq!(out, format!("x{}", ERASE));
    push_erase(&mut out, 3);
    assert_eq!(out, format!("x{}", ERASE.repeat(4)));
}

#[test]
fn an_appended_frame_holds_the_visible_bars_that_changed() {
    let mut states = bars();
    states[0].need_redraw = false;
    let (frame, lines) = compose(&mut states, 7, 0, Mode::Append);
    assert_eq!(frame, "3:third\n0\n");
    assert_eq!(lines, 7);
    assert!(!states[0].need_redraw);
    assert!(states[1].need_redraw);
    assert!(!states[2].need_redraw);
}

#[test]
fn an_appended_frame_with_nothing_changed_is_empty() {
    let mut states = bars();
    compose(&mut states, 0, 0, Mode::Append);
    let (frame, lines) = compose(&mut states, 3, 1, Mode::Append);
    assert_eq!(frame, "");
    assert_eq!(lines, 3);
}

#[test]
fn a_terminal_frame_erases_and_holds_every_visible_bar() {
    let mut states = bars();
    states[0].need_redraw = false;
    let (frame, lines) = compose(&mut states, 2, 0, Mode::Terminal(80));
    assert_eq!(frame, format!("{}1:first\n3:third\n0\n", ERASE.repeat(2)));
    assert_eq!(lines, 3);
    assert!(!states[0].need_redraw);
    assert!(states[1].need_redraw);
    assert!(!states[2].need_redraw);
}

#[test]
fn a_terminal_frame_wraps_at_the_width() {
    let mut states = bars();
    // "1:first" and "3:third" take two rows of four columns each, "0" one.
    let (_, lines) = compose(&mut states, 0, 0, Mode::Terminal(4));
    assert_eq!(lines, 5);
    let (_, lines) = compose(&mut states, 0, 0, Mode::Terminal(0));
    assert_eq!(lines, 3);
}

#[test]
fn a_terminal_frame_without_bars_is_empty() {
    let mut states: Vec<BarState> = Vec::new();
    let (frame, lines) = compose(&mut states, 5, 0, Mode::Terminal(80));
    assert_eq!(frame, "");
    assert_eq!(lines, 0);
}

#[test]
fn a_terminal_frame_of_invisible_bars_only_erases() {
    let mut states = vec![BarState::new(10, "hidden", "{msg}", false, 0)];
    let (frame, lines) = compose(&mut states, 2, 0, Mode::Terminal(80));
    assert_eq!(frame, ERASE.repeat(2));
    assert_eq!(lines, 0);
    assert!(states[0].need_redraw);
}
