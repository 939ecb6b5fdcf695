use indicate::color::Color;
use indicate::error::ErrorKind;
use indicate::render::{fill_width, plan_bar, BarPlan, SCALE};
use indicate::state::{Progress, Shared, State, UpdateMsg};

#[test]
fn defaults() {
    let st = State::new();
    assert_eq!(st.text, "");
    assert_eq!(st.font, "Sans 12");
    assert_eq!(st.color, Color(255, 255, 255, 255));
    assert!(st.right_aligned);
    assert_eq!(st.progress, Progress::Indeterminate);
    assert_eq!(st.indeterminate_speed, 1);
    assert_eq!(st.progress_current, 0);
    assert_eq!(st.progress_max, 100);
    assert!(!st.has_text());
}

#[test]
fn update_sets_one_field() {
    let mut st = State::new();
    st.update(UpdateMsg::ProgressCurrent(200));
    assert_eq!(st.progress_current, 200);
    assert_eq!(st.progress_max, 100);
    st.update(UpdateMsg::Font("Mono 9".to_string()));
    assert_eq!(st.font, "Mono 9");
    assert_eq!(st.text, "");
    st.update(UpdateMsg::Text("hi".to_string()));
    assert!(st.has_text());
    st.update(UpdateMsg::Color(Color(1, 2, 3, 4)));
    assert_eq!(st.color, Color(1, 2, 3, 4));
    st.update(UpdateMsg::IndeterminateSpeed(5));
    assert_eq!(st.indeterminate_speed, 5);
    st.update(UpdateMsg::Progress(Progress::Hidden));
    assert_eq!(st.progress, Progress::Hidden);
}

#[test]
fn failed_line_changes_nothing() {
    let mut st = State::new();
    st.apply_line("Working").unwrap();
    let e = st.apply_line("\\progress_max=lots").unwrap_err();
    assert_eq!(e.kind, ErrorKind::InvalidNumber);
    assert_eq!(st.text, "Working");
    assert_eq!(st.progress_max, 100);
}

#[test]
fn half_fill() {
    let mut st = State::new();
    st.update(UpdateMsg::Progress(Progress::Determinate));
    st.update(UpdateMsg::ProgressMax(50));
    st.update(UpdateMsg::ProgressCurrent(25));
    assert_eq!(plan_bar(&st, 180, 0), BarPlan::Fill { width: 90 * SCALE });
    let frac = fill_width(st.progress_current, st.progress_max, 180) as f64 / (180 * SCALE) as f64;
    assert_eq!(frac, 0.5);
}

#[test]
fn end_to_end() {
    let mut st = State::new();
    for line in ["Building", "\\progress=determinate", "\\progress_max=10", "\\progress_current=3"] {
        st.apply_line(line).unwrap();
    }
    assert_eq!(st.text, "Building");
    assert_eq!(st.progress, Progress::Determinate);
    assert_eq!(st.progress_current, 3);
    assert_eq!(st.progress_max, 10);
    let w = fill_width(st.progress_current, st.progress_max, 100);
    assert_eq!(w, 30 * SCALE);
    assert!((w as f64 / (100 * SCALE) as f64 - 0.3).abs() < 1e-12);
}

#[test]
fn bootstrap_replays_lines() {
    let st = State::from_bootstrap("\\font=Mono 10\r\n\\color=#00ff0080\n\nready\n").unwrap();
    assert_eq!(st.font, "Mono 10");
    assert_eq!(st.color, Color(0, 255, 0, 128));
    assert_eq!(st.text, "ready");
    let st = State::from_bootstrap("").unwrap();
    assert_eq!(st.text, "");
    assert_eq!(st.font, "Sans 12");
    let st = State::from_bootstrap("a\n\n").unwrap();
    assert_eq!(st.text, "");
    let st = State::from_bootstrap("a\nb").unwrap();
    assert_eq!(st.text, "b");
}

#[test]
fn bootstrap_stops_at_bad_line() {
    let e = State::from_bootstrap("one\n\\size=3\nthree\n").unwrap_err();
    assert_eq!(e.kind, ErrorKind::UnknownAttribute);
    assert_eq!(e.subject, "size");
}

#[test]
fn snapshots_see_whole_updates() {
    let mut shared = Shared::new(State::new());
    shared.apply_line("first").unwrap();
    let before = shared.snapshot();
    shared.update(UpdateMsg::Text("second".to_string()));
    let after = shared.snapshot();
    assert_eq!(before.text, "first");
    assert_eq!(after.text, "second");
    assert_eq!(after.font, before.font);
    assert!(shared.apply_line("\\progress=sideways").is_err());
    assert_eq!(shared.snapshot().text, "second");
    let copy = after.snapshot();
    assert_eq!(copy.text, "second");
    assert_eq!(copy.progress_max, 100);
}
