use podcast_downloader::model::EpisodeStatus;
use podcast_downloader::screen::{
    inset_horizontal, is_quit_key, is_text_input_key, move_index, short_date, status_label, Area,
    KeyCode, KeyPress,
};

fn key(code: KeyCode, control: bool) -> KeyPress {
    KeyPress { code, control, alt: false, super_key: false }
}

#[test]
fn move_index_stays_in_bounds() {
    assert_eq!(move_index(0, 0, 1), 0);
    assert_eq!(move_index(0, 3, -1), 0);
    assert_eq!(move_index(1, 3, 1), 2);
    assert_eq!(move_index(2, 3, 1), 2);
}

#[test]
fn move_index_handles_extreme_steps() {
    assert_eq!(move_index(5, 10, isize::MIN), 0);
    assert_eq!(move_index(5, 10, isize::MAX), 9);
    assert_eq!(move_index(usize::MAX, 10, 1), 9);
    assert_eq!(move_index(7, 10, -3), 4);
}

#[test]
fn ctrl_c_is_a_quit_key() {
    assert!(is_quit_key(key(KeyCode::Char('c'), true)));
    assert!(!is_quit_key(key(KeyCode::Char('c'), false)));
    assert!(!is_quit_key(key(KeyCode::Char('x'), true)));
}

#[test]
fn modifiers_keep_keys_out_of_text_fields() {
    assert!(is_text_input_key(key(KeyCode::Char('a'), false)));
    assert!(!is_text_input_key(key(KeyCode::Char('a'), true)));
    assert!(!is_text_input_key(KeyPress { code: KeyCode::Char('a'), control: false, alt: true, super_key: false }));
}

#[test]
fn status_labels() {
    assert_eq!(status_label(EpisodeStatus::SkippedInitial), "skipped");
    assert_eq!(status_label(EpisodeStatus::Downloaded), "downloaded");
    assert_eq!(status_label(EpisodeStatus::Pending), "pending");
}

#[test]
fn short_dates_keep_the_day() {
    assert_eq!(short_date(Some("2026-06-29T10:00:00+00:00")).as_deref(), Some("2026-06-29"));
    assert_eq!(short_date(Some("2026")).as_deref(), Some("2026"));
    assert_eq!(short_date(None), None);
}

#[test]
fn insets_only_wide_areas() {
    let area = Area { x: 2, y: 3, width: 10, height: 1 };
    assert_eq!(inset_horizontal(area, 1), Area { x: 3, y: 3, width: 8, height: 1 });
    assert_eq!(inset_horizontal(area, 5), area);
    assert_eq!(inset_horizontal(area, 40000), area);
}
