use std::str::FromStr;

use ctc_tracker::model::youtube_url_from_id;
use ctc_tracker::model::CtcVideo;
use ctc_tracker::model::CtcVideoCompletionRow;
use ctc_tracker::model::CtcVideoRow;
use ctc_tracker::model::VideoDuration;
use ctc_tracker::model::VideoId;
use ctc_tracker::model::VideoPublishDate;

fn sample_row() -> CtcVideoRow {
    CtcVideoRow {
        id: VideoId::new("abc123"),
        title: "A Sudoku".to_string(),
        description: "Play at https://sudokupad.app/xyz today".to_string(),
        date: 1_700_000_000_000,
        duration: 1234,
    }
}

#[test]
fn watch_url_is_prefix_plus_id() {
    assert_eq!(youtube_url_from_id("abc"), "https://www.youtube.com/watch?v=abc");
    assert_eq!(youtube_url_from_id(""), "https://www.youtube.com/watch?v=");
}

#[test]
fn video_id_holds_the_text_it_was_made_of() {
    let id = VideoId::new("dQw4w9WgXcQ");
    assert_eq!(id.0, "dQw4w9WgXcQ");
    assert_eq!(VideoId::from_str("dQw4w9WgXcQ").unwrap(), id);
    assert_eq!(id.clone(), id);
    assert_ne!(VideoId::new("a"), VideoId::new("b"));
}

#[test]
fn date_and_duration_hold_their_numbers() {
    assert_eq!(VideoPublishDate::new(-5).0, -5);
    assert_eq!(VideoDuration::new(77).0, 77);
    assert_eq!(VideoDuration::new(77), VideoDuration(77));
    assert_eq!(VideoPublishDate::new(3), VideoPublishDate(3));
}

#[test]
fn video_from_row_copies_columns_and_extracts_links() {
    let video = CtcVideo::from_row(sample_row());
    assert_eq!(video.id, VideoId::new("abc123"));
    assert_eq!(video.title, "A Sudoku");
    assert_eq!(video.description, "Play at https://sudokupad.app/xyz today");
    assert_eq!(video.date, VideoPublishDate(1_700_000_000_000));
    assert_eq!(video.duration, VideoDuration(1234));
    assert_eq!(video.extracted_links, vec!["https://sudokupad.app/xyz".to_string()]);
}

#[test]
fn video_url_is_built_from_its_id() {
    let video = CtcVideo::from_row(sample_row());
    assert_eq!(video.get_video_url(), "https://www.youtube.com/watch?v=abc123");
}

#[test]
fn cloned_video_equals_its_source_field_by_field() {
    let video = CtcVideo::from_row(sample_row());
    let copy = video.clone();
    assert_eq!(copy.id, video.id);
    assert_eq!(copy.title, video.title);
    assert_eq!(copy.description, video.description);
    assert_eq!(copy.date, video.date);
    assert_eq!(copy.duration, video.duration);
    assert_eq!(copy.extracted_links, video.extracted_links);
}

#[test]
fn completion_row_holds_id_and_flag() {
    let row = CtcVideoCompletionRow { id: VideoId::new("x"), completed: true };
    assert_eq!(row.id.0, "x");
    assert!(row.completed);
}
