use ctc_tracker::flags::CompletionFlags;
use ctc_tracker::flags::FlagError;
use ctc_tracker::grid::GridPhase;
use ctc_tracker::grid::GridStep;
use ctc_tracker::grid::VideoGrid;
use ctc_tracker::model::CtcVideo;
use ctc_tracker::model::CtcVideoCompletionRow;
use ctc_tracker::model::CtcVideoRow;
use ctc_tracker::model::VideoId;

fn row(id: &str, completed: bool) -> CtcVideoCompletionRow {
    CtcVideoCompletionRow { id: VideoId::new(id), completed }
}

fn video(id: &str, title: &str, description: &str) -> CtcVideo {
    CtcVideo::from_row(CtcVideoRow {
        id: VideoId::new(id),
        title: title.to_string(),
        description: description.to_string(),
        date: 0,
        duration: 60,
    })
}

fn loaded_grid() -> VideoGrid {
    let mut grid = VideoGrid::new(Some("key".to_string()));
    assert!(matches!(grid.tick(), GridStep::LoadFlags));
    grid.on_flags(CompletionFlags::from_rows(vec![row("done", true), row("open", false)]));
    assert!(matches!(grid.tick(), GridStep::LoadCatalog { .. }));
    grid.on_catalog(
        vec![
            video("done", "Solved Sudoku", "https://sudokupad.app/1"),
            video("open", "Open SUDOKU", "https://sudokupad.app/2"),
            video("bare", "No link chess", "nothing"),
            video("fresh", "Fresh Killer", "https://sudokupad.app/3"),
        ],
        None,
    );
    grid
}

#[test]
fn flags_from_rows_let_the_later_row_win() {
    let flags = CompletionFlags::from_rows(vec![row("a", false), row("b", true), row("a", true)]);
    assert_eq!(flags.len(), 2);
    assert_eq!(flags.get(&VideoId::new("a")), Some(true));
    assert_eq!(flags.get(&VideoId::new("b")), Some(true));
    assert_eq!(flags.get(&VideoId::new("c")), None);
    assert!(flags.contains(&VideoId::new("a")));
    assert!(!flags.contains(&VideoId::new("c")));
}

#[test]
fn new_flags_are_empty() {
    let flags = CompletionFlags::new();
    assert_eq!(flags.len(), 0);
    assert!(flags.known_ids().is_empty());
    assert_eq!(flags.get(&VideoId::new("a")), None);
}

#[test]
fn toggling_an_unknown_video_is_turned_down() {
    let mut flags = CompletionFlags::from_rows(vec![row("a", false)]);
    assert_eq!(flags.set(&VideoId::new("zz"), true), Err(FlagError::UnknownVideo));
    assert_eq!(flags.get(&VideoId::new("zz")), None);
    assert_eq!(flags.len(), 1);
    assert_eq!(flags.get(&VideoId::new("a")), Some(false));
    let mut empty = CompletionFlags::new();
    assert_eq!(empty.set(&VideoId::new("a"), true), Err(FlagError::UnknownVideo));
    assert_eq!(empty.len(), 0);
}

#[test]
fn toggling_a_known_video_changes_its_flag_only() {
    let mut flags = CompletionFlags::from_rows(vec![row("a", false), row("b", false)]);
    assert_eq!(flags.set(&VideoId::new("a"), true), Ok(()));
    assert_eq!(flags.get(&VideoId::new("a")), Some(true));
    assert_eq!(flags.get(&VideoId::new("b")), Some(false));
    assert_eq!(flags.set(&VideoId::new("a"), false), Ok(()));
    assert_eq!(flags.get(&VideoId::new("a")), Some(false));
    assert_eq!(flags.len(), 2);
}

#[test]
fn ensure_adds_a_flag_only_where_none_is() {
    let mut flags = CompletionFlags::from_rows(vec![row("a", true)]);
    flags.ensure(&VideoId::new("a"));
    flags.ensure(&VideoId::new("b"));
    assert_eq!(flags.get(&VideoId::new("a")), Some(true));
    assert_eq!(flags.get(&VideoId::new("b")), Some(false));
    assert_eq!(flags.known_ids(), vec![VideoId::new("a"), VideoId::new("b")]);
}

#[test]
fn grid_toggle_of_unknown_video_changes_nothing() {
    let mut grid = loaded_grid();
    assert_eq!(
        grid.set_completion_status(&VideoId::new("missing"), true),
        Err(FlagError::UnknownVideo)
    );
    assert_eq!(grid.flags().get(&VideoId::new("missing")), None);
    assert_eq!(grid.flags().len(), 4);
    assert_eq!(grid.set_completion_status(&VideoId::new("open"), true), Ok(()));
    assert_eq!(grid.flags().get(&VideoId::new("open")), Some(true));
}

#[test]
fn without_a_key_nothing_is_loaded() {
    let mut grid = VideoGrid::new(None);
    assert!(!grid.has_api_key());
    assert!(matches!(grid.tick(), GridStep::NeedApiKey));
    assert_eq!(grid.phase(), GridPhase::NeedFlags);
    grid.set_api_key(Some("k".to_string()));
    assert!(grid.has_api_key());
    assert_eq!(grid.api_key(), &Some("k".to_string()));
    assert!(matches!(grid.tick(), GridStep::LoadFlags));
}

#[test]
fn flags_are_loaded_before_the_catalog() {
    let mut grid = VideoGrid::new(Some("key".to_string()));
    assert!(!grid.ready());
    assert!(matches!(grid.tick(), GridStep::LoadFlags));
    assert_eq!(grid.phase(), GridPhase::LoadingFlags);
    assert!(matches!(grid.tick(), GridStep::Wait));
    grid.on_catalog(vec![video("early", "t", "")], None);
    assert!(grid.videos().is_empty());
    assert_eq!(grid.phase(), GridPhase::LoadingFlags);
    grid.on_flags(CompletionFlags::from_rows(vec![row("a", true), row("b", false)]));
    assert_eq!(grid.phase(), GridPhase::NeedCatalog);
    match grid.tick() {
        GridStep::LoadCatalog { known_ids } => {
            assert_eq!(known_ids, vec![VideoId::new("a"), VideoId::new("b")]);
        }
        _ => panic!("the catalog was not asked for"),
    }
    assert_eq!(grid.phase(), GridPhase::LoadingCatalog);
    assert!(matches!(grid.tick(), GridStep::Wait));
    grid.on_flags(CompletionFlags::new());
    assert_eq!(grid.flags().len(), 2);
    grid.on_catalog(vec![video("a", "t", ""), video("c", "t", "")], None);
    assert!(grid.ready());
    assert!(matches!(grid.tick(), GridStep::Show));
    assert!(matches!(grid.tick(), GridStep::Show));
    assert_eq!(grid.videos().len(), 2);
}

#[test]
fn delivered_videos_get_a_flag_if_they_have_none() {
    let grid = loaded_grid();
    assert_eq!(grid.flags().get(&VideoId::new("done")), Some(true));
    assert_eq!(grid.flags().get(&VideoId::new("open")), Some(false));
    assert_eq!(grid.flags().get(&VideoId::new("bare")), Some(false));
    assert_eq!(grid.flags().get(&VideoId::new("fresh")), Some(false));
    assert!(grid.is_completed(&grid.videos()[0]));
    assert!(!grid.is_completed(&grid.videos()[3]));
}

#[test]
fn an_empty_delivery_does_not_start_another_pass() {
    let mut grid = VideoGrid::new(Some("key".to_string()));
    let _ = grid.tick();
    grid.on_flags(CompletionFlags::new());
    let _ = grid.tick();
    grid.on_catalog(Vec::new(), None);
    assert!(grid.ready());
    assert!(matches!(grid.tick(), GridStep::Show));
}

#[test]
fn refresh_asks_for_the_catalog_again() {
    let mut grid = loaded_grid();
    grid.refresh_videos();
    assert_eq!(grid.phase(), GridPhase::NeedCatalog);
    match grid.tick() {
        GridStep::LoadCatalog { known_ids } => assert_eq!(known_ids.len(), 4),
        _ => panic!("the catalog was not asked for"),
    }
    grid.refresh_videos();
    assert_eq!(grid.phase(), GridPhase::LoadingCatalog);
}

#[test]
fn api_error_is_kept_until_cleared() {
    let mut grid = VideoGrid::new(Some("key".to_string()));
    let _ = grid.tick();
    grid.on_flags(CompletionFlags::new());
    let _ = grid.tick();
    grid.on_catalog(Vec::new(), Some("bad key".to_string()));
    assert_eq!(grid.api_error(), &Some("bad key".to_string()));
    grid.refresh_videos();
    let _ = grid.tick();
    grid.on_catalog(Vec::new(), None);
    assert_eq!(grid.api_error(), &Some("bad key".to_string()));
    grid.set_api_error(None);
    assert_eq!(grid.api_error(), &None);
}

#[test]
fn default_filters_hide_completed_and_linkless_videos() {
    let grid = loaded_grid();
    assert_eq!(grid.visible_rows(), vec![1, 3]);
    assert!(!grid.shows(&grid.videos()[0]));
    assert!(grid.shows(&grid.videos()[1]));
    assert!(!grid.shows(&grid.videos()[2]));
}

#[test]
fn filter_switches_let_more_videos_through() {
    let mut grid = loaded_grid();
    grid.show_completed_videos = true;
    assert_eq!(grid.visible_rows(), vec![0, 1, 3]);
    grid.show_without_links = true;
    assert_eq!(grid.visible_rows(), vec![0, 1, 2, 3]);
    grid.show_completed_videos = false;
    assert_eq!(grid.visible_rows(), vec![1, 2, 3]);
}

#[test]
fn filter_text_matches_titles_without_regard_to_case() {
    let mut grid = loaded_grid();
    grid.show_completed_videos = true;
    grid.show_without_links = true;
    grid.filter_text = "sudoku".to_string();
    assert_eq!(grid.visible_rows(), vec![0, 1]);
    grid.filter_text = "KILLER".to_string();
    assert_eq!(grid.visible_rows(), vec![3]);
    grid.filter_text = "ÉCOLE".to_string();
    assert!(grid.visible_rows().is_empty());
    grid.filter_text = "o".to_string();
    assert_eq!(grid.visible_rows(), vec![0, 1, 2]);
    grid.filter_text = " ".to_string();
    assert_eq!(grid.visible_rows(), vec![0, 1, 2, 3]);
}
