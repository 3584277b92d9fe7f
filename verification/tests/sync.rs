use ctc_tracker::catalog::FetchError;
use ctc_tracker::catalog::PlaylistItem;
use ctc_tracker::catalog::PlaylistItemSnippet;
use ctc_tracker::catalog::PlaylistPage;
use ctc_tracker::catalog::RemoteContentDetails;
use ctc_tracker::catalog::RemoteSnippet;
use ctc_tracker::catalog::RemoteVideo;
use ctc_tracker::catalog::ResourceId;
use ctc_tracker::model::CtcVideo;
use ctc_tracker::model::CtcVideoRow;
use ctc_tracker::model::VideoId;
use ctc_tracker::sync::any_known;
use ctc_tracker::sync::is_known;
use ctc_tracker::sync::StoreError;
use ctc_tracker::sync::SyncAction;
use ctc_tracker::sync::SyncOutcome;
use ctc_tracker::sync::SyncPhase;
use ctc_tracker::sync::Synchronizer;

/// A video of the synthetic feed.
#[derive(Clone)]
struct Upload {
    id: &'static str,
    title: &'static str,
    seconds: u64,
}

fn upload(id: &'static str, seconds: u64) -> Upload {
    Upload { id, title: "A puzzle", seconds }
}

/// The remote catalog: pages of uploads, newest first, with counters of the
/// requests made.
struct Remote {
    pages: Vec<Vec<Upload>>,
    failing_page: Option<(usize, FetchError)>,
    failing_details: Option<(usize, FetchError)>,
    page_requests: usize,
    detail_requests: usize,
}

impl Remote {
    fn new(pages: Vec<Vec<Upload>>) -> Self {
        Remote { pages, failing_page: None, failing_details: None, page_requests: 0, detail_requests: 0 }
    }

    fn fetch_page(&mut self, token: Option<String>) -> Result<PlaylistPage, FetchError> {
        let index: usize = match token {
            Some(t) => t.parse().unwrap(),
            None => 0,
        };
        self.page_requests += 1;
        if let Some((failing, error)) = self.failing_page {
            if failing == index {
                return Err(error);
            }
        }
        let items = self.pages[index]
            .iter()
            .map(|u| PlaylistItem {
                snippet: Some(PlaylistItemSnippet {
                    resource_id: Some(ResourceId { video_id: Some(u.id.to_string()) }),
                }),
            })
            .collect();
        let next_page_token =
            if index + 1 < self.pages.len() { Some((index + 1).to_string()) } else { None };
        Ok(PlaylistPage { items: Some(items), next_page_token })
    }

    fn fetch_details(&mut self, ids: &Vec<VideoId>) -> Result<Vec<RemoteVideo>, FetchError> {
        let request = self.detail_requests;
        self.detail_requests += 1;
        if let Some((failing, error)) = self.failing_details {
            if failing == request {
                return Err(error);
            }
        }
        let mut details = Vec::new();
        for id in ids {
            if let Some(u) = self.pages.iter().flatten().find(|u| u.id == id.0) {
                details.push(RemoteVideo {
                    id: Some(u.id.to_string()),
                    snippet: Some(RemoteSnippet {
                        title: Some(u.title.to_string()),
                        description: Some(format!("https://sudokupad.app/{}", u.id)),
                        published_at: Some(1_000),
                    }),
                    content_details: Some(RemoteContentDetails {
                        duration: Some(format!("PT{}S", u.seconds)),
                    }),
                });
            }
        }
        Ok(details)
    }
}

/// The record store: the two tables, with a counter of writes.
struct Store {
    videos: Vec<(String, u64)>,
    flags: Vec<(String, bool)>,
    video_writes: usize,
    flag_writes: usize,
    unreadable: bool,
}

impl Store {
    fn new() -> Self {
        Store { videos: Vec::new(), flags: Vec::new(), video_writes: 0, flag_writes: 0, unreadable: false }
    }

    fn known_ids(&self) -> Vec<VideoId> {
        self.flags.iter().map(|(id, _)| VideoId::new(id)).collect()
    }

    fn read(&self) -> Result<Vec<CtcVideoRow>, StoreError> {
        if self.unreadable {
            return Err(StoreError::Read);
        }
        Ok(self
            .videos
            .iter()
            .map(|(id, seconds)| CtcVideoRow {
                id: VideoId::new(id),
                title: "A puzzle".to_string(),
                description: format!("https://sudokupad.app/{id}"),
                date: 1_000,
                duration: *seconds,
            })
            .collect())
    }

    fn persist(&mut self, video: &CtcVideo) {
        self.video_writes += 1;
        match self.videos.iter_mut().find(|(id, _)| *id == video.id.0) {
            Some(row) => row.1 = video.duration.0,
            None => self.videos.push((video.id.0.clone(), video.duration.0)),
        }
        self.flag_writes += 1;
        match self.flags.iter_mut().find(|(id, _)| *id == video.id.0) {
            Some(row) => row.1 = false,
            None => self.flags.push((video.id.0.clone(), false)),
        }
    }
}

/// Runs one pass: does what each action asks for and hands back what came
/// of it.
fn run_pass(remote: &mut Remote, store: &mut Store) -> SyncOutcome {
    let (mut pass, mut action) = Synchronizer::start(store.known_ids());
    loop {
        action = match action {
            SyncAction::FetchPage { page_token } => {
                assert_eq!(pass.phase(), SyncPhase::AwaitingPage);
                pass.on_page(remote.fetch_page(page_token))
            }
            SyncAction::FetchDetails { batches } => {
                assert_eq!(pass.phase(), SyncPhase::AwaitingDetails);
                let answers = batches.iter().map(|batch| remote.fetch_details(batch)).collect();
                pass.on_details(answers)
            }
            SyncAction::ReadStore => {
                assert_eq!(pass.phase(), SyncPhase::AwaitingStore);
                let outcome = pass.finish(store.read());
                for video in &outcome.to_persist {
                    store.persist(video);
                }
                return outcome;
            }
        };
    }
}

fn listing(videos: &Vec<CtcVideo>) -> Vec<(String, u64)> {
    videos.iter().map(|v| (v.id.0.clone(), v.duration.0)).collect()
}

fn pairs(list: &[(&str, u64)]) -> Vec<(String, u64)> {
    list.iter().map(|(id, d)| (id.to_string(), *d)).collect()
}

fn bytes_of(videos: &Vec<CtcVideo>) -> String {
    format!("{videos:?}")
}

#[test]
fn fresh_store_three_videos_on_two_pages() {
    let mut remote =
        Remote::new(vec![vec![upload("c", 300), upload("b", 100)], vec![upload("a", 200)]]);
    let mut store = Store::new();
    let outcome = run_pass(&mut remote, &mut store);
    assert_eq!(remote.page_requests, 2);
    assert_eq!(remote.detail_requests, 2);
    assert_eq!(store.video_writes, 3);
    assert_eq!(store.flag_writes, 3);
    assert_eq!(store.videos.len(), 3);
    assert_eq!(
        store.flags,
        vec![("c".to_string(), false), ("b".to_string(), false), ("a".to_string(), false)]
    );
    assert_eq!(listing(&outcome.to_persist), pairs(&[("c", 300), ("b", 100), ("a", 200)]));
    assert_eq!(listing(&outcome.delivered), pairs(&[("b", 100), ("a", 200), ("c", 300)]));
    assert!(!outcome.api_error);
    for video in &outcome.delivered {
        assert_eq!(video.extracted_links, vec![format!("https://sudokupad.app/{}", video.id.0)]);
    }
}

#[test]
fn second_pass_writes_nothing_and_delivers_the_same_list() {
    let mut remote =
        Remote::new(vec![vec![upload("c", 300), upload("b", 100)], vec![upload("a", 200)]]);
    let mut store = Store::new();
    let first = run_pass(&mut remote, &mut store);
    let writes = (store.video_writes, store.flag_writes);
    let requests = remote.page_requests;
    let second = run_pass(&mut remote, &mut store);
    assert!(second.to_persist.is_empty());
    assert_eq!((store.video_writes, store.flag_writes), writes);
    assert_eq!(bytes_of(&second.delivered), bytes_of(&first.delivered));
    assert!(remote.page_requests - requests <= requests);
    let third = run_pass(&mut remote, &mut store);
    assert!(third.to_persist.is_empty());
    assert_eq!(bytes_of(&third.delivered), bytes_of(&second.delivered));
}

#[test]
fn flagged_videos_are_never_written_again() {
    let mut remote = Remote::new(vec![vec![upload("new", 50), upload("old", 60)]]);
    let mut store = Store::new();
    store.videos.push(("old".to_string(), 60));
    store.flags.push(("old".to_string(), true));
    let outcome = run_pass(&mut remote, &mut store);
    assert_eq!(listing(&outcome.to_persist), pairs(&[("new", 50)]));
    assert_eq!(store.video_writes, 1);
    assert_eq!(store.flag_writes, 1);
    assert_eq!(store.flags, vec![("old".to_string(), true), ("new".to_string(), false)]);
    assert_eq!(listing(&outcome.delivered), pairs(&[("new", 50), ("old", 60)]));
}

#[test]
fn paging_stops_at_the_first_page_with_a_known_video() {
    for stop in 0..4usize {
        let pages: Vec<Vec<Upload>> = vec![
            vec![upload("p0a", 1), upload("p0b", 2)],
            vec![upload("p1a", 3), upload("p1b", 4)],
            vec![upload("p2a", 5), upload("p2b", 6)],
            vec![upload("p3a", 7), upload("p3b", 8)],
            vec![upload("p4a", 9), upload("p4b", 10)],
        ];
        let known = pages[stop][1].id;
        let mut remote = Remote::new(pages);
        let mut store = Store::new();
        store.flags.push((known.to_string(), false));
        let outcome = run_pass(&mut remote, &mut store);
        assert_eq!(remote.page_requests, stop + 1, "stop at page {stop}");
        assert_eq!(outcome.to_persist.len(), 2 * stop + 1);
        assert!(outcome.to_persist.iter().all(|v| v.id.0 != known));
    }
}

#[test]
fn the_page_that_stops_paging_is_still_processed() {
    let mut remote = Remote::new(vec![
        vec![upload("n1", 10)],
        vec![upload("n2", 20), upload("k", 30), upload("n3", 5)],
        vec![upload("never", 1)],
    ]);
    let mut store = Store::new();
    store.flags.push(("k".to_string(), true));
    store.videos.push(("k".to_string(), 30));
    let outcome = run_pass(&mut remote, &mut store);
    assert_eq!(remote.page_requests, 2);
    assert_eq!(listing(&outcome.to_persist), pairs(&[("n1", 10), ("n2", 20), ("n3", 5)]));
    assert_eq!(
        listing(&outcome.delivered),
        pairs(&[("n3", 5), ("n1", 10), ("n2", 20), ("k", 30)])
    );
}

#[test]
fn without_known_videos_every_page_is_fetched() {
    let mut remote = Remote::new(vec![
        vec![upload("a", 1)],
        vec![upload("b", 2)],
        vec![upload("c", 3)],
    ]);
    let mut store = Store::new();
    let outcome = run_pass(&mut remote, &mut store);
    assert_eq!(remote.page_requests, 3);
    assert_eq!(outcome.delivered.len(), 3);
}

#[test]
fn a_video_seen_earlier_in_the_pass_stops_paging() {
    let mut remote = Remote::new(vec![
        vec![upload("a", 1)],
        vec![upload("a", 1), upload("b", 2)],
        vec![upload("c", 3)],
    ]);
    let mut store = Store::new();
    let outcome = run_pass(&mut remote, &mut store);
    assert_eq!(remote.page_requests, 2);
    assert_eq!(listing(&outcome.to_persist), pairs(&[("a", 1), ("b", 2)]));
}

#[test]
fn failed_page_ends_paging_and_keeps_what_was_collected() {
    let mut remote = Remote::new(vec![
        vec![upload("a", 9)],
        vec![upload("b", 2)],
        vec![upload("c", 3)],
    ]);
    remote.failing_page = Some((1, FetchError::Transport));
    let mut store = Store::new();
    store.videos.push(("s".to_string(), 4));
    store.flags.push(("s".to_string(), false));
    let outcome = run_pass(&mut remote, &mut store);
    assert_eq!(remote.page_requests, 2);
    assert_eq!(listing(&outcome.to_persist), pairs(&[("a", 9)]));
    assert_eq!(listing(&outcome.delivered), pairs(&[("s", 4), ("a", 9)]));
    assert!(!outcome.api_error);
}

#[test]
fn api_error_on_first_page_delivers_the_store_and_is_reported() {
    let mut remote = Remote::new(vec![vec![upload("a", 9)]]);
    remote.failing_page = Some((0, FetchError::Api));
    let mut store = Store::new();
    store.videos.push(("s".to_string(), 4));
    store.flags.push(("s".to_string(), true));
    let outcome = run_pass(&mut remote, &mut store);
    assert_eq!(remote.page_requests, 1);
    assert_eq!(remote.detail_requests, 0);
    assert!(outcome.to_persist.is_empty());
    assert_eq!(listing(&outcome.delivered), pairs(&[("s", 4)]));
    assert!(outcome.api_error);
}

#[test]
fn failed_details_drop_the_batch_and_paging_goes_on() {
    let mut remote = Remote::new(vec![vec![upload("a", 9)], vec![upload("b", 2)]]);
    remote.failing_details = Some((0, FetchError::Api));
    let mut store = Store::new();
    let outcome = run_pass(&mut remote, &mut store);
    assert_eq!(remote.page_requests, 2);
    assert_eq!(listing(&outcome.to_persist), pairs(&[("b", 2)]));
    assert!(outcome.api_error);
    assert_eq!(store.flags, vec![("b".to_string(), false)]);
}

#[test]
fn unreadable_store_delivers_the_new_videos_alone() {
    let mut remote = Remote::new(vec![vec![upload("b", 7), upload("a", 3)]]);
    let mut store = Store::new();
    store.unreadable = true;
    let outcome = run_pass(&mut remote, &mut store);
    assert_eq!(listing(&outcome.delivered), pairs(&[("a", 3), ("b", 7)]));
    assert_eq!(outcome.to_persist.len(), 2);
}

#[test]
fn stored_record_without_a_flag_is_persisted_again() {
    let mut remote = Remote::new(vec![vec![upload("a", 3)]]);
    let mut store = Store::new();
    store.videos.push(("orphan".to_string(), 1));
    let outcome = run_pass(&mut remote, &mut store);
    assert_eq!(listing(&outcome.to_persist), pairs(&[("a", 3), ("orphan", 1)]));
    assert_eq!(store.flags, vec![("a".to_string(), false), ("orphan".to_string(), false)]);
    assert_eq!(listing(&outcome.delivered), pairs(&[("orphan", 1), ("a", 3)]));
}

#[test]
fn denylisted_titles_are_dropped_from_the_pass() {
    let mut remote = Remote::new(vec![vec![
        Upload { id: "w", title: "Wordle in 2", seconds: 5 },
        upload("a", 3),
        Upload { id: "q", title: "Quordle", seconds: 5 },
    ]]);
    let mut store = Store::new();
    let outcome = run_pass(&mut remote, &mut store);
    assert_eq!(listing(&outcome.delivered), pairs(&[("a", 3)]));
    assert_eq!(store.flags, vec![("a".to_string(), false)]);
}

#[test]
fn a_page_of_more_than_the_limit_is_asked_for_in_batches() {
    let (mut pass, action) = Synchronizer::start(Vec::new());
    assert!(matches!(action, SyncAction::FetchPage { page_token: None }));
    let items = (0..120)
        .map(|i| PlaylistItem {
            snippet: Some(PlaylistItemSnippet {
                resource_id: Some(ResourceId { video_id: Some(format!("v{i}")) }),
            }),
        })
        .collect();
    let action = pass.on_page(Ok(PlaylistPage { items: Some(items), next_page_token: None }));
    match action {
        SyncAction::FetchDetails { batches } => {
            let sizes: Vec<usize> = batches.iter().map(|b| b.len()).collect();
            assert_eq!(sizes, vec![50, 50, 20]);
            assert_eq!(batches[2][19], VideoId::new("v119"));
        }
        _ => panic!("details were not asked for"),
    }
    assert_eq!(pass.phase(), SyncPhase::AwaitingDetails);
    let action = pass.on_details(vec![Ok(Vec::new()), Err(FetchError::Transport), Ok(Vec::new())]);
    assert!(matches!(action, SyncAction::ReadStore));
    let outcome = pass.finish(Ok(Vec::new()));
    assert!(outcome.delivered.is_empty());
    assert!(outcome.to_persist.is_empty());
    assert!(!outcome.api_error);
}

#[test]
fn next_page_is_asked_for_with_the_token_of_the_page() {
    let (mut pass, _) = Synchronizer::start(vec![VideoId::new("known")]);
    let _ = pass.on_page(Ok(PlaylistPage {
        items: Some(Vec::new()),
        next_page_token: Some("TOKEN".to_string()),
    }));
    match pass.on_details(Vec::new()) {
        SyncAction::FetchPage { page_token } => assert_eq!(page_token, Some("TOKEN".to_string())),
        _ => panic!("the next page was not asked for"),
    }
    assert_eq!(pass.phase(), SyncPhase::AwaitingPage);
}

#[test]
fn membership_tests_compare_identifiers() {
    let known = vec![VideoId::new("a"), VideoId::new("b")];
    assert!(is_known(&known, &VideoId::new("b")));
    assert!(!is_known(&known, &VideoId::new("c")));
    assert!(!is_known(&Vec::new(), &VideoId::new("a")));
    assert!(any_known(&vec![VideoId::new("x"), VideoId::new("a")], &known));
    assert!(!any_known(&vec![VideoId::new("x")], &known));
    assert!(!any_known(&Vec::new(), &known));
}
