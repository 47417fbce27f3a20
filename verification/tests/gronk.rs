use mu::gronk::app::browser::{Browser, Lookup};
use mu::gronk::app::{App, EnterRequest, MouseKind};
use mu::gronk::modes::UiMode;
use mu::gronk::app::config::Config;
use mu::gronk::app::queue::Queue as AppQueue;
use mu::gronk::app::search::{Search, SearchMode as SearchScreenMode};
use mu::gronk::index::Index;
use mu::gronk::modes::{BrowserMode, SearchMode};
use mu::gronk::queue::{PlayerAction, Queue};
use mu::gronk_types::{Song as GronkSong, TagKey};
use std::time::Duration;

#[test]
fn index_wraps_both_ways() {
    let mut i = Index::new(Some(0));
    i.up(3);
    assert_eq!(i.selected(), Some(2));
    i.down(3);
    assert_eq!(i.selected(), Some(0));
    i.down(3);
    assert_eq!(i.selected(), Some(1));
    let mut none = Index::default();
    none.up(3);
    assert!(none.is_none());
}

#[test]
fn browser_modes_stop_at_ends() {
    let mut m = BrowserMode::Artist;
    m.prev();
    assert_eq!(m, BrowserMode::Artist);
    m.next();
    assert_eq!(m, BrowserMode::Album);
    m.next();
    m.next();
    assert_eq!(m, BrowserMode::Song);
    m.prev();
    assert_eq!(m, BrowserMode::Album);
}

#[test]
fn search_mode_toggles_and_resets() {
    let mut m = SearchMode::Search;
    m.next();
    assert_eq!(m, SearchMode::Select);
    m.next();
    assert_eq!(m, SearchMode::Search);
    m.next();
    m.reset();
    assert_eq!(m, SearchMode::Search);
}

#[test]
fn first_queue_starts_on_add_and_steps_backwards() {
    let mut q: Queue<u32> = Queue::new();
    assert!(matches!(q.add(vec![10, 20, 30]), PlayerAction::Play(0)));
    assert_eq!(q.now_playing, Some(0));
    assert!(matches!(q.add(vec![40]), PlayerAction::Nothing));
    q.next();
    assert_eq!(q.now_playing, Some(3));
    q.prev();
    assert_eq!(q.now_playing, Some(0));
    q.update(false);
    assert_eq!(q.now_playing, Some(3));
    assert!(matches!(q.clear(), PlayerAction::Stop));
    assert!(q.songs.is_empty());
    assert_eq!(q.now_playing, None);
}

#[test]
fn app_queue_plays_and_deletes() {
    let mut q: AppQueue<&str> = AppQueue::new();
    assert!(matches!(q.add(vec!["a", "b", "c"]), PlayerAction::Play(0)));
    assert!(matches!(q.next(), PlayerAction::Play(1)));
    assert!(matches!(q.prev(), PlayerAction::Play(0)));
    assert!(matches!(q.prev(), PlayerAction::Play(2)));
    assert_eq!(q.get_playing(), Some(&"c"));
    // delete the first row while the last plays: playing moves up with it
    q.ui.select(Some(0));
    assert!(matches!(q.delete_selected(), PlayerAction::Play(1)));
    assert_eq!(q.list.data, vec!["b", "c"]);
    assert_eq!(q.get_playing(), Some(&"c"));
    q.ui.select(Some(1));
    assert!(matches!(q.select(), PlayerAction::Play(1)));
    assert!(matches!(q.clear(), PlayerAction::Stop));
    assert!(q.is_empty());
}

#[test]
fn app_queue_update_advances_after_finish() {
    let mut q: AppQueue<u8> = AppQueue::new();
    q.add(vec![1, 2]);
    assert!(matches!(q.update(true), PlayerAction::Nothing));
    assert!(matches!(q.update(false), PlayerAction::Play(1)));
    assert!(matches!(q.update(false), PlayerAction::Nothing));
}

#[test]
fn app_queue_column_widths_move() {
    let mut q: AppQueue<u8> = AppQueue::new();
    assert_eq!(q.constraint, [8, 42, 24, 26]);
    q.move_constraint('1', false);
    assert_eq!(q.constraint, [9, 41, 24, 26]);
    q.move_constraint('3', true);
    assert_eq!(q.constraint, [9, 41, 23, 27]);
    assert_eq!(q.constraint.iter().map(|&c| c as u32).sum::<u32>(), 100);
}

#[test]
fn search_screen_typing_and_picking() {
    let mut s: Search<&str> = Search::new();
    assert!(s.is_empty());
    assert!(s.empty_cursor());
    assert!(s.get_songs().is_none());
    assert_eq!(s.mode, SearchScreenMode::Search);
    s.on_key('a');
    s.on_key('b');
    assert_eq!(s.get_query(), "ab");
    assert_eq!(s.query_len(), 2);
    assert!(s.has_query_changed());
    assert!(!s.has_query_changed());
    s.on_backspace(false);
    assert_eq!(s.get_query(), "a");
    s.update_search(vec!["x", "y", "z"]);
    assert!(s.show_cursor());
    assert!(s.get_songs().is_none());
    assert_eq!(s.mode, SearchScreenMode::Select);
    assert_eq!(s.selected(), Some(0));
    s.on_key('k');
    assert_eq!(s.selected(), Some(2));
    assert_eq!(s.get_songs(), Some(&"z"));
    s.on_key('j');
    assert_eq!(s.selected(), Some(0));
    s.on_backspace(false);
    assert_eq!(s.mode, SearchScreenMode::Search);
    assert_eq!(s.selected(), None);
    s.on_backspace(true);
    assert_eq!(s.get_query(), "");
    assert_eq!(s.results(), &vec!["x", "y", "z"]);
}

#[test]
fn config_takes_added_folder() {
    let args = vec!["add".to_string(), "/music".to_string()];
    assert_eq!(Config::new(&args).get_music_dirs(), &vec!["/music".to_string()]);
    let other = vec!["play".to_string(), "/music".to_string()];
    assert!(Config::new(&other).get_music_dirs().is_empty());
    assert!(Config::new(&["add".to_string()]).get_music_dirs().is_empty());
}

#[test]
fn browser_moves_and_asks_for_lists() {
    let mut b = Browser::new(
        vec!["A".to_string(), "B".to_string()],
        vec!["A1".to_string()],
        vec![(1, "one".to_string()), (2, "two".to_string())],
    );
    assert_eq!(b.get_selected_artist(), Some(0));
    assert_eq!(b.song_names(), vec!["1. one".to_string(), "2. two".to_string()]);
    match b.down() {
        Lookup::Albums(a) => assert_eq!(a, "B"),
        other => panic!("{other:?}"),
    }
    match b.set_albums(vec!["B1".to_string(), "B2".to_string()]) {
        Lookup::Songs(a, al) => {
            assert_eq!(a, "B");
            assert_eq!(al, "B1");
        }
        other => panic!("{other:?}"),
    }
    b.set_songs(vec![(7, "seven".to_string())]);
    assert_eq!(b.browser_data.as_ref().unwrap().song(), (7, "seven"));
    b.next();
    assert_eq!(*b.mode(), BrowserMode::Album);
    match b.up() {
        Lookup::Songs(a, al) => {
            assert_eq!(a, "B");
            assert_eq!(al, "B2");
        }
        other => panic!("{other:?}"),
    }
    b.next();
    assert!(matches!(b.down(), Lookup::Nothing));
    assert_eq!(b.get_selected_song(), Some(0));
}

#[test]
fn browser_without_songs_is_empty() {
    let b = Browser::new(vec!["A".to_string()], vec![], vec![]);
    assert!(b.browser_data.is_none());
    assert!(b.artist_names().is_empty());
    assert!(b.song_names().is_empty());
}

fn small_app() -> App<&'static str, &'static str> {
    App {
        browser: Browser::new(
            vec!["A".to_string(), "B".to_string()],
            vec!["A1".to_string()],
            vec![(1, "one".to_string()), (2, "two".to_string())],
        ),
        queue: AppQueue::new(),
        search: Search::new(),
        ui_mode: UiMode::Browser,
    }
}

#[test]
fn app_enter_queues_the_browser_selection() {
    let mut app = small_app();
    assert!(matches!(app.on_enter(), EnterRequest::QueueArtist(a) if a == "A"));
    app.browser_next();
    assert!(matches!(app.on_enter(), EnterRequest::QueueAlbum(al, a) if al == "A1" && a == "A"));
    app.browser_next();
    assert!(matches!(app.on_enter(), EnterRequest::QueueSong(a, al, 1, s) if a == "A" && al == "A1" && s == "one"));
    app.browser_prev();
    assert_eq!(*app.browser.mode(), BrowserMode::Album);
    app.ui_mode = UiMode::Queue;
    app.browser_next();
    assert_eq!(*app.browser.mode(), BrowserMode::Album);
}

#[test]
fn app_queue_and_search_screens() {
    let mut app = small_app();
    assert!(matches!(app.queue.add(vec!["x", "y", "z"]), PlayerAction::Play(0)));
    app.ui_mode = UiMode::Queue;
    assert!(matches!(app.down(), Lookup::Nothing));
    assert_eq!(app.queue.ui.index, Some(1));
    assert!(matches!(app.mouse(MouseKind::ScrollUp, 0, 0), Lookup::Nothing));
    assert_eq!(app.queue.ui.index, Some(0));
    app.mouse(MouseKind::ScrollUp, 0, 0);
    assert_eq!(app.queue.ui.index, Some(2));
    assert!(matches!(app.on_enter(), EnterRequest::Player(PlayerAction::Play(2))));
    app.mouse(MouseKind::Down, 4, 5);
    assert_eq!(app.queue.clicked_pos, Some((4, 5)));
    app.delete_from_queue();
    assert_eq!(app.queue.list.data, vec!["x", "y"]);
    app.ui_mode = UiMode::Search;
    assert!(matches!(app.on_enter(), EnterRequest::Nothing));
    assert_eq!(app.search.mode, SearchScreenMode::Search);
    app.search.on_key('q');
    let (_, changed) = app.on_tick(false);
    assert!(changed);
    let (_, changed) = app.on_tick(false);
    assert!(!changed);
    app.search.update_search(vec!["first", "second"]);
    assert!(matches!(app.on_enter(), EnterRequest::Nothing));
    assert_eq!(app.search.mode, SearchScreenMode::Select);
    app.down();
    assert!(matches!(app.on_enter(), EnterRequest::QueueResult(1)));
}

fn tag(key: TagKey, value: &str) -> (TagKey, String) {
    (key, value.to_string())
}

#[test]
fn songs_take_their_tags_in_order() {
    let tags = vec![
        tag(TagKey::Artist, "Band"),
        tag(TagKey::Artist, "Other"),
        tag(TagKey::Album, "First"),
        tag(TagKey::TrackTitle, "Song"),
        tag(TagKey::TrackNumber, "3/12"),
        tag(TagKey::DiscNumber, "x"),
        tag(TagKey::Other, "ignored"),
        tag(TagKey::Album, "Second"),
    ];
    let s = GronkSong::from_tags("/m/a.flac".to_string(), &tags, Duration::from_secs(61));
    assert_eq!((s.number, s.disc), (3, 1));
    assert_eq!((s.name.as_str(), s.album.as_str(), s.artist.as_str()), ("Song", "Second", "Band"));
    assert_eq!(s.path, "/m/a.flac");
    assert_eq!(s.duration, Duration::from_secs(61));
}

#[test]
fn the_album_artist_wins() {
    let tags = vec![tag(TagKey::Artist, "Band"), tag(TagKey::AlbumArtist, "Various"), tag(TagKey::Artist, "Later")];
    let s = GronkSong::from_tags("p".to_string(), &tags, Duration::from_secs(0));
    assert_eq!(s.artist, "Various");
}

#[test]
fn a_song_without_artist_tags_is_by_unknown_artist() {
    let s = GronkSong::from_tags("p".to_string(), &[tag(TagKey::TrackTitle, "T")], Duration::from_secs(0));
    assert_eq!(s.artist, "Unknown Artist");
    assert_eq!((s.number, s.disc, s.album.as_str()), (0, 0, ""));
}
