use mu::gronk_test::types::Music as TypesMusic;
use mu::gronk::app::browser::Lookup;
use mu::gronk_test::app::{App as TestApp, BrowserMode as TestMode, Mode};
use mu::gronk_test::music::{Item, Music};
use mu::gronk_ui::browser::{Browser, BrowserMode as UiMode, List, Refresh};
use mu::gronk_ui::music::{Item as UiItem, Music as UiMusic};
use mu::gronk_ui::queue::Queue;

fn names(v: &[&str]) -> Vec<String> {
    v.iter().map(|s| s.to_string()).collect()
}

#[test]
fn test_item_new() {
    let i = Item::new("x".to_string(), 2, 5);
    assert_eq!((i.item.as_str(), i.index, i.len), ("x", 2, 5));
    let u = UiItem::new(Some(3), "y".to_string(), 0, 1);
    assert_eq!(u.prefix, Some(3));
}

#[test]
fn test_modes() {
    let mut m = Mode::Browser;
    m.toggle();
    assert_eq!(m, Mode::Queue);
    m.toggle();
    assert_eq!(m, Mode::Browser);
    let mut b = TestMode::Artist;
    b.next();
    b.next();
    b.next();
    assert_eq!(b, TestMode::Song);
    b.prev();
    assert_eq!(b, TestMode::Album);
}

#[test]
fn test_music_wraps_and_asks() {
    let mut m = Music::new(names(&["A", "B", "C"]), names(&["A1"]), names(&["s1", "s2"]));
    match m.up(&TestMode::Artist) {
        Lookup::Albums(a) => assert_eq!(a, "C"),
        other => panic!("{other:?}"),
    }
    assert_eq!(m.get_selected_artist(), Some(2));
    match m.set_albums(names(&["C1", "C2"])) {
        Lookup::Songs(a, b) => assert_eq!((a.as_str(), b.as_str()), ("C", "C1")),
        other => panic!("{other:?}"),
    }
    m.set_songs(names(&["x"]));
    match m.down(&TestMode::Album) {
        Lookup::Songs(_, b) => assert_eq!(b, "C2"),
        other => panic!("{other:?}"),
    }
    assert!(matches!(m.down(&TestMode::Song), Lookup::Nothing));
    assert_eq!(m.get_selected_song(), Some(0));
    assert_eq!(m.song_names(), &names(&["x"]));
}

#[test]
fn ui_music_song_column() {
    let mut m = UiMusic::new(names(&["A"]), names(&["A1", "A2"]), vec![(1, "one".to_string()), (2, "two".to_string())]);
    assert_eq!(m.song_names(), names(&["1. one", "2. two"]));
    assert!(matches!(m.down(&UiMode::Song), Lookup::Nothing));
    assert_eq!(m.selected_song.prefix, Some(2));
    assert_eq!(m.selected_song.item, "two");
    match m.down(&UiMode::Album) {
        Lookup::Songs(a, b) => assert_eq!((a.as_str(), b.as_str()), ("A", "A2")),
        other => panic!("{other:?}"),
    }
    // moving up in the album column re-reads the selected song
    assert!(matches!(m.up(&UiMode::Album), Lookup::Nothing));
    assert_eq!(m.get_selected_album(), Some(0));
}

#[test]
fn ui_list_filters_and_wraps() {
    let mut l: List<u8> = List {
        list: vec![("Abba".to_string(), 1), ("Beck".to_string(), 2), ("ABC".to_string(), 3)],
        state: Some(0),
    };
    l.up();
    assert_eq!(l.state, Some(2));
    l.down();
    assert_eq!(l.state, Some(0));
    assert_eq!(l.get_selected(), "Abba");
    l.filter("ab");
    assert_eq!(l.list.iter().map(|e| e.1).collect::<Vec<_>>(), vec![1, 3]);
    assert_eq!(l.state, Some(0));
    assert_eq!(l.get_selected_data(), Some(&1));
    assert_eq!(l.first(), "Abba");
    l.filter("zz");
    assert!(l.list.is_empty());
    assert_eq!(l.state, None);
    assert_eq!(l.get_selected(), "");
}

#[test]
fn ui_queue_cursor() {
    let mut q: Queue<u8> = Queue::new();
    q.add(vec![1, 2, 3]);
    q.index = Some(0);
    q.up();
    assert_eq!(q.index, Some(2));
    q.down();
    assert_eq!(q.index, Some(0));
    let (songs, index) = q.get_queue();
    assert_eq!((songs.len(), *index), (3, Some(0)));
    q.clear();
    assert!(q.songs.is_empty());
}

#[test]
fn whole_value_browser_starts_at_second_artist() {
    let m = TypesMusic::new();
    assert_eq!(m.artist_names(), vec!["JPEGMAFIA".to_string(), "Iglooghost".to_string()]);
    assert_eq!(m.get_selected_artist(), Some(1));
    assert_eq!(m.album_names(), vec!["NeoWax".to_string()]);
    assert_eq!(m.song_names(), vec!["Something Fossil".to_string(), "Neo".to_string()]);
    assert_eq!(m.get_selected_album(), Some(0));
    assert_eq!(m.get_selected_song(), Some(0));
}

#[test]
fn whole_value_browser_wraps_and_returns() {
    let mut m = TypesMusic::new();
    m.artists_down();
    assert_eq!(m.get_selected_artist(), Some(0));
    assert_eq!(m.album_names(), vec!["Veteren".to_string(), "LP!".to_string()]);
    m.albums_down();
    assert_eq!(m.get_selected_album(), Some(1));
    m.albums_down();
    assert_eq!(m.get_selected_album(), Some(0));
    m.albums_up();
    assert_eq!(m.get_selected_album(), Some(1));
    m.songs_up();
    assert_eq!(m.get_selected_song(), Some(1));
    m.songs_down();
    assert_eq!(m.get_selected_song(), Some(0));
    m.artists_up();
    assert_eq!(m.get_selected_artist(), Some(1));
    m.artists_up();
    assert_eq!(m.get_selected_artist(), Some(0));
}

#[test]
fn whole_value_equality_ignores_selection() {
    let m = TypesMusic::new();
    let mut a = m.artists[0].copy();
    a.selected_album = m.artists[0].albums[1].copy();
    assert!(a.same_as(&m.artists[0]));
    assert!(!a.same_as(&m.artists[1]));
    let mut al = m.artists[0].albums[0].copy();
    al.selected_song = al.songs[1].copy();
    assert!(al.same_as(&m.artists[0].albums[0]));
    assert!(!al.same_as(&m.artists[0].albums[1]));
}

fn entries(v: &[&str]) -> Vec<(String, u32)> {
    v.iter().enumerate().map(|(i, s)| (s.to_string(), i as u32)).collect()
}

#[test]
fn lists_sort_by_lower_case_name_stably() {
    let l = List::new(entries(&["beta", "Alpha", "alpha", "Gamma", "ALPHA"]));
    let names: Vec<&str> = l.list.iter().map(|e| e.0.as_str()).collect();
    assert_eq!(names, vec!["Alpha", "alpha", "ALPHA", "beta", "Gamma"]);
    let tags: Vec<u32> = l.list.iter().map(|e| e.1).collect();
    assert_eq!(tags, vec![1, 2, 4, 0, 3]);
    assert_eq!(l.state, Some(0));
    let empty: List<u32> = List::new(Vec::new());
    assert!(empty.list.is_empty());
}

#[test]
fn list_refresh_keeps_the_cursor_on_its_name() {
    let mut l = List::new(entries(&["c", "a", "b"]));
    l.state = Some(2);
    l.refresh(entries(&["d", "c", "b", "c"]));
    assert_eq!(l.list.iter().map(|e| e.0.as_str()).collect::<Vec<_>>(), vec!["b", "c", "c", "d"]);
    assert_eq!(l.state, Some(2));
    l.state = Some(3);
    l.refresh(entries(&["x", "y"]));
    assert_eq!(l.state, Some(0));
    l.update(entries(&["q", "p"]));
    assert_eq!(l.list[0].0, "p");
    assert_eq!(l.state, Some(0));
}

#[test]
fn browser_columns_and_titles() {
    let mut b = Browser::new(List::new(entries(&["Beck", "abba"])), List::new(entries(&["Odelay"])), List::new(entries(&["01 Devils Haircut"])));
    assert_eq!(b.title(), "Artist");
    assert_eq!(b.get_list_items(), vec!["abba".to_string(), "Beck".to_string()]);
    b.down();
    assert_eq!(b.get_selection(), Some(1));
    assert!(matches!(b.next_mode(), Refresh::AlbumsOf(a) if a == "Beck"));
    assert_eq!(b.title(), "Album");
    assert!(matches!(b.next_mode(), Refresh::SongsOf(a) if a == "Odelay"));
    assert!(b.is_song());
    assert!(matches!(b.next_mode(), Refresh::Nothing));
    b.prev_mode();
    b.prev_mode();
    b.prev_mode();
    assert_eq!(b.title(), "Artist");
    b.search("ab");
    assert_eq!(b.get_list_items(), vec!["abba".to_string()]);
    assert_eq!(b.get_selection(), Some(0));
    b.up();
    assert_eq!(b.get_selection(), Some(0));
}

#[test]
fn test_app_moves_between_columns() {
    let music = Music::new(names(&["a", "b"]), names(&["a1"]), names(&["s1", "s2"]));
    let mut app = TestApp::new(music);
    assert!(matches!(app.browser_mode, TestMode::Artist));
    assert!(matches!(app.browser_up(), Lookup::Albums(a) if a == "b"));
    app.browser_next();
    assert!(matches!(app.browser_mode, TestMode::Album));
    assert!(matches!(app.browser_down(), Lookup::Songs(a, b) if a == "b" && b == "a1"));
    app.browser_next();
    app.browser_next();
    assert!(matches!(app.browser_mode, TestMode::Song));
    assert!(matches!(app.browser_down(), Lookup::Nothing));
    assert_eq!(app.music.get_selected_song(), Some(1));
    app.browser_prev();
    assert!(matches!(app.browser_mode, TestMode::Album));
    app.ui_toggle();
    assert!(matches!(app.ui_mode, Mode::Queue));
    app.ui_toggle();
    assert!(matches!(app.ui_mode, Mode::Browser));
}
