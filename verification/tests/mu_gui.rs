use mu::mu_core::db::{serialize_songs, Song};
use mu::mu_core::index::Index;
use mu::mu_core::playlist::Playlist;
use mu::mu_core::vdb::{Database, Item};
use mu::mu_gui::artist::open_song_menu;
use mu::mu_gui::toast::{append_toast, start_scan, Toast};
use mu::mu_gui::command_palette::{
    activate_entry, build_entries, command_entries, try_activate, entry_labels, move_selection, on_backspace, on_text_input, Action,
    CommandId, CommandPalette, Entry,
};
use mu::mu_gui::context_menu::{ContextMenu, MenuCommand};
use mu::mu_gui::search::{album_songs, find_song};
use mu::mu_gui::selection::PathSelection;
use mu::mu_gui::session::{
    append_queue, apply_menu_command, artist_discography, refresh_artists, apply_palette_action, go_to_now_playing, move_queue_song,
    origin_from_mode, remove_queue_indices, start_playback, unique_playlist_name, MenuOutcome, Mode,
    PaletteOutcome, PlaybackOrigin,
};
use mu::mu_gui::sidebar::{find_prefix, position_with_prefix, scroll_to_index, sticky_letter};

fn song(title: &str, album: &str, artist: &str, track: u8) -> Song {
    Song {
        title: title.to_string(),
        album: album.to_string(),
        artist: artist.to_string(),
        disc_number: 1,
        track_number: track,
        path: format!("/{artist}/{album}/{title}"),
        gain: "0".to_string(),
        year: 0,
    }
}

fn names(v: &[&str]) -> Vec<String> {
    v.iter().map(|s| s.to_string()).collect()
}

fn titles(v: &[Song]) -> Vec<String> {
    v.iter().map(|s| s.title.clone()).collect()
}

#[test]
fn selection_click_toggle_and_range() {
    let ordered = names(&["/a", "/b", "/c", "/d"]);
    let mut sel = PathSelection::new();
    assert!(sel.is_empty());
    sel.click(&ordered, "/b".to_string(), false, false);
    assert_eq!(sel.paths(), &names(&["/b"])[..]);
    sel.click(&ordered, "/d".to_string(), true, false);
    assert_eq!(sel.paths(), &names(&["/b", "/c", "/d"])[..]);
    sel.toggle("/c".to_string());
    assert!(!sel.contains("/c"));
    sel.toggle("/c".to_string());
    assert!(sel.contains("/c"));
    assert_eq!(sel.first(), Some("/b"));
    sel.clear();
    assert!(sel.is_empty());
}

#[test]
fn sidebar_headings_and_offsets() {
    let artists = names(&["abba", "ac/dc", "beck", "bjork", "cake"]);
    // rows at 0, 30, 81, 111, 162 (a heading before b and before c)
    assert_eq!(scroll_to_index(&artists, 0), 0);
    assert_eq!(scroll_to_index(&artists, 1), 30);
    assert_eq!(scroll_to_index(&artists, 2), 81);
    assert_eq!(scroll_to_index(&artists, 4), 162);
    assert_eq!(scroll_to_index(&artists, 9), 0);
    assert_eq!(sticky_letter(&artists, 0), Some('A'));
    assert_eq!(sticky_letter(&artists, 59), Some('A'));
    assert_eq!(sticky_letter(&artists, 60), Some('B'));
    assert_eq!(sticky_letter(&artists, 10_000), Some('C'));
    assert_eq!(sticky_letter(&[], 0), None);
    assert_eq!(sticky_letter(&names(&["", "9lives"]), 31), Some('9'));
}

#[test]
fn sidebar_prefix_jump_ignores_case() {
    let artists = names(&["Abba", "Beck", "Björk"]);
    assert_eq!(find_prefix(&artists, "bj"), Some(2));
    assert_eq!(find_prefix(&artists, "BE"), Some(1));
    assert_eq!(find_prefix(&artists, "ÖX"), None);
    assert_eq!(find_prefix(&artists, ""), None);
    assert_eq!(position_with_prefix(&artists, "Be"), Some(1));
    assert_eq!(position_with_prefix(&artists, "be"), None);
    assert_eq!(position_with_prefix(&artists, ""), Some(0));
}

#[test]
fn queue_edits() {
    let mut q = Index::new(vec![song("a", "x", "y", 1), song("b", "x", "y", 2)], Some(1));
    assert_eq!(append_queue(&mut q, vec![song("c", "x", "y", 3), song("d", "x", "y", 4)]), 4 - 2);
    assert_eq!(titles(&q.data), names(&["a", "b", "c", "d"]));
    assert_eq!(append_queue(&mut q, vec![]), 0);
    move_queue_song(&mut q, 0, 2);
    assert_eq!(titles(&q.data), names(&["b", "c", "a", "d"]));
    move_queue_song(&mut q, 0, 9);
    assert_eq!(titles(&q.data), names(&["b", "c", "a", "d"]));
    remove_queue_indices(&mut q, vec![3, 0, 3, 17]);
    assert_eq!(titles(&q.data), names(&["c", "a"]));
    assert_eq!(q.index, Some(1));
}

#[test]
fn playlist_names_stay_unique() {
    let mut lists: Index<Playlist> = Index::default();
    assert_eq!(unique_playlist_name(&lists, "Queue"), "Queue");
    lists.push(Playlist::new("Queue", vec![], "q".to_string()));
    assert_eq!(unique_playlist_name(&lists, "Queue"), "Queue 2");
    lists.push(Playlist::new("Queue 2", vec![], "q2".to_string()));
    assert_eq!(unique_playlist_name(&lists, "Queue"), "Queue 3");
}

#[test]
fn playback_sessions() {
    let mut playback: Index<Song> = Index::default();
    let mut origin = PlaybackOrigin::Unset;
    assert!(!start_playback(&mut playback, &mut origin, vec![], 0, PlaybackOrigin::Queue));
    assert!(matches!(origin, PlaybackOrigin::Unset));
    let list = vec![song("a", "x", "y", 1), song("b", "x", "y", 2)];
    assert!(start_playback(&mut playback, &mut origin, list, 7, PlaybackOrigin::Queue));
    assert_eq!(playback.index, Some(1));
    assert!(matches!(origin, PlaybackOrigin::Queue));
    assert!(matches!(origin_from_mode(&Mode::Settings), PlaybackOrigin::Unset));
    match origin_from_mode(&Mode::Artist { name: "y".to_string() }) {
        PlaybackOrigin::Artist(n) => assert_eq!(n, "y"),
        _ => panic!(),
    }
}

#[test]
fn now_playing_leads_to_source() {
    let artists = names(&["abba", "beck"]);
    let lists: Index<Playlist> = Index::new(vec![Playlist::new("mix", vec![], "m".to_string())], None);
    let playback = Index::new(vec![song("t", "al", "beck", 1)], Some(0));
    let queue: Index<Song> = Index::default();
    let mut mode = Mode::Queue;
    let mut selected = None;
    let mut artist_scroll = 5;
    let mut main_scroll = 9;
    let mut sel = PathSelection::new();
    sel.select_only("/x".to_string());
    go_to_now_playing(
        &PlaybackOrigin::Unset, &playback, &queue, &artists, &lists, &mut mode, &mut selected,
        &mut artist_scroll, &mut main_scroll, &mut sel,
    );
    assert!(matches!(&mode, Mode::Artist { name } if name == "beck"));
    assert_eq!(selected.as_deref(), Some("beck"));
    assert_eq!(artist_scroll, 51);
    assert_eq!(main_scroll, 0);
    assert!(sel.is_empty());
    go_to_now_playing(
        &PlaybackOrigin::Playlist("gone".to_string()), &playback, &queue, &artists, &lists, &mut mode,
        &mut selected, &mut artist_scroll, &mut main_scroll, &mut sel,
    );
    assert!(matches!(mode, Mode::Playlist));
    assert_eq!(selected, None);
    go_to_now_playing(
        &PlaybackOrigin::Playlist("mix".to_string()), &playback, &queue, &artists, &lists, &mut mode,
        &mut selected, &mut artist_scroll, &mut main_scroll, &mut sel,
    );
    assert!(matches!(&mode, Mode::PlaylistDetail { name } if name == "mix"));
    go_to_now_playing(
        &PlaybackOrigin::Artist("nobody".to_string()), &playback, &queue, &artists, &lists, &mut mode,
        &mut selected, &mut artist_scroll, &mut main_scroll, &mut sel,
    );
    assert!(matches!(mode, Mode::Queue));
}

#[test]
fn context_menu_layout() {
    let mut menu = ContextMenu::new();
    assert!(!menu.is_open());
    menu.open_at(5, 5, vec![]);
    assert!(!menu.is_open());
    menu.open_at_with_sep(
        500,
        -20,
        vec![
            ("Play".to_string(), MenuCommand::ClearQueue),
            ("Save".to_string(), MenuCommand::SaveQueueAsPlaylist),
        ],
        1,
    );
    assert!(menu.is_open());
    assert!(!menu.entries[0].separator_before);
    assert!(menu.entries[1].separator_before);
    assert_eq!(menu.content_height(), 8 + 32 + 9 + 32);
    let r = menu.panel_rect(600, 400);
    assert_eq!((r.x, r.y, r.width, r.height), (372, 8, 220, 81));
    let small = menu.panel_rect(100, 50);
    assert_eq!((small.x, small.y), (8, 8));
    menu.close();
    assert!(!menu.is_open());
    assert!(menu.entries.is_empty());
}

#[test]
fn menu_commands_edit_the_queue() {
    let mut playback = Index::new(vec![song("b", "x", "y", 2)], Some(0));
    let mut origin = PlaybackOrigin::Unset;
    let mut queue = Index::new(vec![song("a", "x", "y", 1), song("b", "x", "y", 2), song("c", "x", "y", 3)], None);
    let mut lists: Index<Playlist> =
        Index::new(vec![Playlist::new("p1", vec![], "1".to_string()), Playlist::new("p2", vec![], "2".to_string())], Some(1));
    let mut sel = PathSelection::new();
    let mut mode = Mode::PlaylistDetail { name: "p2".to_string() };
    let r = apply_menu_command(MenuCommand::MoveDown(0), &mut playback, &mut origin, &mut queue, &mut lists, &mut sel, &mut mode);
    assert!(matches!(r, MenuOutcome::Done));
    assert_eq!(titles(&queue.data), names(&["b", "a", "c"]));
    apply_menu_command(MenuCommand::MoveUp(0), &mut playback, &mut origin, &mut queue, &mut lists, &mut sel, &mut mode);
    assert_eq!(titles(&queue.data), names(&["b", "a", "c"]));
    apply_menu_command(MenuCommand::ClearExceptPlaying, &mut playback, &mut origin, &mut queue, &mut lists, &mut sel, &mut mode);
    assert_eq!(titles(&queue.data), names(&["b"]));
    let r = apply_menu_command(
        MenuCommand::AddToQueue(vec![song("d", "x", "y", 4)]),
        &mut playback, &mut origin, &mut queue, &mut lists, &mut sel, &mut mode,
    );
    assert!(matches!(r, MenuOutcome::Queued(1)));
    let r = apply_menu_command(
        MenuCommand::DeletePlaylist("p2".to_string()),
        &mut playback, &mut origin, &mut queue, &mut lists, &mut sel, &mut mode,
    );
    assert!(matches!(r, MenuOutcome::Deleted(ref p) if p.name() == "p2"));
    assert_eq!(lists.data.len(), 1);
    assert_eq!(lists.index, Some(0));
    assert!(matches!(mode, Mode::Playlist));
    let r = apply_menu_command(
        MenuCommand::Play { songs: vec![song("e", "x", "zz", 5)], index: 0 },
        &mut playback, &mut origin, &mut queue, &mut lists, &mut sel, &mut mode,
    );
    assert!(matches!(r, MenuOutcome::Play));
    assert!(matches!(&origin, PlaybackOrigin::Artist(a) if a == "zz"));
    let r = apply_menu_command(MenuCommand::RemoveFromQueue(vec![0]), &mut playback, &mut origin, &mut queue, &mut lists, &mut sel, &mut mode);
    assert!(matches!(r, MenuOutcome::Done));
    assert_eq!(titles(&queue.data), names(&["d"]));
    let r = apply_menu_command(MenuCommand::SaveQueueAsPlaylist, &mut playback, &mut origin, &mut queue, &mut lists, &mut sel, &mut mode);
    assert!(matches!(r, MenuOutcome::SaveQueue));
    apply_menu_command(MenuCommand::ClearQueue, &mut playback, &mut origin, &mut queue, &mut lists, &mut sel, &mut mode);
    assert!(queue.data.is_empty());
}

#[test]
fn palette_typing_and_backspace() {
    let mut p = CommandPalette::new();
    p.open_search();
    on_text_input(&mut p, &['h', '\u{8}', 'i', ' ', 't', 'h', 'e', 'r', 'e']);
    assert_eq!(p.query, "hi there");
    assert!(p.dirty);
    // a fresh press deletes one character
    on_backspace(&mut p, true, true, false, false, 1000);
    assert_eq!(p.query, "hi ther");
    // held, but not long enough to repeat
    on_backspace(&mut p, true, false, false, false, 1200);
    assert_eq!(p.query, "hi ther");
    // past the initial delay: repeats
    on_backspace(&mut p, true, false, false, false, 1400);
    assert_eq!(p.query, "hi the");
    on_backspace(&mut p, true, false, false, false, 1420);
    assert_eq!(p.query, "hi the");
    on_backspace(&mut p, true, false, false, false, 1440);
    assert_eq!(p.query, "hi th");
    // Ctrl deletes the last word
    on_backspace(&mut p, true, true, true, false, 2000);
    assert_eq!(p.query, "hi ");
    on_backspace(&mut p, false, false, false, false, 2100);
    assert_eq!(p.backspace_held_since, None);
    // Ctrl+Shift clears
    on_backspace(&mut p, true, true, true, true, 3000);
    assert_eq!(p.query, "");
    p.open_commands();
    assert!(p.is_command_mode());
    p.close();
    assert!(!p.open);
}

#[test]
fn palette_selection_wraps() {
    let mut p = CommandPalette::new();
    move_selection(&mut p, 3, -1);
    assert_eq!(p.selected, 2);
    move_selection(&mut p, 3, 1);
    assert_eq!(p.selected, 0);
    move_selection(&mut p, 3, -7);
    assert_eq!(p.selected, 2);
    move_selection(&mut p, 0, 5);
    assert_eq!(p.selected, 0);
}

#[test]
fn palette_commands_filter() {
    assert_eq!(command_entries(">").len(), 1);
    assert_eq!(command_entries(">  RESCAN ").len(), 1);
    assert_eq!(command_entries("> reload the library").len(), 1);
    assert_eq!(command_entries(">xyz").len(), 0);
    match &command_entries(">data")[0] {
        Entry::Command(id, label, detail) => {
            assert_eq!(*id, CommandId::RescanDatabase);
            assert_eq!(label, "Rescan Database");
            assert_eq!(detail, "Refresh the music library from disk");
        }
        _ => panic!(),
    }
}

#[test]
fn palette_labels() {
    let song_entry = Entry::Song(Item::Song(("ar".to_string(), "al".to_string(), "ti".to_string(), 1, 2)));
    assert_eq!(entry_labels(&song_entry), ("ti".to_string(), "ar  \u{b7}  al".to_string()));
    assert_eq!(entry_labels(&Entry::Artist("ar".to_string())), ("ar".to_string(), "Artist".to_string()));
    assert_eq!(
        entry_labels(&Entry::Album("ar".to_string(), "al".to_string())),
        ("al".to_string(), "ar  \u{b7}  Album".to_string())
    );
}

fn small_db() -> Database {
    let songs = vec![song("one", "A", "Zed", 1), song("two", "A", "Zed", 2), song("three", "B", "Zed", 1)];
    Database::new(&serialize_songs(&songs))
}

#[test]
fn palette_entries_activate() {
    let db = small_db();
    let artists = db.get_artists();
    let entry = Entry::Song(Item::Song(("Zed".to_string(), "A".to_string(), "two".to_string(), 1, 2)));
    match activate_entry(&entry, &db, &artists, false) {
        Some(Action::PlayAndQueue { play, play_index, queue_add }) => {
            assert_eq!(titles(&play), names(&["one", "two", "three"]));
            assert_eq!(play_index, 1);
            assert_eq!(titles(&queue_add), names(&["two"]));
        }
        other => panic!("{other:?}"),
    }
    assert!(matches!(activate_entry(&entry, &db, &artists, true), Some(Action::OpenArtist(a)) if a == "Zed"));
    let album = Entry::Album("Zed".to_string(), "B".to_string());
    match activate_entry(&album, &db, &artists, false) {
        Some(Action::PlayAndQueue { play, play_index, queue_add }) => {
            assert_eq!(play.len(), 3);
            assert_eq!(play_index, 2);
            assert_eq!(titles(&queue_add), names(&["three"]));
        }
        other => panic!("{other:?}"),
    }
    let unknown = Entry::Artist("Nobody".to_string());
    assert!(matches!(activate_entry(&unknown, &db, &artists, false), Some(Action::OpenArtist(a)) if a == "Nobody"));
    let cmd = Entry::Command(CommandId::RescanDatabase, String::new(), String::new());
    assert!(matches!(activate_entry(&cmd, &db, &artists, false), Some(Action::RescanDatabase)));
    assert_eq!(titles(&album_songs(&db, &artists, "Zed", "A")), names(&["one", "two"]));
    assert!(album_songs(&db, &[], "Zed", "A").is_empty());
    assert_eq!(find_song(&db, &artists, "Zed", "B", 1, 1).unwrap().title, "three");
    assert!(find_song(&db, &artists, "Zed", "B", 1, 2).is_none());
}

#[test]
fn palette_actions_apply() {
    let mut palette = CommandPalette::new();
    palette.open_search();
    let mut playback: Index<Song> = Index::default();
    let mut origin = PlaybackOrigin::Unset;
    let mut queue: Index<Song> = Index::default();
    let mut mode = Mode::Queue;
    let mut selected = None;
    let mut sel = PathSelection::new();
    let mut main_scroll = 3;
    let artists = names(&["Zed"]);
    let r = apply_palette_action(
        Action::PlayAndQueue { play: vec![song("a", "x", "Zed", 1)], play_index: 0, queue_add: vec![song("a", "x", "Zed", 1)] },
        &mut palette, &mut playback, &mut origin, &mut queue, &mut mode, &mut selected, &mut sel, &mut main_scroll, &artists,
    );
    assert!(matches!(r, PaletteOutcome::Queued { added: 1, play: true }));
    assert!(!palette.open);
    assert!(matches!(&origin, PlaybackOrigin::Artist(a) if a == "Zed"));
    let r = apply_palette_action(
        Action::OpenArtist("Zed".to_string()),
        &mut palette, &mut playback, &mut origin, &mut queue, &mut mode, &mut selected, &mut sel, &mut main_scroll, &artists,
    );
    assert!(matches!(r, PaletteOutcome::Done));
    assert!(matches!(&mode, Mode::Artist { name } if name == "Zed"));
    assert_eq!(main_scroll, 0);
    let r = apply_palette_action(
        Action::RescanDatabase,
        &mut palette, &mut playback, &mut origin, &mut queue, &mut mode, &mut selected, &mut sel, &mut main_scroll, &artists,
    );
    assert!(matches!(r, PaletteOutcome::Scan));
}

#[test]
fn palette_rows_from_search_results() {
    let mut palette = CommandPalette::new();
    palette.open_search();
    let results = || {
        vec![
            Item::Artist("Zed".to_string()),
            Item::Album(("Zed".to_string(), "B".to_string())),
            Item::Song(("Zed".to_string(), "A".to_string(), "two".to_string(), 1, 2)),
        ]
    };
    assert!(build_entries(&palette, results()).is_empty());
    palette.query = "  ".to_string();
    assert!(build_entries(&palette, results()).is_empty());
    palette.query = " ze".to_string();
    let rows = build_entries(&palette, results());
    assert_eq!(rows.len(), 3);
    assert!(matches!(&rows[0], Entry::Artist(a) if a == "Zed"));
    assert!(matches!(&rows[1], Entry::Album(a, b) if a == "Zed" && b == "B"));
    assert!(matches!(&rows[2], Entry::Song(Item::Song((_, _, t, 1, 2))) if t == "two"));
    let many: Vec<Item> = (0..50).map(|i| Item::Artist(format!("a{i}"))).collect();
    assert_eq!(build_entries(&palette, many).len(), 40);
    palette.query = ">res".to_string();
    let rows = build_entries(&palette, results());
    assert_eq!(rows.len(), 1);
    assert!(matches!(&rows[0], Entry::Command(CommandId::RescanDatabase, _, _)));
}

#[test]
fn palette_activates_selected_row() {
    let db = small_db();
    let artists = db.get_artists();
    let mut palette = CommandPalette::new();
    palette.open_search();
    palette.query = "zed".to_string();
    let results = || vec![Item::Artist("Nobody".to_string()), Item::Album(("Zed".to_string(), "B".to_string()))];
    assert!(matches!(try_activate(&palette, results(), &db, &artists, false), Some(Action::OpenArtist(a)) if a == "Nobody"));
    palette.selected = 1;
    match try_activate(&palette, results(), &db, &artists, false) {
        Some(Action::PlayAndQueue { play, play_index, queue_add }) => {
            assert_eq!(play.len(), 3);
            assert_eq!(play_index, 2);
            assert_eq!(titles(&queue_add), names(&["three"]));
        }
        other => panic!("{other:?}"),
    }
    palette.selected = 2;
    assert!(try_activate(&palette, results(), &db, &artists, false).is_none());
    palette.query = ">".to_string();
    palette.selected = 0;
    assert!(matches!(try_activate(&palette, Vec::new(), &db, &artists, false), Some(Action::RescanDatabase)));
    palette.selected = 1;
    assert!(try_activate(&palette, Vec::new(), &db, &artists, false).is_none());
    palette.query = ">zzz".to_string();
    palette.selected = 0;
    assert!(try_activate(&palette, Vec::new(), &db, &artists, false).is_none());
}

#[test]
fn toasts_for_queueing_and_scans() {
    let mut toast: Option<Toast> = None;
    append_toast(&mut toast, 0, 5);
    assert!(toast.is_none());
    append_toast(&mut toast, 1, 5);
    assert_eq!(toast.as_ref().unwrap().message, "Added to queue");
    append_toast(&mut toast, 12, 7);
    let t = toast.as_ref().unwrap();
    assert_eq!(t.message, "Added 12 tracks");
    assert_eq!(t.detail, "Queue only \u{2014} playback unchanged");
    assert!(!t.expired(7));
    assert!(!t.expired(4006));
    assert!(t.expired(4007));
    assert!(!t.expired(3));
    let (mut timer, mut dots) = (0u64, 5usize);
    let mut toast = None;
    assert!(!start_scan(true, "/music", &mut toast, &mut timer, &mut dots, 9));
    assert_eq!(toast.as_ref().unwrap().message, "Scan already running");
    assert_eq!((timer, dots), (0, 5));
    assert!(!start_scan(false, "", &mut toast, &mut timer, &mut dots, 9));
    assert_eq!(toast.as_ref().unwrap().detail, "Use: mu_gui add <path>");
    let mut toast = None;
    assert!(start_scan(false, "/music", &mut toast, &mut timer, &mut dots, 9));
    assert!(toast.is_none());
    assert_eq!((timer, dots), (9, 1));
}

#[test]
fn artist_pages_and_discography() {
    let db = small_db();
    assert_eq!(refresh_artists(&db), names(&["Zed"]));
    assert_eq!(titles(&artist_discography(&db, "Zed")), names(&["one", "two", "three"]));
    assert!(artist_discography(&db, "Nobody").is_empty());
}

#[test]
fn song_menu_selects_and_offers_three_rows() {
    let all = vec![song("one", "A", "Zed", 1), song("two", "A", "Zed", 2), song("three", "B", "Zed", 1)];
    let ordered: Vec<String> = all.iter().map(|s| s.path.clone()).collect();
    let mut menu = ContextMenu::new();
    let mut sel = PathSelection::new();
    open_song_menu(&mut menu, &mut sel, &ordered, &all, &all[..2], &all[1].path, 30, 40);
    assert!(menu.open);
    assert_eq!((menu.x, menu.y), (30, 40));
    assert_eq!(sel.paths(), &[all[1].path.clone()][..]);
    assert_eq!(menu.entries.len(), 3);
    assert_eq!(menu.entries[0].label, "Play");
    assert!(matches!(&menu.entries[0].command, MenuCommand::Play { songs, index: 1 } if songs.len() == 3));
    assert_eq!(menu.entries[1].label, "Add to queue");
    assert_eq!(menu.entries[2].label, "Add album to queue");
    assert!(matches!(&menu.entries[2].command, MenuCommand::AddToQueue(v) if v.len() == 2));
    sel.toggle(all[2].path.clone());
    open_song_menu(&mut menu, &mut sel, &ordered, &all, &all[..2], &all[2].path, 1, 2);
    assert_eq!(menu.entries[1].label, "Add 2 to queue");
    assert!(matches!(&menu.entries[1].command, MenuCommand::AddToQueue(v) if titles(v) == names(&["two", "three"])));
    assert!(matches!(&menu.entries[0].command, MenuCommand::Play { index: 2, .. }));
}
