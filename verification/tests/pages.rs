use mu::mu_core::db::Song;
use mu::mu_core::index::Index;
use mu::mu_core::playlist::Playlist;
use mu::mu_core::vdb::AlbumEntry;
use mu::mu_gui::artist::{
    album_subtext, artist_header, artist_page_event, artist_song_label, page_songs_of, paths_of, Action, ArtistPageEvent,
};
use mu::mu_gui::context_menu::{ContextMenu, MenuCommand};
use mu::mu_gui::playlist::{
    find_playlist, playlist_detail_event, playlist_detail_header, playlist_list_event, playlist_row_label,
    playlist_song_label, Action as ListAction, DetailEvent, ListEvent,
};
use mu::mu_gui::selection::PathSelection;
use mu::mu_gui2::{drop_target, move_dragged, Drag};
use mu::mu_gui::queue::{queue_header, queue_page_event, queue_song_label, Action as QueueAction, QueueEvent};
use mu::mu_egui::panel::{
    jump_row, letter_starts, mode_label, play_label, set_volume, sidebar_event, toggle_play, volume_text, PanelMode,
    PlayControls, PlayerCommand, Sidebar, SidebarEvent,
};

fn song(title: &str, album: &str, track: u8) -> Song {
    Song {
        title: title.to_string(),
        album: album.to_string(),
        artist: "Zed".to_string(),
        disc_number: 1,
        track_number: track,
        path: format!("/Zed/{album}/{title}"),
        gain: "0".to_string(),
        year: 0,
    }
}

fn titles(v: &[Song]) -> Vec<String> {
    v.iter().map(|s| s.title.clone()).collect()
}

fn library() -> (Vec<Song>, Vec<AlbumEntry>) {
    let songs = vec![
        song("other", "Q", 1),
        song("a1", "A", 1),
        song("a2", "A", 2),
        song("b1", "B", 1),
        song("b2", "B", 2),
        song("b3", "B", 3),
    ];
    let albums = vec![
        AlbumEntry { title: "A".to_string(), songs: 1..3 },
        AlbumEntry { title: "B".to_string(), songs: 3..6 },
    ];
    (songs, albums)
}

fn artists() -> Vec<String> {
    vec!["Abc".to_string(), "Zed".to_string()]
}

#[test]
fn artist_header_counts_albums_and_tracks() {
    assert_eq!(artist_header(1, 1), "1 album · 1 track");
    assert_eq!(artist_header(2, 5), "2 albums · 5 tracks");
    assert_eq!(artist_header(0, 0), "0 albums · 0 tracks");
}

#[test]
fn album_subtext_shows_a_known_year() {
    assert_eq!(album_subtext(1999, 12), "1999 · 12 tracks");
    assert_eq!(album_subtext(0, 1), "1 tracks");
}

#[test]
fn artist_rows_mark_the_playing_song() {
    let s = song("Intro", "A", 3);
    assert_eq!(artist_song_label(&s, true), ">  3.  Intro");
    assert_eq!(artist_song_label(&s, false), "   3.  Intro");
}

#[test]
fn page_songs_follow_the_albums() {
    let (songs, albums) = library();
    let all = page_songs_of(&albums, &songs);
    assert_eq!(titles(&all), vec!["a1", "a2", "b1", "b2", "b3"]);
    assert_eq!(paths_of(&all)[2], "/Zed/B/b1");
}

#[test]
fn a_missing_artist_is_reported() {
    let (songs, albums) = library();
    let mut sel = PathSelection::new();
    let mut menu = ContextMenu::new();
    let r = artist_page_event(&artists(), "Nobody", &albums, &songs, &mut sel, &mut menu, ArtistPageEvent::RowDoubleClick { album: 0, row: 0 });
    assert!(matches!(r, Some(Action::MissingArtist)));
    assert!(sel.is_empty());
    assert!(!menu.open);
    let r = artist_page_event(&artists(), "Zed", &albums, &songs, &mut sel, &mut menu, ArtistPageEvent::Idle);
    assert!(r.is_none());
}

#[test]
fn double_clicking_a_cover_plays_from_the_album() {
    let (songs, albums) = library();
    let mut sel = PathSelection::new();
    let mut menu = ContextMenu::new();
    let r = artist_page_event(&artists(), "Zed", &albums, &songs, &mut sel, &mut menu, ArtistPageEvent::CoverDoubleClick { album: 1 });
    match r {
        Some(Action::PlayDiscography { songs, index }) => {
            assert_eq!(titles(&songs), vec!["a1", "a2", "b1", "b2", "b3"]);
            assert_eq!(index, 2);
        }
        _ => panic!("expected playback"),
    }
    assert!(sel.is_empty());
    let r = artist_page_event(&artists(), "Zed", &albums, &songs, &mut sel, &mut menu, ArtistPageEvent::CoverDoubleClick { album: 2 });
    assert!(r.is_none());
}

#[test]
fn right_clicking_a_cover_opens_the_album_menu() {
    let (songs, albums) = library();
    let mut sel = PathSelection::new();
    let mut menu = ContextMenu::new();
    let r = artist_page_event(&artists(), "Zed", &albums, &songs, &mut sel, &mut menu, ArtistPageEvent::CoverRightClick { album: 1, x: 5, y: 6 });
    assert!(r.is_none());
    assert!(menu.open);
    assert_eq!((menu.x, menu.y), (5, 6));
    assert_eq!(menu.entries.len(), 2);
    assert_eq!(menu.entries[0].label, "Play from album");
    assert!(matches!(&menu.entries[0].command, MenuCommand::Play { songs, index: 2 } if songs.len() == 5));
    assert_eq!(menu.entries[1].label, "Add album to queue");
    assert!(matches!(&menu.entries[1].command, MenuCommand::AddToQueue(v) if titles(v) == vec!["b1", "b2", "b3"]));
    assert!(menu.entries.iter().all(|e| !e.separator_before));
}

#[test]
fn double_clicking_a_row_selects_it_and_plays_from_it() {
    let (songs, albums) = library();
    let mut sel = PathSelection::new();
    let mut menu = ContextMenu::new();
    sel.toggle("/Zed/A/a1".to_string());
    let r = artist_page_event(&artists(), "Zed", &albums, &songs, &mut sel, &mut menu, ArtistPageEvent::RowDoubleClick { album: 1, row: 1 });
    assert!(matches!(r, Some(Action::PlayDiscography { index: 3, .. })));
    assert_eq!(sel.paths(), &["/Zed/B/b2".to_string()][..]);
    assert!(!menu.open);
}

#[test]
fn clicking_rows_goes_through_the_selection() {
    let (songs, albums) = library();
    let mut sel = PathSelection::new();
    let mut menu = ContextMenu::new();
    let ev = |album, row, shift, ctrl| ArtistPageEvent::RowClick { album, row, shift, ctrl };
    assert!(artist_page_event(&artists(), "Zed", &albums, &songs, &mut sel, &mut menu, ev(0, 1, false, false)).is_none());
    assert!(artist_page_event(&artists(), "Zed", &albums, &songs, &mut sel, &mut menu, ev(1, 1, true, false)).is_none());
    assert_eq!(sel.paths().to_vec(), vec!["/Zed/A/a2", "/Zed/B/b1", "/Zed/B/b2"]);
    artist_page_event(&artists(), "Zed", &albums, &songs, &mut sel, &mut menu, ev(1, 2, false, true));
    assert_eq!(sel.paths().len(), 4);
    artist_page_event(&artists(), "Zed", &albums, &songs, &mut sel, &mut menu, ev(1, 7, false, false));
    assert_eq!(sel.paths().len(), 4);
}

#[test]
fn right_clicking_a_row_opens_the_song_menu() {
    let (songs, albums) = library();
    let mut sel = PathSelection::new();
    let mut menu = ContextMenu::new();
    let r = artist_page_event(&artists(), "Zed", &albums, &songs, &mut sel, &mut menu, ArtistPageEvent::RowRightClick { album: 0, row: 1, x: 1, y: 2 });
    assert!(r.is_none());
    assert_eq!(sel.paths(), &["/Zed/A/a2".to_string()][..]);
    assert_eq!(menu.entries.len(), 3);
    assert!(matches!(&menu.entries[0].command, MenuCommand::Play { index: 1, .. }));
    assert_eq!(menu.entries[1].label, "Add to queue");
    assert_eq!(menu.entries[2].label, "Add album to queue");
    assert!(matches!(&menu.entries[2].command, MenuCommand::AddToQueue(v) if titles(v) == vec!["a1", "a2"]));
}

fn lists() -> Index<Playlist> {
    Index::from_vec(vec![
        Playlist::new("empty", vec![], "/p/empty.playlist".to_string()),
        Playlist::new("mix", vec![song("x", "A", 1), song("y", "A", 2), song("z", "B", 1)], "/p/mix.playlist".to_string()),
    ])
}

#[test]
fn playlist_texts() {
    assert_eq!(playlist_detail_header(3), "3 songs · right-click a track");
    assert_eq!(playlist_row_label("mix", 3), "mix  ·  3 songs");
    let s = song("x", "A", 1);
    assert_eq!(playlist_song_label(&s, true), "> x  ·  Zed  ·  A");
    assert_eq!(playlist_song_label(&s, false), "  x  ·  Zed  ·  A");
}

#[test]
fn playlists_are_found_by_name() {
    let l = lists();
    assert_eq!(find_playlist(&l, "mix"), Some(1));
    assert_eq!(find_playlist(&l, "none"), None);
}

#[test]
fn clicking_a_playlist_opens_it() {
    let l = lists();
    let mut menu = ContextMenu::new();
    assert!(matches!(playlist_list_event(&l, &mut menu, ListEvent::RowClick { row: 1 }), Some(ListAction::OpenDetail(n)) if n == "mix"));
    assert!(playlist_list_event(&l, &mut menu, ListEvent::RowClick { row: 2 }).is_none());
    assert!(playlist_list_event(&l, &mut menu, ListEvent::Idle).is_none());
    assert!(!menu.open);
}

#[test]
fn playlist_list_menus() {
    let l = lists();
    let mut menu = ContextMenu::new();
    playlist_list_event(&l, &mut menu, ListEvent::RowRightClick { row: 1, x: 3, y: 4 });
    let labels: Vec<&str> = menu.entries.iter().map(|e| e.label.as_str()).collect();
    assert_eq!(labels, vec!["Play", "Add to queue", "Delete playlist"]);
    assert!(menu.entries[2].separator_before && !menu.entries[0].separator_before && !menu.entries[1].separator_before);
    assert!(matches!(&menu.entries[0].command, MenuCommand::Play { songs, index: 0 } if songs.len() == 3));
    playlist_list_event(&l, &mut menu, ListEvent::RowRightClick { row: 0, x: 3, y: 4 });
    assert_eq!(menu.entries.len(), 1);
    assert_eq!(menu.entries[0].label, "Delete playlist");
    assert!(!menu.entries[0].separator_before);
    assert!(matches!(&menu.entries[0].command, MenuCommand::DeletePlaylist(n) if n == "empty"));
}

#[test]
fn a_missing_playlist_goes_back() {
    let l = lists();
    let mut sel = PathSelection::new();
    let mut menu = ContextMenu::new();
    let r = playlist_detail_event(&l, "gone", &mut sel, &mut menu, DetailEvent::RowDoubleClick { row: 0 });
    assert!(matches!(r, Some(ListAction::Back)));
    assert!(sel.is_empty());
    assert!(matches!(playlist_detail_event(&l, "mix", &mut sel, &mut menu, DetailEvent::BackClick), Some(ListAction::Back)));
    assert!(playlist_detail_event(&l, "mix", &mut sel, &mut menu, DetailEvent::Idle).is_none());
}

#[test]
fn double_clicking_a_playlist_row_plays_the_playlist() {
    let l = lists();
    let mut sel = PathSelection::new();
    let mut menu = ContextMenu::new();
    let r = playlist_detail_event(&l, "mix", &mut sel, &mut menu, DetailEvent::RowDoubleClick { row: 2 });
    match r {
        Some(ListAction::Play { songs, index }) => {
            assert_eq!(titles(&songs), vec!["x", "y", "z"]);
            assert_eq!(index, 2);
        }
        _ => panic!("expected playback"),
    }
    assert_eq!(sel.paths(), &["/Zed/B/z".to_string()][..]);
    assert!(playlist_detail_event(&l, "mix", &mut sel, &mut menu, DetailEvent::RowDoubleClick { row: 3 }).is_none());
}

#[test]
fn playlist_rows_click_and_right_click() {
    let l = lists();
    let mut sel = PathSelection::new();
    let mut menu = ContextMenu::new();
    playlist_detail_event(&l, "mix", &mut sel, &mut menu, DetailEvent::RowClick { row: 0, shift: false, ctrl: false });
    playlist_detail_event(&l, "mix", &mut sel, &mut menu, DetailEvent::RowClick { row: 1, shift: false, ctrl: true });
    assert_eq!(sel.paths().len(), 2);
    let r = playlist_detail_event(&l, "mix", &mut sel, &mut menu, DetailEvent::RowRightClick { row: 1, x: 9, y: 8 });
    assert!(r.is_none());
    assert_eq!(sel.paths().len(), 2);
    let labels: Vec<&str> = menu.entries.iter().map(|e| e.label.as_str()).collect();
    assert_eq!(labels, vec!["Play", "Add 2 to queue", "Add all to queue", "Delete playlist"]);
    let seps: Vec<bool> = menu.entries.iter().map(|e| e.separator_before).collect();
    assert_eq!(seps, vec![false, false, false, true]);
    assert!(matches!(&menu.entries[0].command, MenuCommand::Play { index: 1, .. }));
    assert!(matches!(&menu.entries[1].command, MenuCommand::AddToQueue(v) if titles(v) == vec!["x", "y"]));
    assert!(matches!(&menu.entries[3].command, MenuCommand::DeletePlaylist(n) if n == "mix"));
    playlist_detail_event(&l, "mix", &mut sel, &mut menu, DetailEvent::RowRightClick { row: 2, x: 9, y: 8 });
    assert_eq!(sel.paths(), &["/Zed/B/z".to_string()][..]);
    assert_eq!(menu.entries[1].label, "Add to queue");
}

#[test]
fn dragged_rows_land_in_their_slot() {
    assert_eq!(drop_target(-10, 5), 0);
    assert_eq!(drop_target(63, 5), 0);
    assert_eq!(drop_target(64, 5), 1);
    assert_eq!(drop_target(1000, 5), 4);
    assert_eq!(drop_target(100, 0), 0);
    let mut v = vec!['a', 'b', 'c', 'd'];
    let mut drag = Drag { index: 0, grab: 7 };
    move_dragged(&mut v, &mut drag, 2);
    assert_eq!(v, vec!['b', 'c', 'a', 'd']);
    assert_eq!((drag.index, drag.grab), (2, 7));
    move_dragged(&mut v, &mut drag, 2);
    assert_eq!(v, vec!['b', 'c', 'a', 'd']);
}

fn queue() -> Index<Song> {
    Index::from_vec(vec![song("q1", "A", 1), song("q2", "A", 2), song("q3", "B", 1)])
}

#[test]
fn queue_texts() {
    assert_eq!(queue_header(1), "1 track  ·  right-click a song for actions");
    assert_eq!(queue_header(3), "3 tracks  ·  right-click a song for actions");
    let s = song("x", "A", 1);
    assert_eq!(queue_song_label(0, &s, true), "> 1. x  ·  Zed  ·  A");
    assert_eq!(queue_song_label(9, &s, false), "  10. x  ·  Zed  ·  A");
}

#[test]
fn double_clicking_a_queue_row_plays_from_it() {
    let q = queue();
    let mut sel = PathSelection::new();
    let mut menu = ContextMenu::new();
    let r = queue_page_event(&q, &mut sel, &mut menu, QueueEvent::RowDoubleClick { row: 1 });
    assert!(matches!(r, Some(QueueAction::PlayIndex(1))));
    assert_eq!(sel.paths(), &["/Zed/A/q2".to_string()][..]);
    assert!(queue_page_event(&q, &mut sel, &mut menu, QueueEvent::RowDoubleClick { row: 3 }).is_none());
    assert!(queue_page_event(&q, &mut sel, &mut menu, QueueEvent::Idle).is_none());
    queue_page_event(&q, &mut sel, &mut menu, QueueEvent::RowClick { row: 2, shift: true, ctrl: false });
    assert_eq!(sel.paths().len(), 2);
}

#[test]
fn queue_menus_depend_on_the_row() {
    let q = queue();
    let mut sel = PathSelection::new();
    let mut menu = ContextMenu::new();
    queue_page_event(&q, &mut sel, &mut menu, QueueEvent::RowRightClick { row: 1, x: 2, y: 3 });
    let labels: Vec<&str> = menu.entries.iter().map(|e| e.label.as_str()).collect();
    assert_eq!(
        labels,
        vec!["Play", "Remove", "Move up", "Move down", "Clear queue", "Clear except playing", "Save as playlist"]
    );
    let seps: Vec<bool> = menu.entries.iter().map(|e| e.separator_before).collect();
    assert_eq!(seps, vec![false, false, false, false, true, false, false]);
    assert!(matches!(&menu.entries[1].command, MenuCommand::RemoveFromQueue(v) if v == &vec![1]));
    assert!(matches!(&menu.entries[2].command, MenuCommand::MoveUp(1)));
    assert!(matches!(&menu.entries[3].command, MenuCommand::MoveDown(1)));
    sel.toggle("/Zed/A/q1".to_string());
    queue_page_event(&q, &mut sel, &mut menu, QueueEvent::RowRightClick { row: 0, x: 2, y: 3 });
    let labels: Vec<&str> = menu.entries.iter().map(|e| e.label.as_str()).collect();
    assert_eq!(labels, vec!["Play", "Remove 2 tracks", "Move down", "Clear queue", "Clear except playing", "Save as playlist"]);
    assert!(matches!(&menu.entries[1].command, MenuCommand::RemoveFromQueue(v) if v == &vec![1, 0]));
    assert!(menu.entries[3].separator_before);
    sel.clear();
    queue_page_event(&q, &mut sel, &mut menu, QueueEvent::RowRightClick { row: 2, x: 2, y: 3 });
    let labels: Vec<&str> = menu.entries.iter().map(|e| e.label.as_str()).collect();
    assert_eq!(labels, vec!["Play", "Remove", "Move up", "Clear queue", "Clear except playing", "Save as playlist"]);
    assert!(matches!(&menu.entries[0].command, MenuCommand::Play { index: 2, songs } if songs.len() == 3));
}

#[test]
fn a_selection_can_be_copied() {
    let mut sel = PathSelection::new();
    sel.toggle("/a".to_string());
    let copy = sel.clone();
    assert_eq!(copy.paths(), sel.paths());
}

fn sidebar() -> Sidebar {
    Sidebar { active: true, selected_mode: PanelMode::Library, selected_artist: String::new(), update_library: false }
}

#[test]
fn the_side_panel_switches_modes_and_artists() {
    let names = vec!["abba".to_string(), "Beck".to_string(), "bjork".to_string(), "Zed".to_string()];
    let mut s = sidebar();
    assert!(sidebar_event(&mut s, &names, SidebarEvent::ModeClick(PanelMode::Queue)).is_none());
    assert_eq!(s.selected_mode, PanelMode::Queue);
    sidebar_event(&mut s, &names, SidebarEvent::ArtistClick(2));
    assert_eq!(s.selected_artist, "bjork");
    assert!(s.update_library);
    sidebar_event(&mut s, &names, SidebarEvent::ArtistClick(9));
    assert_eq!(s.selected_artist, "bjork");
    assert_eq!(sidebar_event(&mut s, &names, SidebarEvent::LetterJump('b')), Some(1));
    assert_eq!(sidebar_event(&mut s, &names, SidebarEvent::LetterJump('z')), Some(3));
    assert_eq!(sidebar_event(&mut s, &names, SidebarEvent::LetterJump('q')), None);
    sidebar_event(&mut s, &names, SidebarEvent::PanelClick);
    assert!(!s.active);
    assert_eq!(mode_label(PanelMode::Playlist), ("Playlist".to_string(), "3".to_string()));
}

#[test]
fn letter_headings_start_where_the_letter_changes() {
    let names = vec!["abba".to_string(), "Beck".to_string(), "bjork".to_string(), " x".to_string()];
    let starts: Vec<bool> = (0..4).map(|i| letter_starts(&names, i)).collect();
    assert_eq!(starts, vec![true, true, false, true]);
    assert!(!letter_starts(&[" lead".to_string()], 0));
    assert_eq!(jump_row(&names, 'B'), Some(1));
}

#[test]
fn play_pause_and_volume() {
    let mut c = PlayControls { playing: false, volume: 50 };
    assert_eq!(toggle_play(&mut c), PlayerCommand::Play);
    assert!(c.playing);
    assert_eq!(play_label(c.playing), "Pause");
    assert_eq!(toggle_play(&mut c), PlayerCommand::Pause);
    assert!(!c.playing);
    assert_eq!(play_label(c.playing), "Play");
    assert_eq!(set_volume(&mut c, 180), 100);
    assert_eq!(c.volume, 100);
    assert_eq!(set_volume(&mut c, 37), 37);
    assert_eq!(volume_text(c.volume), "37");
}
