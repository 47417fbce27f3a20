//! The playlist pages: the list of saved playlists and one playlist's
//! songs, with what a click, double-click or right-click on them does.
use vstd::prelude::*;
use crate::mu_core::db::{Song, song_paths};
use crate::mu_core::index::Index;
use crate::mu_core::playlist::Playlist;
use crate::mu_gui::artist::{add_label, selection_for_menu, paths_of};
use crate::mu_gui::context_menu::{ContextMenu, MenuCommand};
use crate::mu_gui::selection::{PathSelection, after_select_only, after_click, collected};
use crate::mu_gui::search::copy_songs;
use crate::mu_gui::session::playlist_names;
use crate::text::{decimal, push_decimal, compare_text, TextOrder};

verus! {

/// What the playlist pages report.
pub enum Action {
    /// Show the songs of the playlist with this name.
    OpenDetail(String),
    /// Go back to the list of playlists.
    Back,
    /// Replace playback with `songs` and play from `index`.
    Play { songs: Vec<Song>, index: usize },
}

/// What the pointer did on the list of playlists.
pub enum ListEvent {
    Idle,
    RowClick { row: usize },
    RowRightClick { row: usize, x: i32, y: i32 },
}

/// What the pointer did on a playlist's page; rows are counted from zero.
pub enum DetailEvent {
    Idle,
    BackClick,
    RowDoubleClick { row: usize },
    RowClick { row: usize, shift: bool, ctrl: bool },
    RowRightClick { row: usize, x: i32, y: i32 },
}

/// A row of the list of playlists: the name and the number of songs.
pub open spec fn list_row_label(name: Seq<char>, count: nat) -> Seq<char> {
    name + "  ·  "@ + decimal(count) + " songs"@
}

pub fn playlist_row_label(name: &str, count: usize) -> (r: String)
    ensures
        r@ == list_row_label(name@, count as nat),
{
    let mut s = name.to_string();
    s.append("  ·  ");
    push_decimal(&mut s, count as u64);
    s.append(" songs");
    proof {
        assert(s@ =~= list_row_label(name@, count as nat));
    }
    s
}

/// The line under a playlist's name.
pub open spec fn detail_header_label(n: nat) -> Seq<char> {
    decimal(n) + " songs · right-click a track"@
}

pub fn playlist_detail_header(n: usize) -> (r: String)
    ensures
        r@ == detail_header_label(n as nat),
{
    let mut s = String::new();
    push_decimal(&mut s, n as u64);
    s.append(" songs · right-click a track");
    proof {
        assert(s@ =~= detail_header_label(n as nat));
    }
    s
}

/// A song row of a playlist's page: a mark for the playing song, then the
/// title, artist and album.
pub open spec fn detail_row_label(title: Seq<char>, artist: Seq<char>, album: Seq<char>, playing: bool) -> Seq<char> {
    (if playing { "> "@ } else { "  "@ }) + title + "  ·  "@ + artist + "  ·  "@ + album
}

pub fn playlist_song_label(song: &Song, playing: bool) -> (r: String)
    ensures
        r@ == detail_row_label(song.title@, song.artist@, song.album@, playing),
{
    let mut s = if playing {
        "> ".to_string()
    } else {
        "  ".to_string()
    };
    s.append(song.title.as_str());
    s.append("  ·  ");
    s.append(song.artist.as_str());
    s.append("  ·  ");
    s.append(song.album.as_str());
    proof {
        assert(s@ =~= detail_row_label(song.title@, song.artist@, song.album@, playing));
    }
    s
}

/// The position of the first playlist called `name`.
pub fn find_playlist(lists: &Index<Playlist>, name: &str) -> (r: Option<usize>)
    ensures
        match r {
            Some(i) => i < lists.data@.len() && playlist_names(lists.data@).index_of_first(name@) == Some(i as int),
            None => playlist_names(lists.data@).index_of_first(name@) is None,
        },
{
    let ghost ns = playlist_names(lists.data@);
    proof {
        ns.index_of_first_ensures(name@);
    }
    let mut i: usize = 0;
    while i < lists.data.len()
        invariant
            i <= lists.data.len(),
            ns == playlist_names(lists.data@),
            ns.len() == lists.data.len(),
            forall|j: int| 0 <= j < i ==> ns[j] != name@,
            match ns.index_of_first(name@) {
                Some(index) => {
                    &&& ns.contains(name@)
                    &&& 0 <= index < ns.len()
                    &&& ns[index] == name@
                    &&& forall|j: int| 0 <= j < index < ns.len() ==> ns[j] != name@
                },
                None => !ns.contains(name@),
            },
        decreases lists.data.len() - i,
    {
        if compare_text(lists.data[i].name(), name) == TextOrder::Same {
            proof {
                assert(ns[i as int] == name@);
                assert(ns.contains(name@));
            }
            return Some(i);
        }
        i = i + 1;
    }
    proof {
        if ns.contains(name@) {
            let k = choose|k: int| 0 <= k < ns.len() && ns[k] == name@;
            assert(ns[k] != name@);
        }
    }
    None
}

/// The menu of a playlist in the list: "Play" and "Add to queue" when it
/// has songs, then "Delete playlist" after a separator; only
/// "Delete playlist" when it is empty.
pub open spec fn list_menu_shown(menu: ContextMenu, songs: Seq<Song>, name: Seq<char>, mx: i32, my: i32) -> bool {
    &&& menu.open
    &&& menu.x == mx
    &&& menu.y == my
    &&& if songs.len() > 0 {
        &&& menu.entries@.len() == 3
        &&& menu.entries@[0].label@ == "Play"@
        &&& menu.entries@[0].command matches MenuCommand::Play { songs: v, index } && v@ == songs && index == 0
        &&& menu.entries@[1].label@ == "Add to queue"@
        &&& menu.entries@[1].command matches MenuCommand::AddToQueue(v) && v@ == songs
        &&& menu.entries@[2].label@ == "Delete playlist"@
        &&& menu.entries@[2].command matches MenuCommand::DeletePlaylist(n) && n@ == name
        &&& forall|i: int| 0 <= i < 3 ==> (#[trigger] menu.entries@[i]).separator_before == (i == 2)
    } else {
        &&& menu.entries@.len() == 1
        &&& menu.entries@[0].label@ == "Delete playlist"@
        &&& menu.entries@[0].command matches MenuCommand::DeletePlaylist(n) && n@ == name
        &&& !menu.entries@[0].separator_before
    }
}

/// One event on the list of playlists. A click opens that playlist; a
/// right-click opens its menu. Rows that do not exist change nothing.
pub fn playlist_list_event(lists: &Index<Playlist>, menu: &mut ContextMenu, ev: ListEvent) -> (r: Option<Action>)
    ensures
        match ev {
            ListEvent::Idle => r is None && *final(menu) == *old(menu),
            ListEvent::RowClick { row } => *final(menu) == *old(menu) && if row < lists.data@.len() {
                r matches Some(Action::OpenDetail(n)) && n@ == lists.data@[row as int].name_view()
            } else {
                r is None
            },
            ListEvent::RowRightClick { row, x, y } => r is None && if row < lists.data@.len() {
                list_menu_shown(
                    *final(menu),
                    lists.data@[row as int].song_seq(),
                    lists.data@[row as int].name_view(),
                    x,
                    y,
                )
            } else {
                *final(menu) == *old(menu)
            },
        },
{
    match ev {
        ListEvent::Idle => None,
        ListEvent::RowClick { row } => {
            if row < lists.data.len() {
                Some(Action::OpenDetail(lists.data[row].name().to_string()))
            } else {
                None
            }
        },
        ListEvent::RowRightClick { row, x, y } => {
            if row < lists.data.len() {
                let p = &lists.data[row];
                let mut entries: Vec<(String, MenuCommand)> = Vec::new();
                let songs = p.song_slice();
                if songs.len() > 0 {
                    entries.push(("Play".to_string(), MenuCommand::Play { songs: copy_songs(songs), index: 0 }));
                    entries.push(("Add to queue".to_string(), MenuCommand::AddToQueue(copy_songs(songs))));
                }
                let sep = entries.len();
                entries.push(("Delete playlist".to_string(), MenuCommand::DeletePlaylist(p.name().to_string())));
                if sep > 0 {
                    menu.open_at_with_sep(x, y, entries, sep);
                } else {
                    menu.open_at(x, y, entries);
                }
            }
            None
        },
    }
}

/// The menu of a song row on a playlist's page: "Play" (the playlist from
/// that row), queueing the selected songs, queueing the whole playlist,
/// and deleting the playlist after a separator.
pub open spec fn detail_menu_shown(
    menu: ContextMenu,
    selected: Seq<Song>,
    songs: Seq<Song>,
    row: int,
    name: Seq<char>,
    mx: i32,
    my: i32,
) -> bool {
    &&& menu.open
    &&& menu.x == mx
    &&& menu.y == my
    &&& menu.entries@.len() == 4
    &&& menu.entries@[0].label@ == "Play"@
    &&& menu.entries@[0].command matches MenuCommand::Play { songs: v, index } && v@ == songs && index == row
    &&& menu.entries@[1].label@ == add_label(selected.len())
    &&& menu.entries@[1].command matches MenuCommand::AddToQueue(v) && v@ == selected
    &&& menu.entries@[2].label@ == "Add all to queue"@
    &&& menu.entries@[2].command matches MenuCommand::AddToQueue(v) && v@ == songs
    &&& menu.entries@[3].label@ == "Delete playlist"@
    &&& menu.entries@[3].command matches MenuCommand::DeletePlaylist(n) && n@ == name
    &&& forall|i: int| 0 <= i < 4 ==> (#[trigger] menu.entries@[i]).separator_before == (i == 3)
}


/// One event on the page of the playlist called `name`. When no playlist
/// has that name the page goes back, whatever the event. Rows that do not
/// exist change nothing.
pub fn playlist_detail_event(
    lists: &Index<Playlist>,
    name: &str,
    selection: &mut PathSelection,
    menu: &mut ContextMenu,
    ev: DetailEvent,
) -> (r: Option<Action>)
    ensures
        ({
            let unchanged = *final(selection) == *old(selection) && *final(menu) == *old(menu);
            match playlist_names(lists.data@).index_of_first(name@) {
                None => r matches Some(Action::Back) && unchanged,
                Some(j) => {
                    let songs = lists.data@[j].song_seq();
                    match ev {
                        DetailEvent::Idle => r is None && unchanged,
                        DetailEvent::BackClick => r matches Some(Action::Back) && unchanged,
                        DetailEvent::RowDoubleClick { row } => if row < songs.len() {
                            &&& (final(selection).path_view(), final(selection).anchor_view()) == after_select_only(
                                songs[row as int].path@,
                            )
                            &&& *final(menu) == *old(menu)
                            &&& r matches Some(Action::Play { songs: v, index }) && v@ == songs && index == row
                        } else {
                            r is None && unchanged
                        },
                        DetailEvent::RowClick { row, shift, ctrl } => r is None && if row < songs.len() {
                            &&& (final(selection).path_view(), final(selection).anchor_view()) == after_click(
                                old(selection).path_view(),
                                old(selection).anchor_view(),
                                song_paths(songs),
                                songs[row as int].path@,
                                shift,
                                ctrl,
                            )
                            &&& *final(menu) == *old(menu)
                        } else {
                            unchanged
                        },
                        DetailEvent::RowRightClick { row, x, y } => r is None && if row < songs.len() {
                            &&& selection_for_menu(*old(selection), *final(selection), songs[row as int].path@)
                            &&& detail_menu_shown(
                                *final(menu),
                                collected(final(selection).path_view(), songs),
                                songs,
                                row as int,
                                name@,
                                x,
                                y,
                            )
                        } else {
                            unchanged
                        },
                    }
                },
            }
        }),
{
    let j = match find_playlist(lists, name) {
        Some(j) => j,
        None => return Some(Action::Back),
    };
    let songs = lists.data[j].song_slice();
    match ev {
        DetailEvent::Idle => None,
        DetailEvent::BackClick => Some(Action::Back),
        DetailEvent::RowDoubleClick { row } => {
            if row < songs.len() {
                selection.select_only(songs[row].path.clone());
                Some(Action::Play { songs: copy_songs(songs), index: row })
            } else {
                None
            }
        },
        DetailEvent::RowClick { row, shift, ctrl } => {
            if row < songs.len() {
                let ordered = paths_of(songs);
                selection.click(&ordered, songs[row].path.clone(), shift, ctrl);
            }
            None
        },
        DetailEvent::RowRightClick { row, x, y } => {
            if row < songs.len() {
                let path = &songs[row].path;
                if !selection.contains(path.as_str()) {
                    selection.select_only(path.clone());
                }
                let selected = selection.collect_songs(songs);
                let n = selected.len();
                let label = if n <= 1 {
                    "Add to queue".to_string()
                } else {
                    let mut l = "Add ".to_string();
                    push_decimal(&mut l, n as u64);
                    l.append(" to queue");
                    l
                };
                let mut entries: Vec<(String, MenuCommand)> = Vec::new();
                entries.push(("Play".to_string(), MenuCommand::Play { songs: copy_songs(songs), index: row }));
                entries.push((label, MenuCommand::AddToQueue(selected)));
                entries.push(("Add all to queue".to_string(), MenuCommand::AddToQueue(copy_songs(songs))));
                entries.push(("Delete playlist".to_string(), MenuCommand::DeletePlaylist(name.to_string())));
                menu.open_at_with_sep(x, y, entries, 3);
            }
            None
        },
    }
}

} // verus!
