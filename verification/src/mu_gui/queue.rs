//! The queue page: its texts, and what a click, double-click or
//! right-click on one of its rows does.
use vstd::prelude::*;
use crate::mu_core::db::{Song, song_paths};
use crate::mu_core::index::Index;
use crate::mu_gui::artist::{paths_of, plural, selection_for_menu};
use crate::mu_gui::context_menu::{ContextMenu, MenuCommand};
use crate::mu_gui::search::copy_songs;
use crate::mu_gui::selection::{PathSelection, after_select_only, after_click};
use crate::text::{decimal, push_decimal, find_string, views};

verus! {

/// What the queue page reports.
pub enum Action {
    /// Play the queue from this position.
    PlayIndex(usize),
}

/// What the pointer did on the queue page; rows are counted from zero.
pub enum QueueEvent {
    Idle,
    RowDoubleClick { row: usize },
    RowClick { row: usize, shift: bool, ctrl: bool },
    RowRightClick { row: usize, x: i32, y: i32 },
}

/// The line under the page's title.
pub open spec fn queue_header_label(n: nat) -> Seq<char> {
    decimal(n) + " track"@ + plural(n) + "  ·  right-click a song for actions"@
}

pub fn queue_header(n: usize) -> (r: String)
    ensures
        r@ == queue_header_label(n as nat),
{
    let mut s = String::new();
    push_decimal(&mut s, n as u64);
    s.append(" track");
    let ghost a = s@;
    if n != 1 {
        s.append("s");
    }
    proof {
        assert(s@ =~= a + plural(n as nat));
    }
    s.append("  ·  right-click a song for actions");
    proof {
        assert(s@ =~= queue_header_label(n as nat));
    }
    s
}

/// A row of the queue: a mark for the playing song, the position counted
/// from one, then title, artist and album.
pub open spec fn queue_row_label(position: nat, title: Seq<char>, artist: Seq<char>, album: Seq<char>, playing: bool) -> Seq<char> {
    (if playing { "> "@ } else { "  "@ }) + decimal(position) + ". "@ + title + "  ·  "@ + artist + "  ·  "@ + album
}

pub fn queue_song_label(row: usize, song: &Song, playing: bool) -> (r: String)
    requires
        row < u64::MAX,
    ensures
        r@ == queue_row_label(row as nat + 1, song.title@, song.artist@, song.album@, playing),
{
    let mut s = if playing {
        "> ".to_string()
    } else {
        "  ".to_string()
    };
    push_decimal(&mut s, row as u64 + 1);
    s.append(". ");
    s.append(song.title.as_str());
    s.append("  ·  ");
    s.append(song.artist.as_str());
    s.append("  ·  ");
    s.append(song.album.as_str());
    proof {
        assert(s@ =~= queue_row_label(row as nat + 1, song.title@, song.artist@, song.album@, playing));
    }
    s
}

/// Where a path first stands in `ordered`, if it does.
pub open spec fn position_in(ordered: Seq<Seq<char>>) -> spec_fn(Seq<char>) -> Option<usize> {
    |p: Seq<char>|
        match ordered.index_of_first(p) {
            Some(i) => Some(i as usize),
            None => None,
        }
}

/// The positions of the selected paths in the queue, in selection order;
/// paths not in the queue are skipped.
pub open spec fn selected_positions(paths: Seq<Seq<char>>, ordered: Seq<Seq<char>>) -> Seq<usize> {
    paths.filter_map(position_in(ordered))
}

/// The positions of the selected songs in the queue.
pub fn positions_of(selection: &PathSelection, ordered: &[String]) -> (r: Vec<usize>)
    ensures
        r@ == selected_positions(selection.path_view(), views(ordered@)),
{
    let paths = selection.paths();
    let ghost f = position_in(views(ordered@));
    let mut out: Vec<usize> = Vec::new();
    let mut i: usize = 0;
    while i < paths.len()
        invariant
            i <= paths.len(),
            views(paths@) == selection.path_view(),
            f == position_in(views(ordered@)),
            out@ == selection.path_view().take(i as int).filter_map(f),
        decreases paths.len() - i,
    {
        proof {
            assert(selection.path_view().take(i + 1).drop_last() =~= selection.path_view().take(i as int));
            assert(selection.path_view().take(i + 1).last() == paths@[i as int]@);
        }
        match find_string(ordered, &paths[i]) {
            Some(j) => {
                out.push(j);
            },
            None => {},
        }
        i = i + 1;
    }
    proof {
        assert(selection.path_view().take(paths.len() as int) =~= selection.path_view());
    }
    out
}

/// The label of the entry that removes `n` songs.
pub open spec fn remove_label(n: nat) -> Seq<char> {
    if n <= 1 {
        "Remove"@
    } else {
        "Remove "@ + decimal(n) + " tracks"@
    }
}

/// The menu of queue row `row`: "Play" (the queue from that row), removing
/// the selected songs (that row when none of them is queued), "Move up"
/// unless it is the first row, "Move down" unless it is the last, then,
/// after a separator, clearing the queue, clearing all but the playing
/// song, and saving the queue as a playlist.
pub open spec fn queue_menu_shown(
    menu: ContextMenu,
    queue: Seq<Song>,
    row: int,
    positions: Seq<usize>,
    mx: i32,
    my: i32,
) -> bool {
    let up: int = if row > 0 { 1 } else { 0 };
    let down: int = if row + 1 < queue.len() { 1 } else { 0 };
    let k = 2 + up + down;
    let removed = if positions.len() == 0 { seq![row as usize] } else { positions };
    &&& menu.open
    &&& menu.x == mx
    &&& menu.y == my
    &&& menu.entries@.len() == k + 3
    &&& menu.entries@[0].label@ == "Play"@
    &&& menu.entries@[0].command matches MenuCommand::Play { songs, index } && songs@ == queue && index == row
    &&& menu.entries@[1].label@ == remove_label(positions.len())
    &&& menu.entries@[1].command matches MenuCommand::RemoveFromQueue(v) && v@ == removed
    &&& up == 1 ==> (menu.entries@[2].label@ == "Move up"@ && menu.entries@[2].command == MenuCommand::MoveUp(
        row as usize,
    ))
    &&& down == 1 ==> (menu.entries@[2 + up].label@ == "Move down"@ && menu.entries@[2 + up].command
        == MenuCommand::MoveDown(row as usize))
    &&& menu.entries@[k].label@ == "Clear queue"@
    &&& menu.entries@[k].command is ClearQueue
    &&& menu.entries@[k + 1].label@ == "Clear except playing"@
    &&& menu.entries@[k + 1].command is ClearExceptPlaying
    &&& menu.entries@[k + 2].label@ == "Save as playlist"@
    &&& menu.entries@[k + 2].command is SaveQueueAsPlaylist
    &&& forall|i: int| 0 <= i < k + 3 ==> (#[trigger] menu.entries@[i]).separator_before == (i == k)
}

/// One event on the queue page. Rows that do not exist change nothing.
pub fn queue_page_event(
    queue: &Index<Song>,
    selection: &mut PathSelection,
    menu: &mut ContextMenu,
    ev: QueueEvent,
) -> (r: Option<Action>)
    ensures
        ({
            let songs = queue.data@;
            let unchanged = *final(selection) == *old(selection) && *final(menu) == *old(menu);
            match ev {
                QueueEvent::Idle => r is None && unchanged,
                QueueEvent::RowDoubleClick { row } => if row < songs.len() {
                    &&& (final(selection).path_view(), final(selection).anchor_view()) == after_select_only(
                        songs[row as int].path@,
                    )
                    &&& *final(menu) == *old(menu)
                    &&& r == Some(Action::PlayIndex(row))
                } else {
                    r is None && unchanged
                },
                QueueEvent::RowClick { row, shift, ctrl } => r is None && if row < songs.len() {
                    &&& (final(selection).path_view(), final(selection).anchor_view()) == after_click(
                        old(selection).path_view(),
                        old(selection).anchor_view(),
                        song_paths(songs),
                        songs[row as int].path@,
                        shift,
                        ctrl,
                    )
                    &&& *final(menu) == *old(menu)
                } else {
                    unchanged
                },
                QueueEvent::RowRightClick { row, x, y } => r is None && if row < songs.len() {
                    &&& selection_for_menu(*old(selection), *final(selection), songs[row as int].path@)
                    &&& queue_menu_shown(
                        *final(menu),
                        songs,
                        row as int,
                        selected_positions(final(selection).path_view(), song_paths(songs)),
                        x,
                        y,
                    )
                } else {
                    unchanged
                },
            }
        }),
{
    let songs = queue.data.as_slice();
    match ev {
        QueueEvent::Idle => None,
        QueueEvent::RowDoubleClick { row } => {
            if row < songs.len() {
                selection.select_only(songs[row].path.clone());
                Some(Action::PlayIndex(row))
            } else {
                None
            }
        },
        QueueEvent::RowClick { row, shift, ctrl } => {
            if row < songs.len() {
                let ordered = paths_of(songs);
                selection.click(&ordered, songs[row].path.clone(), shift, ctrl);
            }
            None
        },
        QueueEvent::RowRightClick { row, x, y } => {
            if row < songs.len() {
                let path = &songs[row].path;
                if !selection.contains(path.as_str()) {
                    selection.select_only(path.clone());
                }
                let ordered = paths_of(songs);
                let idxs = positions_of(selection, &ordered);
                let n = idxs.len();
                let label = if n <= 1 {
                    "Remove".to_string()
                } else {
                    let mut l = "Remove ".to_string();
                    push_decimal(&mut l, n as u64);
                    l.append(" tracks");
                    l
                };
                let ghost positions = idxs@;
                let removed = if n == 0 {
                    let mut v: Vec<usize> = Vec::new();
                    v.push(row);
                    v
                } else {
                    idxs
                };
                proof {
                    if n == 0 {
                        assert(removed@ =~= seq![row]);
                    } else {
                        assert(removed@ == positions);
                    }
                }
                let mut entries: Vec<(String, MenuCommand)> = Vec::new();
                entries.push(("Play".to_string(), MenuCommand::Play { songs: copy_songs(songs), index: row }));
                entries.push((label, MenuCommand::RemoveFromQueue(removed)));
                if row > 0 {
                    entries.push(("Move up".to_string(), MenuCommand::MoveUp(row)));
                }
                if row + 1 < songs.len() {
                    entries.push(("Move down".to_string(), MenuCommand::MoveDown(row)));
                }
                let sep = entries.len();
                entries.push(("Clear queue".to_string(), MenuCommand::ClearQueue));
                entries.push(("Clear except playing".to_string(), MenuCommand::ClearExceptPlaying));
                entries.push(("Save as playlist".to_string(), MenuCommand::SaveQueueAsPlaylist));
                menu.open_at_with_sep(x, y, entries, sep);
            }
            None
        },
    }
}

} // verus!
