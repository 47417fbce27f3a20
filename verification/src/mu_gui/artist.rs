//! The artist page: its header texts, and what a click, double-click or
//! right-click on a cover or a song row does to the selection, the context
//! menu and playback.
use vstd::prelude::*;
use crate::mu_core::db::{Song, song_paths};
use crate::mu_core::vdb::AlbumEntry;
use crate::mu_gui::context_menu::{ContextMenu, MenuCommand};
use crate::mu_gui::selection::{PathSelection, after_select_only, after_click, collected};
use crate::mu_gui::search::{copy_songs, lists_name};
use crate::text::{views, decimal, find_string, push_decimal};

verus! {

/// The label of the entry that queues `n` selected songs.
pub open spec fn add_label(n: nat) -> Seq<char> {
    if n <= 1 {
        "Add to queue"@
    } else {
        "Add "@ + decimal(n) + " to queue"@
    }
}

/// Where a song sits in the page's order: its first position, or the top.
pub open spec fn play_position(ordered_paths: Seq<Seq<char>>, path: Seq<char>) -> int {
    match ordered_paths.index_of_first(path) {
        Some(i) => i,
        None => 0,
    }
}

/// The selection after a right-click on the song at `path`: kept when the
/// song is already selected, else that song alone.
pub open spec fn selection_for_menu(before: PathSelection, after: PathSelection, path: Seq<char>) -> bool {
    if before.path_view().contains(path) {
        after == before
    } else {
        (after.path_view(), after.anchor_view()) == after_select_only(path)
    }
}

/// The menu of a song row: open at (`mx`, `my`) with "Play" (`all` from
/// the song's place in `ordered`), queueing the `selected` songs, and
/// queueing the album's songs; no separators.
pub open spec fn song_menu_shown(
    menu: ContextMenu,
    selected: Seq<Song>,
    all: Seq<Song>,
    ordered: Seq<Seq<char>>,
    album: Seq<Song>,
    path: Seq<char>,
    mx: i32,
    my: i32,
) -> bool {
    &&& menu.open
    &&& menu.x == mx
    &&& menu.y == my
    &&& menu.entries@.len() == 3
    &&& menu.entries@[0].label@ == "Play"@
    &&& menu.entries@[0].command matches MenuCommand::Play { songs, index } && songs@ == all
        && index == play_position(ordered, path)
    &&& menu.entries@[1].label@ == add_label(selected.len())
    &&& menu.entries@[1].command matches MenuCommand::AddToQueue(v) && v@ == selected
    &&& menu.entries@[2].label@ == "Add album to queue"@
    &&& menu.entries@[2].command matches MenuCommand::AddToQueue(v) && v@ == album
    &&& forall|i: int| 0 <= i < 3 ==> !(#[trigger] menu.entries@[i]).separator_before
}

/// Right-click on the song at `path`: unless it is already selected, it
/// becomes the only selection; then the menu opens at the pointer with
/// "Play" (the page's songs, from that song's place in the page order),
/// queueing the selected songs, and queueing the whole album.
pub fn open_song_menu(
    menu: &mut ContextMenu,
    selection: &mut PathSelection,
    ordered_paths: &[String],
    all_songs: &[Song],
    album_songs: &[Song],
    path: &str,
    mx: i32,
    my: i32,
)
    ensures
        selection_for_menu(*old(selection), *final(selection), path@),
        song_menu_shown(
            *final(menu),
            collected(final(selection).path_view(), all_songs@),
            all_songs@,
            views(ordered_paths@),
            album_songs@,
            path@,
            mx,
            my,
        ),
{
    if !selection.contains(path) {
        selection.select_only(path.to_string());
    }
    let selected = selection.collect_songs(all_songs);
    let n = selected.len();
    let target = path.to_string();
    let play_index = match find_string(ordered_paths, &target) {
        Some(i) => i,
        None => 0,
    };
    let label = if n <= 1 {
        "Add to queue".to_string()
    } else {
        let mut l = "Add ".to_string();
        push_decimal(&mut l, n as u64);
        l.append(" to queue");
        l
    };
    let mut entries: Vec<(String, MenuCommand)> = Vec::new();
    entries.push(("Play".to_string(), MenuCommand::Play { songs: copy_songs(all_songs), index: play_index }));
    entries.push((label, MenuCommand::AddToQueue(selected)));
    entries.push(("Add album to queue".to_string(), MenuCommand::AddToQueue(copy_songs(album_songs))));
    menu.open_at(mx, my, entries);
}


/// "s" unless `n` is one.
pub open spec fn plural(n: nat) -> Seq<char> {
    if n == 1 {
        Seq::empty()
    } else {
        "s"@
    }
}

/// The page's header line: how many albums and tracks the artist has.
pub open spec fn artist_header_label(albums: nat, tracks: nat) -> Seq<char> {
    decimal(albums) + " album"@ + plural(albums) + " · "@ + decimal(tracks) + " track"@ + plural(tracks)
}

pub fn artist_header(albums: usize, tracks: usize) -> (r: String)
    ensures
        r@ == artist_header_label(albums as nat, tracks as nat),
{
    let mut s = String::new();
    push_decimal(&mut s, albums as u64);
    s.append(" album");
    let ghost a = s@;
    if albums != 1 {
        s.append("s");
    }
    proof {
        assert(s@ =~= a + plural(albums as nat));
    }
    s.append(" · ");
    push_decimal(&mut s, tracks as u64);
    s.append(" track");
    let ghost b = s@;
    if tracks != 1 {
        s.append("s");
    }
    proof {
        assert(s@ =~= b + plural(tracks as nat));
        assert(s@ =~= artist_header_label(albums as nat, tracks as nat));
    }
    s
}

/// An album's line under its title: the year when it is known, and the
/// number of tracks.
pub open spec fn album_subtext_label(year: nat, tracks: nat) -> Seq<char> {
    if year > 0 {
        decimal(year) + " · "@ + decimal(tracks) + " tracks"@
    } else {
        decimal(tracks) + " tracks"@
    }
}

pub fn album_subtext(year: u16, tracks: usize) -> (r: String)
    ensures
        r@ == album_subtext_label(year as nat, tracks as nat),
{
    let mut s = String::new();
    if year > 0 {
        push_decimal(&mut s, year as u64);
        s.append(" · ");
    }
    push_decimal(&mut s, tracks as u64);
    s.append(" tracks");
    proof {
        assert(s@ =~= album_subtext_label(year as nat, tracks as nat));
    }
    s
}

/// A song row on the artist page: a mark for the playing song, the track
/// number and the title.
pub open spec fn artist_row_label(track: nat, title: Seq<char>, playing: bool) -> Seq<char> {
    (if playing { ">  "@ } else { "   "@ }) + decimal(track) + ".  "@ + title
}

pub fn artist_song_label(song: &Song, playing: bool) -> (r: String)
    ensures
        r@ == artist_row_label(song.track_number as nat, song.title@, playing),
{
    let mut s = if playing {
        ">  ".to_string()
    } else {
        "   ".to_string()
    };
    push_decimal(&mut s, song.track_number as u64);
    s.append(".  ");
    s.append(song.title.as_str());
    proof {
        assert(s@ =~= artist_row_label(song.track_number as nat, song.title@, playing));
    }
    s
}

/// The songs of one album entry.
pub open spec fn entry_songs(songs: Seq<Song>, e: AlbumEntry) -> Seq<Song> {
    songs.subrange(e.songs.start as int, e.songs.end as int)
}

/// Every album entry names a stretch of `n` songs.
pub open spec fn entries_within(albums: Seq<AlbumEntry>, n: int) -> bool {
    forall|k: int| 0 <= k < albums.len() ==> (#[trigger] albums[k]).songs.start <= albums[k].songs.end <= n
}

/// The page's songs: the songs of each album in turn.
pub open spec fn page_songs(albums: Seq<AlbumEntry>, songs: Seq<Song>) -> Seq<Song>
    decreases albums.len(),
{
    if albums.len() == 0 {
        Seq::empty()
    } else {
        page_songs(albums.drop_last(), songs) + entry_songs(songs, albums.last())
    }
}

/// Copies of the songs at positions `start..end`.
fn copy_range(songs: &[Song], start: usize, end: usize) -> (r: Vec<Song>)
    requires
        start <= end <= songs.len(),
    ensures
        r@ == songs@.subrange(start as int, end as int),
{
    let mut out: Vec<Song> = Vec::new();
    let mut i = start;
    while i < end
        invariant
            start <= i <= end <= songs.len(),
            out@ == songs@.subrange(start as int, i as int),
        decreases end - i,
    {
        out.push(songs[i].duplicate());
        proof {
            assert(out@ =~= songs@.subrange(start as int, i + 1));
        }
        i = i + 1;
    }
    out
}

/// The page's songs, album after album.
pub fn page_songs_of(albums: &[AlbumEntry], songs: &[Song]) -> (r: Vec<Song>)
    requires
        entries_within(albums@, songs@.len() as int),
    ensures
        r@ == page_songs(albums@, songs@),
{
    let mut out: Vec<Song> = Vec::new();
    let mut k: usize = 0;
    proof {
        assert(albums@.take(0) =~= Seq::<AlbumEntry>::empty());
    }
    while k < albums.len()
        invariant
            k <= albums.len(),
            entries_within(albums@, songs@.len() as int),
            out@ == page_songs(albums@.take(k as int), songs@),
        decreases albums.len() - k,
    {
        let e = &albums[k];
        proof {
            assert(albums@[k as int].songs.start <= albums@[k as int].songs.end <= songs@.len());
        }
        let mut part = copy_range(songs, e.songs.start, e.songs.end);
        out.append(&mut part);
        proof {
            let t = albums@.take(k + 1);
            assert(t.drop_last() =~= albums@.take(k as int));
            assert(t.last() == albums@[k as int]);
        }
        k = k + 1;
    }
    proof {
        assert(albums@.take(albums@.len() as int) =~= albums@);
    }
    out
}

/// The paths of a list of songs, in order.
pub fn paths_of(songs: &[Song]) -> (r: Vec<String>)
    ensures
        views(r@) == song_paths(songs@),
{
    let mut out: Vec<String> = Vec::new();
    let mut i: usize = 0;
    while i < songs.len()
        invariant
            i <= songs.len(),
            out@.len() == i,
            views(out@) =~= song_paths(songs@).take(i as int),
        decreases songs.len() - i,
    {
        let ghost before = out@;
        out.push(songs[i].path.clone());
        proof {
            assert(views(out@) =~= views(before).push(songs@[i as int].path@));
            assert(views(out@) =~= song_paths(songs@).take(i + 1));
        }
        i = i + 1;
    }
    proof {
        assert(song_paths(songs@).take(songs@.len() as int) =~= song_paths(songs@));
    }
    out
}

/// What the artist page reports.
pub enum Action {
    /// The artist is no longer in the library.
    MissingArtist,
    /// Play through the artist's songs from `index` (the queue is left alone).
    PlayDiscography { songs: Vec<Song>, index: usize },
}

/// What the pointer did on the artist page: albums and rows are counted
/// from zero, rows within their album.
pub enum ArtistPageEvent {
    Idle,
    CoverDoubleClick { album: usize },
    CoverRightClick { album: usize, x: i32, y: i32 },
    RowDoubleClick { album: usize, row: usize },
    RowClick { album: usize, row: usize, shift: bool, ctrl: bool },
    RowRightClick { album: usize, row: usize, x: i32, y: i32 },
}

/// Whether `r` plays `songs` from `index`.
pub open spec fn plays(r: Option<Action>, songs: Seq<Song>, index: int) -> bool {
    r matches Some(Action::PlayDiscography { songs: v, index: i }) && v@ == songs && i == index
}

/// `r` plays `songs` from the first song whose path is `path`; no action
/// when there is none.
pub open spec fn plays_from(r: Option<Action>, songs: Seq<Song>, path: Seq<char>) -> bool {
    match song_paths(songs).index_of_first(path) {
        Some(i) => plays(r, songs, i),
        None => r is None,
    }
}

/// The song on row `row` of album `album`, if there is such a row.
pub open spec fn row_song(albums: Seq<AlbumEntry>, songs: Seq<Song>, album: int, row: int) -> Option<Song> {
    if 0 <= album < albums.len() && 0 <= row < albums[album].songs.end - albums[album].songs.start {
        Some(songs[albums[album].songs.start + row])
    } else {
        None
    }
}

/// The first song of album `album`, if the album exists and has songs.
pub open spec fn cover_song(albums: Seq<AlbumEntry>, songs: Seq<Song>, album: int) -> Option<Song> {
    row_song(albums, songs, album, 0)
}

/// The album menu of a cover: "Play from album" plays the page's songs from
/// the album's first song, "Add album to queue" queues the album.
pub open spec fn album_menu_shown(menu: ContextMenu, all: Seq<Song>, album: Seq<Song>, first: Seq<char>, mx: i32, my: i32) -> bool {
    &&& menu.open
    &&& menu.x == mx
    &&& menu.y == my
    &&& menu.entries@.len() == 2
    &&& menu.entries@[0].label@ == "Play from album"@
    &&& menu.entries@[0].command matches MenuCommand::Play { songs, index } && songs@ == all
        && index == play_position(song_paths(all), first)
    &&& menu.entries@[1].label@ == "Add album to queue"@
    &&& menu.entries@[1].command matches MenuCommand::AddToQueue(v) && v@ == album
    &&& forall|i: int| 0 <= i < 2 ==> !(#[trigger] menu.entries@[i]).separator_before
}

/// A song row of the page holds one of the page's songs.
pub proof fn lemma_row_on_page(albums: Seq<AlbumEntry>, songs: Seq<Song>, album: int, row: int)
    requires
        entries_within(albums, songs.len() as int),
        row_song(albums, songs, album, row) is Some,
    ensures
        page_songs(albums, songs).contains(row_song(albums, songs, album, row)->0),
        song_paths(page_songs(albums, songs)).contains(row_song(albums, songs, album, row)->0.path@),
    decreases albums.len(),
{
    let s = row_song(albums, songs, album, row)->0;
    let all = page_songs(albums, songs);
    let d = albums.drop_last();
    let prev = page_songs(d, songs);
    assert(albums.last().songs.start <= albums.last().songs.end <= songs.len()) by {
        assert(albums.last() == albums[albums.len() - 1]);
    }
    if album == albums.len() - 1 {
        let e = entry_songs(songs, albums.last());
        assert(all == prev + e);
        assert(e[row] == s);
        assert(all[prev.len() + row] == s);
    } else {
        assert forall|k: int| 0 <= k < d.len() implies (#[trigger] d[k]).songs.start <= d[k].songs.end
            <= songs.len() by {
            assert(d[k] == albums[k]);
        }
        assert(d[album] == albums[album]);
        lemma_row_on_page(d, songs, album, row);
        let i = choose|i: int| 0 <= i < prev.len() && prev[i] == s;
        assert(all[i] == s);
    }
    let i = choose|i: int| 0 <= i < all.len() && all[i] == s;
    assert(song_paths(all)[i] == s.path@);
}

/// Double-clicking an existing song row, or the cover of an album with
/// songs, always starts playback, and the song it starts from carries the
/// clicked song's path.
pub proof fn lemma_double_click_plays_that_song(
    albums: Seq<AlbumEntry>,
    songs: Seq<Song>,
    album: int,
    row: int,
    r: Option<Action>,
)
    requires
        entries_within(albums, songs.len() as int),
        row_song(albums, songs, album, row) is Some,
        plays_from(r, page_songs(albums, songs), row_song(albums, songs, album, row)->0.path@),
    ensures
        r matches Some(Action::PlayDiscography { songs: v, index }) && index < v@.len() && v@[index as int].path@
            == row_song(albums, songs, album, row)->0.path@,
{
    let all = page_songs(albums, songs);
    let path = row_song(albums, songs, album, row)->0.path@;
    lemma_row_on_page(albums, songs, album, row);
    song_paths(all).index_of_first_ensures(path);
    let i = song_paths(all).index_of_first(path)->0;
    assert(song_paths(all)[i] == all[i].path@);
}

/// One event on the page of `artist`, whose albums are `albums` (stretches
/// of `songs`); `artists` is the library's artist list. A missing artist is
/// reported whatever the event. Events on covers or rows that do not exist
/// change nothing.
pub fn artist_page_event(
    artists: &[String],
    artist: &str,
    albums: &[AlbumEntry],
    songs: &[Song],
    selection: &mut PathSelection,
    menu: &mut ContextMenu,
    ev: ArtistPageEvent,
) -> (r: Option<Action>)
    requires
        entries_within(albums@, songs@.len() as int),
    ensures
        ({
            let all = page_songs(albums@, songs@);
            let unchanged = *final(selection) == *old(selection) && *final(menu) == *old(menu);
            if !views(artists@).contains(artist@) {
                r matches Some(Action::MissingArtist) && unchanged
            } else {
                match ev {
                    ArtistPageEvent::Idle => r is None && unchanged,
                    ArtistPageEvent::CoverDoubleClick { album } => unchanged && match cover_song(albums@, songs@, album as int) {
                        Some(first) => plays_from(r, all, first.path@),
                        None => r is None,
                    },
                    ArtistPageEvent::CoverRightClick { album, x, y } => r is None && *final(selection) == *old(selection)
                        && match cover_song(albums@, songs@, album as int) {
                        Some(first) => album_menu_shown(
                            *final(menu),
                            all,
                            entry_songs(songs@, albums@[album as int]),
                            first.path@,
                            x,
                            y,
                        ),
                        None => *final(menu) == *old(menu),
                    },
                    ArtistPageEvent::RowDoubleClick { album, row } => match row_song(albums@, songs@, album as int, row as int) {
                        Some(song) => {
                            &&& (final(selection).path_view(), final(selection).anchor_view()) == after_select_only(song.path@)
                            &&& *final(menu) == *old(menu)
                            &&& plays_from(r, all, song.path@)
                        },
                        None => r is None && unchanged,
                    },
                    ArtistPageEvent::RowClick { album, row, shift, ctrl } => r is None && match row_song(
                        albums@,
                        songs@,
                        album as int,
                        row as int,
                    ) {
                        Some(song) => {
                            &&& (final(selection).path_view(), final(selection).anchor_view()) == after_click(
                                old(selection).path_view(),
                                old(selection).anchor_view(),
                                song_paths(all),
                                song.path@,
                                shift,
                                ctrl,
                            )
                            &&& *final(menu) == *old(menu)
                        },
                        None => unchanged,
                    },
                    ArtistPageEvent::RowRightClick { album, row, x, y } => r is None && match row_song(
                        albums@,
                        songs@,
                        album as int,
                        row as int,
                    ) {
                        Some(song) => {
                            &&& selection_for_menu(*old(selection), *final(selection), song.path@)
                            &&& song_menu_shown(
                                *final(menu),
                                collected(final(selection).path_view(), all),
                                all,
                                song_paths(all),
                                entry_songs(songs@, albums@[album as int]),
                                song.path@,
                                x,
                                y,
                            )
                        },
                        None => unchanged,
                    },
                }
            }
        }),
{
    if !lists_name(artists, artist) {
        return Some(Action::MissingArtist);
    }
    let all = page_songs_of(albums, songs);
    let ordered = paths_of(&all);
    match ev {
        ArtistPageEvent::Idle => None,
        ArtistPageEvent::CoverDoubleClick { album } => {
            if album < albums.len() && albums[album].songs.start < albums[album].songs.end {
                proof {
                    assert(albums@[album as int].songs.end <= songs@.len());
                }
                let first = &songs[albums[album].songs.start];
                match find_string(&ordered, &first.path) {
                    Some(i) => Some(Action::PlayDiscography { songs: all, index: i }),
                    None => None,
                }
            } else {
                None
            }
        },
        ArtistPageEvent::CoverRightClick { album, x, y } => {
            if album < albums.len() && albums[album].songs.start < albums[album].songs.end {
                proof {
                    assert(albums@[album as int].songs.end <= songs@.len());
                }
                let e = &albums[album];
                let first = &songs[e.songs.start];
                let index = match find_string(&ordered, &first.path) {
                    Some(i) => i,
                    None => 0,
                };
                let album_list = copy_range(songs, e.songs.start, e.songs.end);
                let mut entries: Vec<(String, MenuCommand)> = Vec::new();
                entries.push(("Play from album".to_string(), MenuCommand::Play { songs: all, index }));
                entries.push(("Add album to queue".to_string(), MenuCommand::AddToQueue(album_list)));
                menu.open_at(x, y, entries);
            }
            None
        },
        ArtistPageEvent::RowDoubleClick { album, row } => {
            if album < albums.len() && row < albums[album].songs.end - albums[album].songs.start {
                proof {
                    assert(albums@[album as int].songs.start <= albums@[album as int].songs.end <= songs@.len());
                }
                let song = &songs[albums[album].songs.start + row];
                selection.select_only(song.path.clone());
                match find_string(&ordered, &song.path) {
                    Some(i) => Some(Action::PlayDiscography { songs: all, index: i }),
                    None => None,
                }
            } else {
                None
            }
        },
        ArtistPageEvent::RowClick { album, row, shift, ctrl } => {
            if album < albums.len() && row < albums[album].songs.end - albums[album].songs.start {
                proof {
                    assert(albums@[album as int].songs.start <= albums@[album as int].songs.end <= songs@.len());
                }
                let song = &songs[albums[album].songs.start + row];
                selection.click(&ordered, song.path.clone(), shift, ctrl);
            }
            None
        },
        ArtistPageEvent::RowRightClick { album, row, x, y } => {
            if album < albums.len() && row < albums[album].songs.end - albums[album].songs.start {
                proof {
                    assert(albums@[album as int].songs.start <= albums@[album as int].songs.end <= songs@.len());
                }
                let e = &albums[album];
                let song = &songs[e.songs.start + row];
                let album_list = copy_range(songs, e.songs.start, e.songs.end);
                open_song_menu(menu, selection, &ordered, &all, &album_list, song.path.as_str(), x, y);
            }
            None
        },
    }
}

} // verus!
