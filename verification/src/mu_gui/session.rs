//! Playback sessions and the explicit queue of the desktop front end: where
//! playback was started from, queue edits and playlist naming.
use vstd::prelude::*;
use crate::mu_core::db::{Song, song_paths, find_song_by_path, first_song_with_path};
use crate::mu_core::index::{Index, selected_item};
use crate::mu_core::playlist::Playlist;
use crate::text::{views, decimal, push_char, push_decimal, compare_text, TextOrder};
use crate::mu_gui::selection::PathSelection;
use crate::mu_gui::sidebar::{scroll_to_index, row_top};
use crate::mu_gui::context_menu::MenuCommand;
use crate::mu_gui::command_palette::{Action, CommandPalette};
use crate::mu_gui::search::{lists_name, copy_songs};
use crate::mu_core::vdb::{Database, ArtistEntry, by_artist};
use crate::mu_core::db::song_views;

verus! {

/// The page the window shows.
#[derive(Debug, Clone)]
pub enum Mode {
    Queue,
    Playlist,
    PlaylistDetail { name: String },
    Artist { name: String },
    Settings,
}

/// What happens at the end of the playing list.
#[derive(Debug, Clone, Copy, PartialEq, Eq, Structural)]
pub enum RepeatMode {
    Off,
    All,
    One,
}

/// Where the current playback session was started from.
#[derive(Debug, Clone)]
pub enum PlaybackOrigin {
    /// No known source.
    Unset,
    Queue,
    Artist(String),
    Playlist(String),
}

/// The origin a playback session started on a page gets.
pub fn origin_from_mode(mode: &Mode) -> (r: PlaybackOrigin)
    ensures
        match *mode {
            Mode::Queue => r is Queue,
            Mode::Artist { name } => r matches PlaybackOrigin::Artist(n) && n@ == name@,
            Mode::PlaylistDetail { name } => r matches PlaybackOrigin::Playlist(n) && n@ == name@,
            Mode::Playlist => r is Unset,
            Mode::Settings => r is Unset,
        },
{
    match mode {
        Mode::Queue => PlaybackOrigin::Queue,
        Mode::Artist { name } => PlaybackOrigin::Artist(name.clone()),
        Mode::PlaylistDetail { name } => PlaybackOrigin::Playlist(name.clone()),
        Mode::Playlist | Mode::Settings => PlaybackOrigin::Unset,
    }
}

/// Append songs to the explicit queue, leaving playback alone; the number
/// of songs added.
pub fn append_queue(queue: &mut Index<Song>, list: Vec<Song>) -> (n: usize)
    ensures
        final(queue).data@ == old(queue).data@ + list@,
        final(queue).index == old(queue).index,
        n == list.len(),
{
    if list.len() == 0 {
        proof {
            assert(old(queue).data@ + list@ =~= old(queue).data@);
        }
        return 0;
    }
    let n = list.len();
    queue.extend(list);
    n
}

/// Move the queued song at `from` to position `to`; nothing happens unless
/// both are positions of the queue and differ.
pub fn move_queue_song(queue: &mut Index<Song>, from: usize, to: usize)
    ensures
        from < old(queue).data.len() && to < old(queue).data.len() && from != to ==> final(queue).data@
            == old(queue).data@.remove(from as int).insert(to as int, old(queue).data@[from as int]),
        !(from < old(queue).data.len() && to < old(queue).data.len() && from != to) ==> *final(queue)
            == *old(queue),
        final(queue).index == old(queue).index,
{
    if from >= queue.len() || to >= queue.len() || from == to {
        return;
    }
    let song = queue.remove(from);
    queue.insert(to, song);
}

/// The items of `s` from position `a` on whose positions are not listed in
/// `idxs`, in order.
pub open spec fn unlisted_from<T>(s: Seq<T>, idxs: Seq<usize>, a: int) -> Seq<T>
    decreases s.len() - a,
{
    if a < 0 || a >= s.len() {
        Seq::<T>::empty()
    } else {
        let rest = unlisted_from(s, idxs, a + 1);
        if idxs.contains(a as usize) {
            rest
        } else {
            seq![s[a]] + rest
        }
    }
}

/// Whether `x` is in `v`.
fn contains_index(v: &Vec<usize>, x: usize) -> (r: bool)
    ensures
        r == v@.contains(x),
{
    let mut i: usize = 0;
    while i < v.len()
        invariant
            i <= v.len(),
            forall|j: int| 0 <= j < i ==> v@[j] != x,
        decreases v.len() - i,
    {
        if v[i] == x {
            return true;
        }
        i = i + 1;
    }
    false
}

/// Remove the queued songs at the listed positions; positions past the end
/// and repeated positions are ignored.
pub fn remove_queue_indices(queue: &mut Index<Song>, idxs: Vec<usize>)
    ensures
        final(queue).data@ == unlisted_from(old(queue).data@, idxs@, 0),
        final(queue).index == old(queue).index,
{
    let ghost orig = queue.data@;
    let mut i: usize = queue.len();
    proof {
        assert(orig.take(i as int) =~= orig);
    }
    while i > 0
        invariant
            i <= orig.len(),
            queue.data@ == orig.take(i as int) + unlisted_from(orig, idxs@, i as int),
            queue.index == old(queue).index,
        decreases i,
    {
        let ghost rest = unlisted_from(orig, idxs@, i as int);
        proof {
            assert(orig.take(i as int) =~= orig.take(i - 1).push(orig[i - 1]));
        }
        if contains_index(&idxs, i - 1) {
            queue.remove(i - 1);
            proof {
                assert(queue.data@ =~= orig.take(i - 1) + rest);
            }
        } else {
            proof {
                assert(orig.take(i - 1).push(orig[i - 1]) + rest =~= orig.take(i - 1) + (seq![orig[i - 1]] + rest));
            }
        }
        i = i - 1;
    }
    proof {
        assert(queue.data@ =~= unlisted_from(orig, idxs@, 0));
    }
}

/// The names of a list of playlists.
pub open spec fn playlist_names(lists: Seq<Playlist>) -> Seq<Seq<char>> {
    lists.map_values(|p: Playlist| p.name_view())
}

/// `base`, a space and the decimal digits of `n`.
pub open spec fn numbered(base: Seq<char>, n: nat) -> Seq<char> {
    base + seq![' '] + decimal(n)
}

/// The first number from `n` below 1000 that makes a free name.
pub open spec fn first_free_number(names: Seq<Seq<char>>, base: Seq<char>, n: nat) -> Option<nat>
    decreases 1000 - n,
{
    if n >= 1000 {
        None
    } else if !names.contains(numbered(base, n)) {
        Some(n)
    } else {
        first_free_number(names, base, n + 1)
    }
}

/// Whether some playlist in `lists` is named `name`.
fn has_playlist_named(lists: &Index<Playlist>, name: &str) -> (r: bool)
    ensures
        r == playlist_names(lists.data@).contains(name@),
{
    let ghost names = playlist_names(lists.data@);
    let mut i: usize = 0;
    while i < lists.data.len()
        invariant
            names == playlist_names(lists.data@),
            i <= lists.data.len(),
            forall|j: int| 0 <= j < i ==> names[j] != name@,
        decreases lists.data.len() - i,
    {
        if compare_text(lists.data[i].name(), name) == TextOrder::Same {
            proof {
                assert(names[i as int] == name@);
            }
            return true;
        }
        i = i + 1;
    }
    false
}

/// The name picked for a new playlist based on `base`, among playlists
/// named `names` (`count` of them): `base` itself if free, else `base` and
/// the first free number from 2 to 999, else `base` and `count + 1`.
pub open spec fn chosen_playlist_name(names: Seq<Seq<char>>, base: Seq<char>, count: nat) -> Seq<char> {
    if !names.contains(base) {
        base
    } else {
        match first_free_number(names, base, 2) {
            Some(n) => numbered(base, n),
            None => numbered(base, count + 1),
        }
    }
}

/// A playlist name based on `base` that no playlist has: `base` itself,
/// else `base` and the first free number from 2 to 999, else `base` and
/// the number of playlists plus one.
pub fn unique_playlist_name(lists: &Index<Playlist>, base: &str) -> (r: String)
    requires
        lists.data.len() < usize::MAX,
    ensures
        r@ == chosen_playlist_name(playlist_names(lists.data@), base@, lists.data.len() as nat),
{
    let ghost names = playlist_names(lists.data@);
    if !has_playlist_named(lists, base) {
        return base.to_owned();
    }
    let mut n: u64 = 2;
    while n < 1000
        invariant
            names == playlist_names(lists.data@),
            names.contains(base@),
            2 <= n <= 1000,
            first_free_number(names, base@, 2) == first_free_number(names, base@, n as nat),
        decreases 1000 - n,
    {
        let mut candidate = base.to_owned();
        push_char(&mut candidate, ' ');
        push_decimal(&mut candidate, n);
        proof {
            assert(candidate@ =~= numbered(base@, n as nat));
        }
        if !has_playlist_named(lists, candidate.as_str()) {
            proof {
                assert(first_free_number(names, base@, n as nat) == Some(n as nat));
            }
            return candidate;
        }
        proof {
            assert(first_free_number(names, base@, n as nat) == first_free_number(names, base@, (n + 1) as nat));
        }
        n = n + 1;
    }
    proof {
        assert(first_free_number(names, base@, 1000) is None);
    }
    let mut name = base.to_owned();
    push_char(&mut name, ' ');
    push_decimal(&mut name, lists.data.len() as u64 + 1);
    proof {
        assert(name@ =~= numbered(base@, (lists.data.len() + 1) as nat));
    }
    name
}

/// Start a playback session on `list` at `index` (the last song for a
/// position past the end), leaving the explicit queue alone; an empty list
/// changes nothing. Whether there is a song to play now.
pub fn start_playback(
    playback: &mut Index<Song>,
    origin: &mut PlaybackOrigin,
    list: Vec<Song>,
    index: usize,
    new_origin: PlaybackOrigin,
) -> (play: bool)
    ensures
        list.len() == 0 ==> !play && *final(playback) == *old(playback) && *final(origin) == *old(origin),
        list.len() > 0 ==> {
            &&& play
            &&& final(playback).data@ == list@
            &&& final(playback).index == Some(if index < list.len() { index } else { (list.len() - 1) as usize })
            &&& *final(origin) == new_origin
        },
{
    if list.len() == 0 {
        return false;
    }
    let idx = if index < list.len() - 1 { index } else { list.len() - 1 };
    *playback = Index::new(list, Some(idx));
    *origin = new_origin;
    true
}

/// The page a `Mode` stands for, with its names as character sequences.
pub enum ModeView {
    Queue,
    Playlist,
    PlaylistDetail(Seq<char>),
    Artist(Seq<char>),
    Settings,
}

impl View for Mode {
    type V = ModeView;

    open spec fn view(&self) -> ModeView {
        match *self {
            Mode::Queue => ModeView::Queue,
            Mode::Playlist => ModeView::Playlist,
            Mode::PlaylistDetail { name } => ModeView::PlaylistDetail(name@),
            Mode::Artist { name } => ModeView::Artist(name@),
            Mode::Settings => ModeView::Settings,
        }
    }
}

/// The contents of an optional text.
pub open spec fn opt_view(s: Option<String>) -> Option<Seq<char>> {
    match s {
        Some(x) => Some(x@),
        None => None,
    }
}

/// Where "go to now playing" leads: the page, the selected artist and the
/// artist list's new scroll offset (none where it stays); none at all where
/// nothing changes.
pub open spec fn now_playing_target(
    origin: PlaybackOrigin,
    playing: Option<Song>,
    queue: Seq<Song>,
    artists: Seq<Seq<char>>,
    playlists: Seq<Seq<char>>,
) -> Option<(ModeView, Option<Seq<char>>, Option<int>)> {
    let to_queue = Some((ModeView::Queue, None::<Seq<char>>, None::<int>));
    let to_artist = |name: Seq<char>| match artists.index_of_first(name) {
        Some(i) => Some((ModeView::Artist(name), Some(name), Some(row_top(artists, i)))),
        None => to_queue,
    };
    match origin {
        PlaybackOrigin::Queue => to_queue,
        PlaybackOrigin::Artist(name) => to_artist(name@),
        PlaybackOrigin::Playlist(name) => if playlists.contains(name@) {
            Some((ModeView::PlaylistDetail(name@), None::<Seq<char>>, None::<int>))
        } else {
            Some((ModeView::Playlist, None::<Seq<char>>, None::<int>))
        },
        PlaybackOrigin::Unset => match playing {
            Some(song) => if song_paths(queue).contains(song.path@) {
                to_queue
            } else {
                to_artist(song.artist@)
            },
            None => None,
        },
    }
}

/// Show the artist named `name` if the list has it: select it and scroll
/// the list to it. Whether it was found.
fn resolve_artist(
    artists: &[String],
    name: &str,
    mode: &mut Mode,
    selected_artist: &mut Option<String>,
    artist_scroll: &mut usize,
) -> (found: bool)
    requires
        artists.len() <= usize::MAX / 64,
    ensures
        match views(artists@).index_of_first(name@) {
            Some(i) => {
                &&& found
                &&& final(mode)@ == ModeView::Artist(name@)
                &&& opt_view(*final(selected_artist)) == Some(name@)
                &&& *final(artist_scroll) == row_top(views(artists@), i)
            },
            None => {
                &&& !found
                &&& *final(mode) == *old(mode)
                &&& *final(selected_artist) == *old(selected_artist)
                &&& *final(artist_scroll) == *old(artist_scroll)
            },
        },
{
    let ghost names = views(artists@);
    proof {
        names.index_of_first_ensures(name@);
    }
    let mut i: usize = 0;
    while i < artists.len()
        invariant
            names == views(artists@),
            artists.len() <= usize::MAX / 64,
            i <= artists.len(),
            *mode == *old(mode),
            *selected_artist == *old(selected_artist),
            *artist_scroll == *old(artist_scroll),
            forall|j: int| 0 <= j < i ==> names[j] != name@,
            match names.index_of_first(name@) {
                Some(index) => {
                    &&& names.contains(name@)
                    &&& 0 <= index < names.len()
                    &&& names[index] == name@
                    &&& forall|j: int| 0 <= j < index < names.len() ==> names[j] != name@
                },
                None => !names.contains(name@),
            },
        decreases artists.len() - i,
    {
        if compare_text(artists[i].as_str(), name) == TextOrder::Same {
            proof {
                assert(names[i as int] == name@);
                assert(names.contains(name@));
            }
            *selected_artist = Some(name.to_owned());
            *mode = Mode::Artist { name: name.to_owned() };
            *artist_scroll = scroll_to_index(artists, i);
            return true;
        }
        i = i + 1;
    }
    proof {
        if names.contains(name@) {
            let k = choose|k: int| 0 <= k < names.len() && names[k] == name@;
            assert(names[k] != name@);
        }
    }
    false
}

/// Whether some queued song has the path `path`.
fn queue_has_path(queue: &Index<Song>, path: &String) -> (r: bool)
    ensures
        r == song_paths(queue.data@).contains(path@),
{
    let ghost ps = song_paths(queue.data@);
    let mut i: usize = 0;
    while i < queue.data.len()
        invariant
            ps == song_paths(queue.data@),
            i <= queue.data.len(),
            forall|j: int| 0 <= j < i ==> ps[j] != path@,
        decreases queue.data.len() - i,
    {
        if queue.data[i].path == *path {
            proof {
                assert(ps[i as int] == path@);
            }
            return true;
        }
        i = i + 1;
    }
    false
}

/// Move the window to where the current playback session was started
/// from: the queue, the artist's page, the playlist, or, for a session of
/// unknown source, the queue if the playing song is queued and its artist's
/// page otherwise, the queue where the artist is not listed. The selection
/// is cleared and the page scrolled to the top in any case.
pub fn go_to_now_playing(
    origin: &PlaybackOrigin,
    playback: &Index<Song>,
    queue: &Index<Song>,
    artists: &[String],
    playlists: &Index<Playlist>,
    mode: &mut Mode,
    selected_artist: &mut Option<String>,
    artist_scroll: &mut usize,
    main_scroll: &mut usize,
    selection: &mut PathSelection,
)
    requires
        artists.len() <= usize::MAX / 64,
    ensures
        final(selection).path_view() == Seq::<Seq<char>>::empty(),
        final(selection).anchor_view() is None,
        *final(main_scroll) == 0,
        match now_playing_target(
            *origin,
            selected_item(playback.data@, playback.index),
            queue.data@,
            views(artists@),
            playlist_names(playlists.data@),
        ) {
            Some((page, artist, scroll)) => {
                &&& final(mode)@ == page
                &&& opt_view(*final(selected_artist)) == artist
                &&& match scroll {
                    Some(y) => *final(artist_scroll) == y,
                    None => *final(artist_scroll) == *old(artist_scroll),
                }
            },
            None => {
                &&& *final(mode) == *old(mode)
                &&& *final(selected_artist) == *old(selected_artist)
                &&& *final(artist_scroll) == *old(artist_scroll)
            },
        },
{
    selection.clear();
    *main_scroll = 0;
    match origin {
        PlaybackOrigin::Queue => {
            *mode = Mode::Queue;
            *selected_artist = None;
        },
        PlaybackOrigin::Artist(name) => {
            if !resolve_artist(artists, name.as_str(), mode, selected_artist, artist_scroll) {
                *mode = Mode::Queue;
                *selected_artist = None;
            }
        },
        PlaybackOrigin::Playlist(name) => {
            if has_playlist_named(playlists, name.as_str()) {
                *mode = Mode::PlaylistDetail { name: name.clone() };
                *selected_artist = None;
            } else {
                *mode = Mode::Playlist;
                *selected_artist = None;
            }
        },
        PlaybackOrigin::Unset => {
            if let Some(song) = playback.selected() {
                if queue_has_path(queue, &song.path) {
                    *mode = Mode::Queue;
                    *selected_artist = None;
                } else if !resolve_artist(artists, song.artist.as_str(), mode, selected_artist, artist_scroll) {
                    *mode = Mode::Queue;
                    *selected_artist = None;
                }
            }
        },
    }
}

/// A playback origin with its names as character sequences.
pub enum OriginView {
    Unset,
    Queue,
    Artist(Seq<char>),
    Playlist(Seq<char>),
}

impl View for PlaybackOrigin {
    type V = OriginView;

    open spec fn view(&self) -> OriginView {
        match *self {
            PlaybackOrigin::Unset => OriginView::Unset,
            PlaybackOrigin::Queue => OriginView::Queue,
            PlaybackOrigin::Artist(n) => OriginView::Artist(n@),
            PlaybackOrigin::Playlist(n) => OriginView::Playlist(n@),
        }
    }
}

/// The origin of a session started from the menu on page `mode` with the
/// songs `songs`: the page's own origin, or, on a page without one, the
/// artist of the first song.
pub open spec fn menu_play_origin(mode: ModeView, songs: Seq<Song>) -> OriginView {
    match mode {
        ModeView::Queue => OriginView::Queue,
        ModeView::Artist(n) => OriginView::Artist(n),
        ModeView::PlaylistDetail(n) => OriginView::Playlist(n),
        _ => if songs.len() > 0 {
            OriginView::Artist(songs[0].artist@)
        } else {
            OriginView::Unset
        },
    }
}

/// The queue kept by "clear all but the playing song": the first queued
/// song with the playing song's path, if a song plays and one is queued.
pub open spec fn kept_while_playing(queue: Seq<Song>, playing: Option<Song>) -> Seq<Song> {
    match playing {
        Some(p) => match first_song_with_path(queue, p.path@) {
            Some(x) => seq![x],
            None => Seq::<Song>::empty(),
        },
        None => Seq::<Song>::empty(),
    }
}

/// What the window still has to do after a menu command.
#[derive(Debug)]
pub enum MenuOutcome {
    /// Nothing more.
    Done,
    /// Play the selected song of the playback session.
    Play,
    /// Tell that this many songs joined the queue (nothing for none).
    Queued(usize),
    /// Save the queue as a new playlist and tell how that went.
    SaveQueue,
    /// Move this removed playlist's file to the trash and tell so.
    Deleted(Playlist),
}

/// Remove the playlist named `name` from the list; the selection moves to
/// the last playlist if it was past the end, and the page of that playlist
/// gives way to the list of playlists.
fn delete_playlist(name: String, playlists: &mut Index<Playlist>, selection: &mut PathSelection, mode: &mut Mode) -> (r: MenuOutcome)
    ensures
        match playlist_names(old(playlists).data@).index_of_first(name@) {
            Some(i) => {
                &&& r matches MenuOutcome::Deleted(p) && p == old(playlists).data@[i]
                &&& final(playlists).data@ == old(playlists).data@.remove(i)
                &&& final(playlists).index == match old(playlists).index {
                    Some(k) => if k >= final(playlists).data.len() {
                        if final(playlists).data.len() > 0 {
                            Some((final(playlists).data.len() - 1) as usize)
                        } else {
                            None
                        }
                    } else {
                        Some(k)
                    },
                    None => None,
                }
                &&& old(mode)@ == ModeView::PlaylistDetail(name@) ==> final(mode)@ == ModeView::Playlist
                    && final(selection).path_view().len() == 0
                &&& old(mode)@ != ModeView::PlaylistDetail(name@) ==> *final(mode) == *old(mode) && *final(selection)
                    == *old(selection)
            },
            None => {
                &&& r is Done
                &&& *final(playlists) == *old(playlists)
                &&& *final(mode) == *old(mode)
            },
        },
{
    let ghost names = playlist_names(playlists.data@);
    proof {
        names.index_of_first_ensures(name@);
    }
    let mut i: usize = 0;
    while i < playlists.data.len()
        invariant
            names == playlist_names(playlists.data@),
            i <= playlists.data.len(),
            *playlists == *old(playlists),
            *mode == *old(mode),
            *selection == *old(selection),
            forall|j: int| 0 <= j < i ==> names[j] != name@,
            match names.index_of_first(name@) {
                Some(index) => {
                    &&& names.contains(name@)
                    &&& 0 <= index < names.len()
                    &&& names[index] == name@
                    &&& forall|j: int| 0 <= j < index < names.len() ==> names[j] != name@
                },
                None => !names.contains(name@),
            },
        decreases playlists.data.len() - i,
    {
        if compare_text(playlists.data[i].name(), name.as_str()) == TextOrder::Same {
            proof {
                assert(names[i as int] == name@);
                assert(names.contains(name@));
            }
            let removed = playlists.remove(i);
            if let Some(idx) = playlists.index() {
                if idx >= playlists.len() {
                    if playlists.len() > 0 {
                        playlists.select(Some(playlists.len() - 1));
                    } else {
                        playlists.select(None);
                    }
                }
            }
            let on_page = match &*mode {
                Mode::PlaylistDetail { name: n } => compare_text(n.as_str(), name.as_str()) == TextOrder::Same,
                _ => false,
            };
            if on_page {
                *mode = Mode::Playlist;
                selection.clear();
            }
            return MenuOutcome::Deleted(removed);
        }
        i = i + 1;
    }
    proof {
        if names.contains(name@) {
            let k = choose|k: int| 0 <= k < names.len() && names[k] == name@;
            assert(names[k] != name@);
        }
    }
    MenuOutcome::Done
}

/// Carry out a menu command on the playback session, the queue, the
/// playlists, the selection and the page; what is left to the window
/// (playing, messages, files) comes back.
pub fn apply_menu_command(
    cmd: MenuCommand,
    playback: &mut Index<Song>,
    origin: &mut PlaybackOrigin,
    queue: &mut Index<Song>,
    playlists: &mut Index<Playlist>,
    selection: &mut PathSelection,
    mode: &mut Mode,
) -> (r: MenuOutcome)
    ensures
        !(cmd is Play) ==> *final(playback) == *old(playback) && *final(origin) == *old(origin),
        !(cmd is DeletePlaylist) ==> *final(playlists) == *old(playlists) && *final(mode) == *old(mode),
        (cmd is Play || cmd is SaveQueueAsPlaylist || cmd is DeletePlaylist) ==> *final(queue) == *old(queue),
        (cmd is Play || cmd is AddToQueue || cmd is MoveUp || cmd is MoveDown || cmd is SaveQueueAsPlaylist)
            ==> *final(selection) == *old(selection),
        (cmd is RemoveFromQueue || cmd is ClearQueue || cmd is ClearExceptPlaying)
            ==> final(selection).anchor_view() is None,
        match cmd {
            MenuCommand::Play { songs, index } => {
                &&& songs.len() == 0 ==> r is Done && *final(playback) == *old(playback) && *final(origin)
                    == *old(origin)
                &&& songs.len() > 0 ==> {
                    &&& r is Play
                    &&& final(playback).data@ == songs@
                    &&& final(playback).index == Some(
                        if index < songs.len() { index } else { (songs.len() - 1) as usize },
                    )
                    &&& final(origin)@ == menu_play_origin(old(mode)@, songs@)
                }
                &&& *final(queue) == *old(queue)
                &&& *final(selection) == *old(selection)
            },
            MenuCommand::AddToQueue(list) => {
                &&& r matches MenuOutcome::Queued(n) && n == list.len()
                &&& final(queue).data@ == old(queue).data@ + list@
                &&& final(queue).index == old(queue).index
                &&& *final(selection) == *old(selection)
            },
            MenuCommand::RemoveFromQueue(idxs) => {
                &&& r is Done
                &&& final(queue).data@ == unlisted_from(old(queue).data@, idxs@, 0)
                &&& final(queue).index == old(queue).index
                &&& final(selection).path_view().len() == 0
            },
            MenuCommand::MoveUp(i) => {
                &&& r is Done
                &&& 0 < i < old(queue).data.len() ==> final(queue).data@ == old(queue).data@.remove(i as int).insert(
                    i - 1,
                    old(queue).data@[i as int],
                )
                &&& !(0 < i < old(queue).data.len()) ==> final(queue).data@ == old(queue).data@
                &&& final(queue).index == old(queue).index
            },
            MenuCommand::MoveDown(i) => {
                &&& r is Done
                &&& i + 1 < old(queue).data.len() ==> final(queue).data@ == old(queue).data@.remove(i as int).insert(
                    i + 1,
                    old(queue).data@[i as int],
                )
                &&& !(i + 1 < old(queue).data.len()) ==> final(queue).data@ == old(queue).data@
                &&& final(queue).index == old(queue).index
            },
            MenuCommand::ClearQueue => {
                &&& r is Done
                &&& final(queue).data@.len() == 0
                &&& final(queue).index is None
                &&& final(selection).path_view().len() == 0
            },
            MenuCommand::ClearExceptPlaying => {
                &&& r is Done
                &&& final(queue).data@ == kept_while_playing(
                    old(queue).data@,
                    selected_item(old(playback).data@, old(playback).index),
                )
                &&& final(queue).index is None
                &&& final(selection).path_view().len() == 0
            },
            MenuCommand::SaveQueueAsPlaylist => {
                &&& r is SaveQueue
                &&& *final(queue) == *old(queue)
                &&& *final(playlists) == *old(playlists)
            },
            MenuCommand::DeletePlaylist(name) => match playlist_names(old(playlists).data@).index_of_first(name@) {
                Some(i) => {
                    &&& r matches MenuOutcome::Deleted(p) && p == old(playlists).data@[i]
                    &&& final(playlists).data@ == old(playlists).data@.remove(i)
                    &&& final(playlists).index == match old(playlists).index {
                        Some(k) => if k >= final(playlists).data.len() {
                            if final(playlists).data.len() > 0 {
                                Some((final(playlists).data.len() - 1) as usize)
                            } else {
                                None
                            }
                        } else {
                            Some(k)
                        },
                        None => None,
                    }
                    &&& old(mode)@ == ModeView::PlaylistDetail(name@) ==> final(mode)@ == ModeView::Playlist
                        && final(selection).path_view().len() == 0
                    &&& old(mode)@ != ModeView::PlaylistDetail(name@) ==> *final(mode) == *old(mode)
                        && *final(selection) == *old(selection)
                },
                None => {
                    &&& r is Done
                    &&& *final(playlists) == *old(playlists)
                    &&& *final(mode) == *old(mode)
                },
            },
        },
{
    match cmd {
        MenuCommand::Play { songs, index } => {
            let new_origin = match origin_from_mode(mode) {
                PlaybackOrigin::Unset => if songs.len() > 0 {
                    PlaybackOrigin::Artist(songs[0].artist.clone())
                } else {
                    PlaybackOrigin::Unset
                },
                other => other,
            };
            if start_playback(playback, origin, songs, index, new_origin) {
                MenuOutcome::Play
            } else {
                MenuOutcome::Done
            }
        },
        MenuCommand::AddToQueue(list) => {
            let n = append_queue(queue, list);
            MenuOutcome::Queued(n)
        },
        MenuCommand::RemoveFromQueue(idxs) => {
            remove_queue_indices(queue, idxs);
            selection.clear();
            MenuOutcome::Done
        },
        MenuCommand::MoveUp(i) => {
            if i > 0 {
                move_queue_song(queue, i, i - 1);
            }
            MenuOutcome::Done
        },
        MenuCommand::MoveDown(i) => {
            if queue.len() > 0 && i < queue.len() - 1 {
                move_queue_song(queue, i, i + 1);
            }
            MenuOutcome::Done
        },
        MenuCommand::ClearQueue => {
            queue.clear();
            selection.clear();
            MenuOutcome::Done
        },
        MenuCommand::ClearExceptPlaying => {
            let keep = match playback.selected() {
                Some(song) => match find_song_by_path(queue.data.as_slice(), &song.path) {
                    Some(i) => Some(queue.remove(i)),
                    None => None,
                },
                None => None,
            };
            queue.clear();
            if let Some(song) = keep {
                queue.push(song);
            }
            selection.clear();
            MenuOutcome::Done
        },
        MenuCommand::SaveQueueAsPlaylist => MenuOutcome::SaveQueue,
        MenuCommand::DeletePlaylist(name) => delete_playlist(name, playlists, selection, mode),
    }
}

/// What the window still has to do after a palette action.
#[derive(Debug)]
pub enum PaletteOutcome {
    /// Nothing more.
    Done,
    /// Rescan the music folder.
    Scan,
    /// Tell that this many songs joined the queue (nothing for none), and
    /// play the selected song of the playback session if asked to.
    Queued { added: usize, play: bool },
}

/// Carry out what a palette row asked for; the palette closes in any case.
/// Playing starts a session whose origin is the artist of its first song;
/// opening an artist shows the page of an artist the list has, with the
/// selection cleared and the page at the top.
pub fn apply_palette_action(
    action: Action,
    palette: &mut CommandPalette,
    playback: &mut Index<Song>,
    origin: &mut PlaybackOrigin,
    queue: &mut Index<Song>,
    mode: &mut Mode,
    selected_artist: &mut Option<String>,
    selection: &mut PathSelection,
    main_scroll: &mut usize,
    artists: &[String],
) -> (r: PaletteOutcome)
    ensures
        !final(palette).open,
        final(palette).query@.len() == 0,
        match action {
            Action::RescanDatabase => r is Scan,
            Action::PlayAndQueue { play, play_index, queue_add } => {
                &&& r matches PaletteOutcome::Queued { added, play: p } && added == queue_add.len() && p == (play.len()
                    > 0)
                &&& final(queue).data@ == old(queue).data@ + queue_add@
                &&& play.len() > 0 ==> {
                    &&& final(playback).data@ == play@
                    &&& final(playback).index == Some(
                        if play_index < play.len() { play_index } else { (play.len() - 1) as usize },
                    )
                    &&& final(origin)@ == OriginView::Artist(play@[0].artist@)
                }
                &&& play.len() == 0 ==> *final(playback) == *old(playback) && *final(origin) == *old(origin)
            },
            Action::OpenArtist(name) => {
                &&& r is Done
                &&& views(artists@).contains(name@) ==> {
                    &&& opt_view(*final(selected_artist)) == Some(name@)
                    &&& final(mode)@ == ModeView::Artist(name@)
                    &&& final(selection).path_view().len() == 0
                    &&& *final(main_scroll) == 0
                }
                &&& !views(artists@).contains(name@) ==> *final(selected_artist) == *old(selected_artist)
                    && *final(mode) == *old(mode) && *final(selection) == *old(selection) && *final(main_scroll)
                    == *old(main_scroll)
            },
            Action::Close => r is Done,
        },
{
    palette.close();
    match action {
        Action::RescanDatabase => PaletteOutcome::Scan,
        Action::PlayAndQueue { play, play_index, queue_add } => {
            let added = append_queue(queue, queue_add);
            let mut played = false;
            if play.len() > 0 {
                let artist_origin = PlaybackOrigin::Artist(play[0].artist.clone());
                played = start_playback(playback, origin, play, play_index, artist_origin);
            }
            PaletteOutcome::Queued { added, play: played }
        },
        Action::OpenArtist(name) => {
            if lists_name(artists, name.as_str()) {
                *selected_artist = Some(name.clone());
                *mode = Mode::Artist { name };
                selection.clear();
                *main_scroll = 0;
            }
            PaletteOutcome::Done
        },
        Action::Close => PaletteOutcome::Done,
    }
}

/// Removing no positions leaves the queue as it was.
pub proof fn lemma_remove_nothing<T>(s: Seq<T>, a: int)
    requires
        0 <= a <= s.len(),
    ensures
        unlisted_from(s, Seq::<usize>::empty(), a) == s.skip(a),
    decreases s.len() - a,
{
    if a < s.len() {
        lemma_remove_nothing(s, a + 1);
        assert(seq![s[a]] + s.skip(a + 1) =~= s.skip(a));
    } else {
        assert(s.skip(a) =~= Seq::<T>::empty());
    }
}

/// How many of the positions `lo..hi` are listed in `idxs`.
pub open spec fn listed_between(idxs: Seq<usize>, lo: int, hi: int) -> int
    decreases hi - lo,
{
    if lo >= hi {
        0
    } else {
        (if idxs.contains(lo as usize) { 1int } else { 0int }) + listed_between(idxs, lo + 1, hi)
    }
}

/// Counting listed positions splits at any midpoint and never counts more
/// positions than there are.
proof fn lemma_listed_split(idxs: Seq<usize>, lo: int, mid: int, hi: int)
    requires
        lo <= mid <= hi,
    ensures
        listed_between(idxs, lo, hi) == listed_between(idxs, lo, mid) + listed_between(idxs, mid, hi),
        0 <= listed_between(idxs, lo, hi) <= hi - lo,
    decreases mid - lo,
{
    if lo < mid {
        lemma_listed_split(idxs, lo + 1, mid, hi);
    } else {
        lemma_listed_bound(idxs, mid, hi);
    }
}

proof fn lemma_listed_bound(idxs: Seq<usize>, lo: int, hi: int)
    ensures
        0 <= listed_between(idxs, lo, hi) <= if hi >= lo { hi - lo } else { 0 },
    decreases hi - lo,
{
    if lo < hi {
        lemma_listed_bound(idxs, lo + 1, hi);
    }
}

/// Removing listed positions from `a` on keeps exactly the unlisted songs,
/// in order: as many as there are unlisted positions, and the song at an
/// unlisted position `i` moves up by the number of listed positions before
/// it.
proof fn lemma_unlisted_from_exact<T>(s: Seq<T>, idxs: Seq<usize>, a: int)
    requires
        0 <= a <= s.len(),
    ensures
        unlisted_from(s, idxs, a).len() == (s.len() - a) - listed_between(idxs, a, s.len() as int),
        forall|i: int|
            a <= i < s.len() && !idxs.contains(i as usize) ==> unlisted_from(s, idxs, a)[(i - a) - listed_between(
                idxs,
                a,
                i,
            )] == s[i],
    decreases s.len() - a,
{
    if a < s.len() {
        lemma_unlisted_from_exact(s, idxs, a + 1);
        let rest = unlisted_from(s, idxs, a + 1);
        assert forall|i: int|
            a <= i < s.len() && !idxs.contains(i as usize) implies unlisted_from(s, idxs, a)[(i - a)
            - listed_between(idxs, a, i)] == s[i] by {
            if i == a {
                assert(listed_between(idxs, a, i) == 0);
                assert((seq![s[a]] + rest)[0] == s[a]);
            } else {
                lemma_listed_split(idxs, a + 1, i, s.len() as int);
                lemma_listed_bound(idxs, i + 1, s.len() as int);
                lemma_listed_bound(idxs, a + 1, i);
                assert(listed_between(idxs, i, s.len() as int) == listed_between(idxs, i + 1, s.len() as int));
                let j = (i - (a + 1)) - listed_between(idxs, a + 1, i);
                assert(0 <= j < rest.len());
                assert(rest[j] == s[i]);
                if idxs.contains(a as usize) {
                    assert(listed_between(idxs, a, i) == 1 + listed_between(idxs, a + 1, i));
                } else {
                    assert(listed_between(idxs, a, i) == listed_between(idxs, a + 1, i));
                    assert((seq![s[a]] + rest)[j + 1] == rest[j]);
                }
            }
        }
    }
}

/// Removing a list of positions from the queue keeps exactly the songs at
/// the positions not listed, in their order: the queue shrinks by the
/// number of distinct listed positions inside it, and the song at each
/// unlisted position `i` ends up at `i` minus the number of listed
/// positions before it.
pub proof fn lemma_removal_keeps_the_unlisted<T>(s: Seq<T>, idxs: Seq<usize>)
    ensures
        unlisted_from(s, idxs, 0).len() == s.len() - listed_between(idxs, 0, s.len() as int),
        forall|i: int|
            0 <= i < s.len() && !idxs.contains(i as usize) ==> unlisted_from(s, idxs, 0)[i - listed_between(
                idxs,
                0,
                i,
            )] == s[i],
{
    lemma_unlisted_from_exact(s, idxs, 0);
}

/// Moving a queued song to another position and back restores the queue.
pub proof fn lemma_move_back_restores<T>(s: Seq<T>, from: int, to: int)
    requires
        0 <= from < s.len(),
        0 <= to < s.len(),
    ensures
        ({
            let moved = s.remove(from).insert(to, s[from]);
            moved.remove(to).insert(from, moved[to]) == s
        }),
{
    let moved = s.remove(from).insert(to, s[from]);
    assert(moved[to] == s[from]);
    assert(moved.remove(to) =~= s.remove(from));
    assert(s.remove(from).insert(from, s[from]) =~= s);
}

/// The number `first_free_number` finds makes a name no playlist has.
proof fn lemma_free_number_is_free(names: Seq<Seq<char>>, base: Seq<char>, n: nat)
    ensures
        first_free_number(names, base, n) matches Some(m) ==> !names.contains(numbered(base, m)),
    decreases 1000 - n,
{
    if n < 1000 && names.contains(numbered(base, n)) {
        lemma_free_number_is_free(names, base, n + 1);
    }
}

/// The name `unique_playlist_name` picks is taken by no playlist, unless
/// `base` and every numbered name from 2 to 999 are all taken.
pub proof fn lemma_unique_name_is_new(names: Seq<Seq<char>>, base: Seq<char>, count: nat)
    requires
        !names.contains(base) || first_free_number(names, base, 2) is Some,
    ensures
        !names.contains(chosen_playlist_name(names, base, count)),
{
    lemma_free_number_is_free(names, base, 2);
}

/// All songs of `artist`, album by album.
pub fn artist_discography(db: &Database, artist: &str) -> (r: Vec<Song>)
    requires
        db.well_formed(),
    ensures
        song_views(r@) == db.song_list().filter(by_artist(artist@)),
{
    match db.get_artist_songs(artist) {
        Some(songs) => copy_songs(songs),
        None => Vec::new(),
    }
}

/// The names of the library's artists, in order.
pub fn refresh_artists(db: &Database) -> (r: Vec<String>)
    ensures
        views(r@) == db.artists@.map_values(|e: ArtistEntry| e.name@),
{
    db.get_artists()
}

} // verus!
