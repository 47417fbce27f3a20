//! Music playlists. Each playlist is stored in a file of its own: a first
//! line with the name and the file's path, then the songs' lines.
use vstd::prelude::*;
use crate::mu_core::db::{
    Song, SongView, SongError, escape, without_breaks, serialize_songs, deserialize_songs,
    songs_text, songs_from_text, song_views, no_breaks, gains_clean, stored_song,
    lemma_songs_round_trip,
};
use crate::text::is_space;
use crate::mu_core::index::Index;
use crate::text::{push_char, split_once, split_once_char};

verus! {

/// Why a playlist file could not be read.
#[derive(Debug, Clone, Copy, PartialEq, Eq, Structural)]
pub enum PlaylistError {
    /// No line break after the first line.
    MissingHeader,
    /// No tab between name and path in the first line.
    MissingPath,
    /// A song line is not a song.
    Song(SongError),
}

/// The text of a playlist file.
pub open spec fn playlist_text(name: Seq<char>, path: Seq<char>, songs: Seq<SongView>) -> Seq<char> {
    name + seq!['\t'] + path + seq!['\n'] + songs_text(songs)
}

/// Name, path and songs that a playlist file stores.
pub open spec fn playlist_from_text(t: Seq<char>) -> Result<
    (Seq<char>, Seq<char>, Seq<SongView>),
    PlaylistError,
> {
    match split_once(t, '\n') {
        None => Err(PlaylistError::MissingHeader),
        Some((start, end)) => match split_once(start, '\t') {
            None => Err(PlaylistError::MissingPath),
            Some((name, path)) => match songs_from_text(end) {
                Err(e) => Err(PlaylistError::Song(e)),
                Ok(songs) => Ok((name, path, songs)),
            },
        },
    }
}

/// The name of a playlist's file: its escaped name and `.playlist`.
pub open spec fn playlist_file_name(name: Seq<char>) -> Seq<char> {
    without_breaks(name) + ".playlist"@
}

#[derive(Debug, Default)]
pub struct Playlist {
    name: String,
    path: String,
    pub songs: Index<Song>,
}

impl Playlist {
    pub closed spec fn name_view(&self) -> Seq<char> {
        self.name@
    }

    pub closed spec fn path_view(&self) -> Seq<char> {
        self.path@
    }

    pub closed spec fn song_list(&self) -> Seq<SongView> {
        song_views(self.songs.data@)
    }

    /// The playlist's songs.
    pub closed spec fn song_seq(&self) -> Seq<Song> {
        self.songs.data@
    }

    /// The playlist's songs, in order.
    pub fn song_slice(&self) -> (r: &[Song])
        ensures
            r@ == self.song_seq(),
            song_views(r@) == self.song_list(),
    {
        self.songs.data.as_slice()
    }

    pub closed spec fn selected(&self) -> Option<usize> {
        self.songs.index
    }

    /// The file name a playlist called `name` is saved under.
    pub fn file_name(name: &str) -> (r: String)
        ensures
            r@ == playlist_file_name(name@),
    {
        let mut r = escape(name);
        r.append(".playlist");
        r
    }

    /// A playlist with an escaped name, kept in the file at `path`.
    pub fn new(name: &str, songs: Vec<Song>, path: String) -> (r: Self)
        ensures
            r.name_view() == without_breaks(name@),
            r.path_view() == path@,
            r.song_list() == song_views(songs@),
            r.selected() is None,
    {
        let name = escape(name);
        Self { path, name, songs: Index::from_vec(songs) }
    }

    pub fn name(&self) -> (r: &str)
        ensures
            r@ == self.name_view(),
    {
        self.name.as_str()
    }

    pub fn path(&self) -> (r: &str)
        ensures
            r@ == self.path_view(),
    {
        self.path.as_str()
    }

    /// The text of this playlist's file.
    pub fn serialize(&self) -> (r: String)
        ensures
            r@ == playlist_text(self.name_view(), self.path_view(), self.song_list()),
    {
        let mut buffer = String::new();
        buffer.append(self.name.as_str());
        push_char(&mut buffer, '\t');
        buffer.append(self.path.as_str());
        push_char(&mut buffer, '\n');
        let songs = serialize_songs(self.songs.data.as_slice());
        buffer.append(songs.as_str());
        proof {
            assert(buffer@ =~= playlist_text(self.name_view(), self.path_view(), self.song_list()));
        }
        buffer
    }

    /// Read a playlist back from the text of its file; nothing is selected.
    pub fn deserialize(s: &str) -> (r: Result<Self, PlaylistError>)
        ensures
            match r {
                Ok(p) => {
                    &&& playlist_from_text(s@) == Ok::<_, PlaylistError>((p.name_view(), p.path_view(), p.song_list()))
                    &&& p.selected() is None
                },
                Err(e) => playlist_from_text(s@) == Err::<(Seq<char>, Seq<char>, Seq<SongView>), PlaylistError>(e),
            },
    {
        let (start, end) = match split_once_char(s, '\n') {
            Some(parts) => parts,
            None => return Err(PlaylistError::MissingHeader),
        };
        let (name, path) = match split_once_char(start, '\t') {
            Some(parts) => parts,
            None => return Err(PlaylistError::MissingPath),
        };
        let songs = match deserialize_songs(end) {
            Ok(songs) => songs,
            Err(e) => return Err(PlaylistError::Song(e)),
        };
        Ok(Self { name: name.to_owned(), path: path.to_owned(), songs: Index::from_vec(songs) })
    }
}


/// The first occurrence of `c` in `s` is at `k` when `s[k]` is `c` and no
/// earlier character is.
pub proof fn lemma_first_occurrence(s: Seq<char>, c: char, k: int)
    requires
        0 <= k < s.len(),
        s[k] == c,
        forall|j: int| 0 <= j < k ==> s[j] != c,
    ensures
        s.index_of_first(c) == Some(k),
{
    s.index_of_first_ensures(c);
    assert(s.contains(c));
    let i = s.index_of_first(c).unwrap();
    if i < k {
        assert(s[i] != c);
    }
    if k < i {
        assert(s[k] != c);
    }
}

/// Reading back the file written for a playlist gives its name, path and
/// songs (the songs' text fields without tabs and line breaks), for a name
/// without tabs and line breaks (as `Playlist::new` makes it), a path
/// without line breaks, and songs as the song-list round trip asks.
pub proof fn lemma_playlist_round_trip(name: Seq<char>, path: Seq<char>, songs: Seq<SongView>)
    requires
        no_breaks(name),
        forall|i: int| 0 <= i < path.len() ==> path[i] != '\n',
        songs.len() > 0,
        gains_clean(songs),
        without_breaks(songs[0].title).len() > 0,
        !is_space(without_breaks(songs[0].title)[0]),
    ensures
        playlist_from_text(playlist_text(name, path, songs)) == Ok::<_, PlaylistError>(
            (name, path, songs.map_values(|x: SongView| stored_song(x))),
        ),
{
    let t = playlist_text(name, path, songs);
    let start = name + seq!['\t'] + path;
    let k = start.len() as int;
    assert(t =~= start + seq!['\n'] + songs_text(songs));
    assert forall|j: int| 0 <= j < k implies t[j] != '\n' by {
        assert(t[j] == start[j]);
        if j < name.len() {
            assert(start[j] == name[j]);
        } else if j > name.len() {
            assert(start[j] == path[j - name.len() - 1]);
        }
    }
    lemma_first_occurrence(t, '\n', k);
    assert(t.take(k) =~= start);
    assert(t.skip(k + 1) =~= songs_text(songs));
    assert forall|j: int| 0 <= j < name.len() implies start[j] != '\t' by {
        assert(start[j] == name[j]);
    }
    lemma_first_occurrence(start, '\t', name.len() as int);
    assert(start.take(name.len() as int) =~= name);
    assert(start.skip(name.len() as int + 1) =~= path);
    lemma_songs_round_trip(songs);
}

} // verus!
