//! A browser model that keeps whole artists, albums and songs, and finds
//! the selected one of each by comparing contents: an artist by its name
//! and albums, an album by its name and songs, a song by its name.
use vstd::prelude::*;

verus! {

/// A song.
#[derive(Debug)]
pub struct Song {
    pub name: String,
}

/// An album with the song selected in it.
#[derive(Debug)]
pub struct Album {
    pub name: String,
    pub songs: Vec<Song>,
    pub selected_song: Song,
}

/// An artist with the album selected among theirs.
#[derive(Debug)]
pub struct Artist {
    pub name: String,
    pub albums: Vec<Album>,
    pub selected_album: Album,
}

/// All artists and the selected one, a copy that carries its own album and
/// song selection.
#[derive(Debug)]
pub struct Music {
    pub artists: Vec<Artist>,
    pub selected_artist: Artist,
}

pub struct AlbumView {
    pub name: Seq<char>,
    pub songs: Seq<Seq<char>>,
    pub selected_song: Seq<char>,
}

pub struct ArtistView {
    pub name: Seq<char>,
    pub albums: Seq<AlbumView>,
    pub selected_album: AlbumView,
}

pub struct MusicView {
    pub artists: Seq<ArtistView>,
    pub selected_artist: ArtistView,
}

/// The song names of a list of songs.
pub open spec fn song_names_of(v: Seq<Song>) -> Seq<Seq<char>> {
    v.map_values(|s: Song| s.name@)
}

impl View for Album {
    type V = AlbumView;

    open spec fn view(&self) -> AlbumView {
        AlbumView { name: self.name@, songs: song_names_of(self.songs@), selected_song: self.selected_song.name@ }
    }
}

impl View for Artist {
    type V = ArtistView;

    open spec fn view(&self) -> ArtistView {
        ArtistView {
            name: self.name@,
            albums: self.albums@.map_values(|a: Album| a@),
            selected_album: self.selected_album@,
        }
    }
}

impl View for Music {
    type V = MusicView;

    open spec fn view(&self) -> MusicView {
        MusicView { artists: self.artists@.map_values(|a: Artist| a@), selected_artist: self.selected_artist@ }
    }
}

/// What tells albums apart: the name and the songs, not the selection.
pub open spec fn album_key(a: AlbumView) -> (Seq<char>, Seq<Seq<char>>) {
    (a.name, a.songs)
}

/// What tells artists apart: the name and the albums, not the selection.
pub open spec fn artist_key(a: ArtistView) -> (Seq<char>, Seq<(Seq<char>, Seq<Seq<char>>)>) {
    (a.name, a.albums.map_values(|x: AlbumView| album_key(x)))
}

/// The position of the selected artist: the first artist equal to it.
pub open spec fn artist_position(m: MusicView) -> Option<int> {
    m.artists.map_values(|a: ArtistView| artist_key(a)).index_of_first(artist_key(m.selected_artist))
}

/// The position of the selected artist's selected album among their albums.
pub open spec fn album_position(m: MusicView) -> Option<int> {
    let a = m.selected_artist;
    a.albums.map_values(|x: AlbumView| album_key(x)).index_of_first(album_key(a.selected_album))
}

/// The position of the selected song in the selected album.
pub open spec fn song_position(m: MusicView) -> Option<int> {
    let al = m.selected_artist.selected_album;
    al.songs.index_of_first(al.selected_song)
}

/// The position after `i` in a list of `n`, wrapping to the first.
pub open spec fn step_down(i: int, n: int) -> int {
    if i + 1 < n { i + 1 } else { 0 }
}

/// The position before `i` in a list of `n`, wrapping to the last.
pub open spec fn step_up(i: int, n: int) -> int {
    if i >= 1 { i - 1 } else { n - 1 }
}

/// The music with another artist selected.
pub open spec fn with_artist(m: MusicView, a: ArtistView) -> MusicView {
    MusicView { artists: m.artists, selected_artist: a }
}

/// The music with another album selected for the selected artist.
pub open spec fn with_album(m: MusicView, al: AlbumView) -> MusicView {
    with_artist(m, ArtistView { selected_album: al, ..m.selected_artist })
}

/// The music with another song selected in the selected album.
pub open spec fn with_song(m: MusicView, s: Seq<char>) -> MusicView {
    with_album(m, AlbumView { selected_song: s, ..m.selected_artist.selected_album })
}

/// Moving the artist selection one down, wrapping to the first.
pub open spec fn artists_moved_down(m: MusicView) -> MusicView {
    let i = artist_position(m).unwrap();
    with_artist(m, m.artists[step_down(i, m.artists.len() as int)])
}

/// Moving the artist selection one up, wrapping to the last.
pub open spec fn artists_moved_up(m: MusicView) -> MusicView {
    let i = artist_position(m).unwrap();
    with_artist(m, m.artists[step_up(i, m.artists.len() as int)])
}

/// Moving the album selection one down, wrapping to the first.
pub open spec fn albums_moved_down(m: MusicView) -> MusicView {
    let i = album_position(m).unwrap();
    let albums = m.selected_artist.albums;
    with_album(m, albums[step_down(i, albums.len() as int)])
}

/// Moving the album selection one up, wrapping to the last.
pub open spec fn albums_moved_up(m: MusicView) -> MusicView {
    let i = album_position(m).unwrap();
    let albums = m.selected_artist.albums;
    with_album(m, albums[step_up(i, albums.len() as int)])
}

/// Moving the song selection one down, wrapping to the first.
pub open spec fn songs_moved_down(m: MusicView) -> MusicView {
    let i = song_position(m).unwrap();
    let songs = m.selected_artist.selected_album.songs;
    with_song(m, songs[step_down(i, songs.len() as int)])
}

/// Moving the song selection one up, wrapping to the last.
pub open spec fn songs_moved_up(m: MusicView) -> MusicView {
    let i = song_position(m).unwrap();
    let songs = m.selected_artist.selected_album.songs;
    with_song(m, songs[step_up(i, songs.len() as int)])
}

impl Song {
    pub fn copy(&self) -> (r: Song)
        ensures
            r.name@ == self.name@,
    {
        Song { name: self.name.clone() }
    }
}

/// A copy of a list of songs.
fn copy_songs(v: &Vec<Song>) -> (r: Vec<Song>)
    ensures
        song_names_of(r@) == song_names_of(v@),
{
    let mut out: Vec<Song> = Vec::new();
    let mut i: usize = 0;
    while i < v.len()
        invariant
            i <= v@.len(),
            song_names_of(out@) == song_names_of(v@.take(i as int)),
        decreases v@.len() - i,
    {
        out.push(v[i].copy());
        proof {
            assert(song_names_of(v@.take(i + 1)) =~= song_names_of(v@.take(i as int)).push(v@[i as int].name@));
        }
        i = i + 1;
    }
    proof {
        assert(v@.take(v@.len() as int) =~= v@);
    }
    out
}

/// Whether two song lists have the same names in the same order.
fn same_songs(a: &Vec<Song>, b: &Vec<Song>) -> (r: bool)
    ensures
        r == (song_names_of(a@) == song_names_of(b@)),
{
    if a.len() != b.len() {
        proof {
            assert(song_names_of(a@).len() != song_names_of(b@).len());
        }
        return false;
    }
    let mut i: usize = 0;
    while i < a.len()
        invariant
            a@.len() == b@.len(),
            i <= a@.len(),
            forall|j: int| 0 <= j < i ==> #[trigger] a@[j].name@ == b@[j].name@,
        decreases a@.len() - i,
    {
        if a[i].name != b[i].name {
            proof {
                assert(song_names_of(a@)[i as int] != song_names_of(b@)[i as int]);
            }
            return false;
        }
        i = i + 1;
    }
    proof {
        assert(song_names_of(a@) =~= song_names_of(b@));
    }
    true
}

impl Album {
    pub fn copy(&self) -> (r: Album)
        ensures
            r@ == self@,
    {
        Album { name: self.name.clone(), songs: copy_songs(&self.songs), selected_song: self.selected_song.copy() }
    }

    /// Whether two albums have the same name and songs.
    pub fn same_as(&self, other: &Album) -> (r: bool)
        ensures
            r == (album_key(self@) == album_key(other@)),
    {
        self.name == other.name && same_songs(&self.songs, &other.songs)
    }
}

/// A copy of a list of albums.
fn copy_albums(v: &Vec<Album>) -> (r: Vec<Album>)
    ensures
        r@.map_values(|a: Album| a@) == v@.map_values(|a: Album| a@),
{
    let mut out: Vec<Album> = Vec::new();
    let mut i: usize = 0;
    while i < v.len()
        invariant
            i <= v@.len(),
            out@.map_values(|a: Album| a@) == v@.take(i as int).map_values(|a: Album| a@),
        decreases v@.len() - i,
    {
        out.push(v[i].copy());
        proof {
            assert(v@.take(i + 1).map_values(|a: Album| a@) =~= v@.take(i as int).map_values(|a: Album| a@).push(
                v@[i as int]@,
            ));
        }
        i = i + 1;
    }
    proof {
        assert(v@.take(v@.len() as int) =~= v@);
    }
    out
}

impl Artist {
    pub fn copy(&self) -> (r: Artist)
        ensures
            r@ == self@,
    {
        Artist { name: self.name.clone(), albums: copy_albums(&self.albums), selected_album: self.selected_album.copy() }
    }

    /// Whether two artists have the same name and albums.
    pub fn same_as(&self, other: &Artist) -> (r: bool)
        ensures
            r == (artist_key(self@) == artist_key(other@)),
    {
        if self.name != other.name || self.albums.len() != other.albums.len() {
            proof {
                if self.name@ == other.name@ {
                    assert(artist_key(self@).1.len() != artist_key(other@).1.len());
                }
            }
            return false;
        }
        let ghost ka = artist_key(self@).1;
        let ghost kb = artist_key(other@).1;
        let mut i: usize = 0;
        while i < self.albums.len()
            invariant
                self.albums@.len() == other.albums@.len(),
                ka == artist_key(self@).1,
                kb == artist_key(other@).1,
                i <= self.albums@.len(),
                forall|j: int| 0 <= j < i ==> #[trigger] ka[j] == kb[j],
            decreases self.albums@.len() - i,
        {
            if !self.albums[i].same_as(&other.albums[i]) {
                proof {
                    assert(ka[i as int] != kb[i as int]);
                }
                return false;
            }
            i = i + 1;
        }
        proof {
            assert(ka =~= kb);
        }
        true
    }
}

fn song_named(name: &str) -> (r: Song)
    ensures
        r.name@ == name@,
{
    Song { name: name.to_string() }
}

/// The album selected at its first song.
fn sample_album(name: &str, first: &str, second: &str) -> (r: Album)
    ensures
        r@ == (AlbumView { name: name@, songs: seq![first@, second@], selected_song: first@ }),
{
    let track_1 = song_named(first);
    let track_2 = song_named(second);
    let songs = vec![track_1.copy(), track_2.copy()];
    proof {
        assert(song_names_of(songs@) =~= seq![first@, second@]);
    }
    Album { name: name.to_string(), songs, selected_song: track_1 }
}

impl Music {
    /// The sample library the prototype starts with: two artists, the
    /// second selected.
    pub fn new() -> (r: Self)
        ensures
            r@.artists.len() == 2,
            r@.artists[0].name == "JPEGMAFIA"@,
            r@.artists[0].albums == seq![
                AlbumView { name: "Veteren"@, songs: seq!["Panic Emoji"@, "Dayum"@], selected_song: "Panic Emoji"@ },
                AlbumView { name: "LP!"@, songs: seq!["Panic Emoji"@, "Dayum"@], selected_song: "Panic Emoji"@ },
            ],
            r@.artists[0].selected_album == r@.artists[0].albums[0],
            r@.artists[1].name == "Iglooghost"@,
            r@.artists[1].albums == seq![
                AlbumView { name: "NeoWax"@, songs: seq!["Something Fossil"@, "Neo"@], selected_song: "Something Fossil"@ },
            ],
            r@.artists[1].selected_album == r@.artists[1].albums[0],
            r@.selected_artist == r@.artists[1],
    {
        let veteran = sample_album("Veteren", "Panic Emoji", "Dayum");
        let lp = sample_album("LP!", "Panic Emoji", "Dayum");
        let jpegmafia_albums = vec![veteran.copy(), lp];
        let jpegmafia = Artist { name: "JPEGMAFIA".to_string(), albums: jpegmafia_albums, selected_album: veteran };
        let neowax = sample_album("NeoWax", "Something Fossil", "Neo");
        let iglooghost_albums = vec![neowax.copy()];
        let iglooghost = Artist { name: "Iglooghost".to_string(), albums: iglooghost_albums, selected_album: neowax };
        let artists = vec![jpegmafia, iglooghost.copy()];
        let r = Music { artists, selected_artist: iglooghost };
        proof {
            assert(r@.artists[0].albums =~= seq![
                AlbumView { name: "Veteren"@, songs: seq!["Panic Emoji"@, "Dayum"@], selected_song: "Panic Emoji"@ },
                AlbumView { name: "LP!"@, songs: seq!["Panic Emoji"@, "Dayum"@], selected_song: "Panic Emoji"@ },
            ]);
            assert(r@.artists[1].albums =~= seq![
                AlbumView { name: "NeoWax"@, songs: seq!["Something Fossil"@, "Neo"@], selected_song: "Something Fossil"@ },
            ]);
        }
        r
    }

    /// The position of the selected artist: the first artist equal to it.
    pub fn get_selected_artist(&self) -> (r: Option<usize>)
        ensures
            r matches Some(i) ==> artist_position(self@) == Some(i as int),
            r is None ==> artist_position(self@) is None,
    {
        let ghost keys = self@.artists.map_values(|a: ArtistView| artist_key(a));
        let ghost key = artist_key(self@.selected_artist);
        proof {
            keys.index_of_first_ensures(key);
        }
        let mut i: usize = 0;
        while i < self.artists.len()
            invariant
                keys == self@.artists.map_values(|a: ArtistView| artist_key(a)),
                key == artist_key(self@.selected_artist),
                i <= self.artists@.len(),
                forall|j: int| 0 <= j < i ==> keys[j] != key,
                match keys.index_of_first(key) {
                    Some(index) => {
                        &&& keys.contains(key)
                        &&& 0 <= index < keys.len()
                        &&& keys[index] == key
                        &&& forall|j: int| 0 <= j < index < keys.len() ==> keys[j] != key
                    },
                    None => !keys.contains(key),
                },
            decreases self.artists@.len() - i,
        {
            if self.artists[i].same_as(&self.selected_artist) {
                proof {
                    assert(keys[i as int] == key);
                    assert(keys.contains(key));
                    let index = keys.index_of_first(key).unwrap();
                    if index < i {
                        assert(keys[index] != key);
                    }
                }
                return Some(i);
            }
            i = i + 1;
        }
        proof {
            if keys.contains(key) {
                let k = choose|k: int| 0 <= k < keys.len() && keys[k] == key;
                assert(keys[k] != key);
            }
        }
        None
    }

    /// The position of the selected album among the selected artist's
    /// albums: the first album equal to it.
    pub fn get_selected_album(&self) -> (r: Option<usize>)
        ensures
            r matches Some(i) ==> album_position(self@) == Some(i as int),
            r is None ==> album_position(self@) is None,
    {
        let artist = &self.selected_artist;
        let ghost keys = self@.selected_artist.albums.map_values(|x: AlbumView| album_key(x));
        let ghost key = album_key(self@.selected_artist.selected_album);
        proof {
            keys.index_of_first_ensures(key);
        }
        let mut i: usize = 0;
        while i < artist.albums.len()
            invariant
                artist == &self.selected_artist,
                keys == self@.selected_artist.albums.map_values(|x: AlbumView| album_key(x)),
                key == album_key(self@.selected_artist.selected_album),
                i <= artist.albums@.len(),
                forall|j: int| 0 <= j < i ==> keys[j] != key,
                match keys.index_of_first(key) {
                    Some(index) => {
                        &&& keys.contains(key)
                        &&& 0 <= index < keys.len()
                        &&& keys[index] == key
                        &&& forall|j: int| 0 <= j < index < keys.len() ==> keys[j] != key
                    },
                    None => !keys.contains(key),
                },
            decreases artist.albums@.len() - i,
        {
            if artist.albums[i].same_as(&artist.selected_album) {
                proof {
                    assert(keys[i as int] == key);
                    assert(keys.contains(key));
                    let index = keys.index_of_first(key).unwrap();
                    if index < i {
                        assert(keys[index] != key);
                    }
                }
                return Some(i);
            }
            i = i + 1;
        }
        proof {
            if keys.contains(key) {
                let k = choose|k: int| 0 <= k < keys.len() && keys[k] == key;
                assert(keys[k] != key);
            }
        }
        None
    }

    /// The position of the selected song in the selected album: the first
    /// song with its name.
    pub fn get_selected_song(&self) -> (r: Option<usize>)
        ensures
            r matches Some(i) ==> song_position(self@) == Some(i as int),
            r is None ==> song_position(self@) is None,
    {
        let album = &self.selected_artist.selected_album;
        let ghost keys = self@.selected_artist.selected_album.songs;
        let ghost key = self@.selected_artist.selected_album.selected_song;
        proof {
            keys.index_of_first_ensures(key);
        }
        let mut i: usize = 0;
        while i < album.songs.len()
            invariant
                album == &self.selected_artist.selected_album,
                keys == self@.selected_artist.selected_album.songs,
                key == self@.selected_artist.selected_album.selected_song,
                i <= album.songs@.len(),
                forall|j: int| 0 <= j < i ==> keys[j] != key,
                match keys.index_of_first(key) {
                    Some(index) => {
                        &&& keys.contains(key)
                        &&& 0 <= index < keys.len()
                        &&& keys[index] == key
                        &&& forall|j: int| 0 <= j < index < keys.len() ==> keys[j] != key
                    },
                    None => !keys.contains(key),
                },
            decreases album.songs@.len() - i,
        {
            if album.songs[i].name == album.selected_song.name {
                proof {
                    assert(keys[i as int] == key);
                    assert(keys.contains(key));
                    let index = keys.index_of_first(key).unwrap();
                    if index < i {
                        assert(keys[index] != key);
                    }
                }
                return Some(i);
            }
            i = i + 1;
        }
        proof {
            if keys.contains(key) {
                let k = choose|k: int| 0 <= k < keys.len() && keys[k] == key;
                assert(keys[k] != key);
            }
        }
        None
    }

    /// Select the next artist, wrapping to the first. The selected artist
    /// must be among the artists.
    pub fn artists_down(&mut self)
        requires
            artist_position(old(self)@) is Some,
        ensures
            final(self)@ == artists_moved_down(old(self)@),
    {
        let i = self.get_selected_artist().unwrap();
        proof {
            self@.artists.map_values(|a: ArtistView| artist_key(a)).index_of_first_ensures(artist_key(self@.selected_artist));
        }
        let n = self.artists.len();
        let next = if i + 1 < n { self.artists[i + 1].copy() } else { self.artists[0].copy() };
        self.selected_artist = next;
        proof {
            assert(self@.artists =~= old(self)@.artists);
        }
    }

    /// Select the previous artist, wrapping to the last. The selected
    /// artist must be among the artists.
    pub fn artists_up(&mut self)
        requires
            artist_position(old(self)@) is Some,
        ensures
            final(self)@ == artists_moved_up(old(self)@),
    {
        let i = self.get_selected_artist().unwrap();
        proof {
            self@.artists.map_values(|a: ArtistView| artist_key(a)).index_of_first_ensures(artist_key(self@.selected_artist));
        }
        let next = if i >= 1 { self.artists[i - 1].copy() } else { self.artists[self.artists.len() - 1].copy() };
        self.selected_artist = next;
        proof {
            assert(self@.artists =~= old(self)@.artists);
        }
    }

    /// Select the selected artist's next album, wrapping to the first. The
    /// selected album must be among the artist's albums.
    pub fn albums_down(&mut self)
        requires
            album_position(old(self)@) is Some,
        ensures
            final(self)@ == albums_moved_down(old(self)@),
    {
        let i = self.get_selected_album().unwrap();
        proof {
            self@.selected_artist.albums.map_values(|x: AlbumView| album_key(x)).index_of_first_ensures(
                album_key(self@.selected_artist.selected_album),
            );
        }
        let albums = &self.selected_artist.albums;
        let n = albums.len();
        let next = if i + 1 < n { albums[i + 1].copy() } else { albums[0].copy() };
        self.selected_artist.selected_album = next;
        proof {
            assert(self@.artists =~= old(self)@.artists);
            assert(self@.selected_artist.albums =~= old(self)@.selected_artist.albums);
        }
    }

    /// Select the selected artist's previous album, wrapping to the last.
    /// The selected album must be among the artist's albums.
    pub fn albums_up(&mut self)
        requires
            album_position(old(self)@) is Some,
        ensures
            final(self)@ == albums_moved_up(old(self)@),
    {
        let i = self.get_selected_album().unwrap();
        proof {
            self@.selected_artist.albums.map_values(|x: AlbumView| album_key(x)).index_of_first_ensures(
                album_key(self@.selected_artist.selected_album),
            );
        }
        let albums = &self.selected_artist.albums;
        let next = if i >= 1 { albums[i - 1].copy() } else { albums[albums.len() - 1].copy() };
        self.selected_artist.selected_album = next;
        proof {
            assert(self@.artists =~= old(self)@.artists);
            assert(self@.selected_artist.albums =~= old(self)@.selected_artist.albums);
        }
    }

    /// Select the next song of the selected album, wrapping to the first.
    /// The selected song must be in the album.
    pub fn songs_down(&mut self)
        requires
            song_position(old(self)@) is Some,
        ensures
            final(self)@ == songs_moved_down(old(self)@),
    {
        let i = self.get_selected_song().unwrap();
        proof {
            self@.selected_artist.selected_album.songs.index_of_first_ensures(self@.selected_artist.selected_album.selected_song);
        }
        let songs = &self.selected_artist.selected_album.songs;
        let n = songs.len();
        let next = if i + 1 < n { songs[i + 1].copy() } else { songs[0].copy() };
        self.selected_artist.selected_album.selected_song = next;
        proof {
            assert(self@.artists =~= old(self)@.artists);
            assert(self@.selected_artist.albums =~= old(self)@.selected_artist.albums);
            assert(self@.selected_artist.selected_album.songs =~= old(self)@.selected_artist.selected_album.songs);
        }
    }

    /// Select the previous song of the selected album, wrapping to the
    /// last. The selected song must be in the album.
    pub fn songs_up(&mut self)
        requires
            song_position(old(self)@) is Some,
        ensures
            final(self)@ == songs_moved_up(old(self)@),
    {
        let i = self.get_selected_song().unwrap();
        proof {
            self@.selected_artist.selected_album.songs.index_of_first_ensures(self@.selected_artist.selected_album.selected_song);
        }
        let songs = &self.selected_artist.selected_album.songs;
        let next = if i >= 1 { songs[i - 1].copy() } else { songs[songs.len() - 1].copy() };
        self.selected_artist.selected_album.selected_song = next;
        proof {
            assert(self@.artists =~= old(self)@.artists);
            assert(self@.selected_artist.albums =~= old(self)@.selected_artist.albums);
            assert(self@.selected_artist.selected_album.songs =~= old(self)@.selected_artist.selected_album.songs);
        }
    }

    /// The artists' names.
    pub fn artist_names(&self) -> (r: Vec<String>)
        ensures
            r@.map_values(|s: String| s@) == self@.artists.map_values(|a: ArtistView| a.name),
    {
        let mut out: Vec<String> = Vec::new();
        let mut i: usize = 0;
        while i < self.artists.len()
            invariant
                i <= self.artists@.len(),
                out@.map_values(|s: String| s@) == self@.artists.take(i as int).map_values(|a: ArtistView| a.name),
            decreases self.artists@.len() - i,
        {
            out.push(self.artists[i].name.clone());
            proof {
                assert(self@.artists.take(i + 1).map_values(|a: ArtistView| a.name) =~= self@.artists.take(
                    i as int,
                ).map_values(|a: ArtistView| a.name).push(self@.artists[i as int].name));
            }
            i = i + 1;
        }
        proof {
            assert(self@.artists.take(self@.artists.len() as int) =~= self@.artists);
        }
        out
    }

    /// The selected artist's album names.
    pub fn album_names(&self) -> (r: Vec<String>)
        ensures
            r@.map_values(|s: String| s@) == self@.selected_artist.albums.map_values(|a: AlbumView| a.name),
    {
        let albums = &self.selected_artist.albums;
        let ghost v = self@.selected_artist.albums;
        let mut out: Vec<String> = Vec::new();
        let mut i: usize = 0;
        while i < albums.len()
            invariant
                albums == &self.selected_artist.albums,
                v == self@.selected_artist.albums,
                i <= albums@.len(),
                out@.map_values(|s: String| s@) == v.take(i as int).map_values(|a: AlbumView| a.name),
            decreases albums@.len() - i,
        {
            out.push(albums[i].name.clone());
            proof {
                assert(v.take(i + 1).map_values(|a: AlbumView| a.name) =~= v.take(i as int).map_values(
                    |a: AlbumView| a.name,
                ).push(v[i as int].name));
            }
            i = i + 1;
        }
        proof {
            assert(v.take(v.len() as int) =~= v);
        }
        out
    }

    /// The selected album's song names.
    pub fn song_names(&self) -> (r: Vec<String>)
        ensures
            r@.map_values(|s: String| s@) == self@.selected_artist.selected_album.songs,
    {
        let songs = &self.selected_artist.selected_album.songs;
        let ghost v = self@.selected_artist.selected_album.songs;
        let mut out: Vec<String> = Vec::new();
        let mut i: usize = 0;
        while i < songs.len()
            invariant
                songs == &self.selected_artist.selected_album.songs,
                v == self@.selected_artist.selected_album.songs,
                i <= songs@.len(),
                out@.map_values(|s: String| s@) == v.take(i as int),
            decreases songs@.len() - i,
        {
            let ghost before = out@;
            out.push(songs[i].name.clone());
            proof {
                assert(v.take(i + 1) =~= v.take(i as int).push(v[i as int]));
                assert(out@.map_values(|s: String| s@) =~= before.map_values(|s: String| s@).push(v[i as int]));
            }
            i = i + 1;
        }
        proof {
            assert(v.take(v.len() as int) =~= v);
        }
        out
    }
}

/// Whether no two entries of a list are equal.
pub open spec fn all_distinct<A>(s: Seq<A>) -> bool {
    forall|i: int, j: int| 0 <= i < j < s.len() ==> s[i] != s[j]
}

proof fn lemma_first_of_distinct<A>(s: Seq<A>, j: int)
    requires
        all_distinct(s),
        0 <= j < s.len(),
    ensures
        s.index_of_first(s[j]) == Some(j),
{
    s.index_of_first_ensures(s[j]);
    assert(s.contains(s[j]));
    let k = s.index_of_first(s[j]).unwrap();
    if k < j {
        assert(s[k] != s[j]);
    }
}

/// Moving the artist selection down and then up selects an artist equal to
/// the one selected before, when no two artists are equal.
pub proof fn lemma_artists_down_up(m: MusicView)
    requires
        artist_position(m) is Some,
        all_distinct(m.artists.map_values(|a: ArtistView| artist_key(a))),
    ensures
        artist_key(artists_moved_up(artists_moved_down(m)).selected_artist) == artist_key(m.selected_artist),
{
    let keys = m.artists.map_values(|a: ArtistView| artist_key(a));
    keys.index_of_first_ensures(artist_key(m.selected_artist));
    let i = artist_position(m).unwrap();
    let j = step_down(i, m.artists.len() as int);
    let m1 = artists_moved_down(m);
    lemma_first_of_distinct(keys, j);
    assert(m1.artists.map_values(|a: ArtistView| artist_key(a)) == keys);
    assert(artist_position(m1) == Some(j));
    assert(step_up(j, m.artists.len() as int) == i);
}

/// Moving the album selection down and then up selects an album equal to
/// the one selected before, when no two of the artist's albums are equal.
pub proof fn lemma_albums_down_up(m: MusicView)
    requires
        album_position(m) is Some,
        all_distinct(m.selected_artist.albums.map_values(|x: AlbumView| album_key(x))),
    ensures
        album_key(albums_moved_up(albums_moved_down(m)).selected_artist.selected_album) == album_key(
            m.selected_artist.selected_album,
        ),
{
    let albums = m.selected_artist.albums;
    let keys = albums.map_values(|x: AlbumView| album_key(x));
    keys.index_of_first_ensures(album_key(m.selected_artist.selected_album));
    let i = album_position(m).unwrap();
    let j = step_down(i, albums.len() as int);
    let m1 = albums_moved_down(m);
    lemma_first_of_distinct(keys, j);
    assert(m1.selected_artist.albums.map_values(|x: AlbumView| album_key(x)) == keys);
    assert(album_position(m1) == Some(j));
    assert(step_up(j, albums.len() as int) == i);
}

/// Moving the song selection down and then up selects the song selected
/// before, when no two songs of the album share a name.
pub proof fn lemma_songs_down_up(m: MusicView)
    requires
        song_position(m) is Some,
        all_distinct(m.selected_artist.selected_album.songs),
    ensures
        songs_moved_up(songs_moved_down(m)).selected_artist.selected_album.selected_song
            == m.selected_artist.selected_album.selected_song,
{
    let songs = m.selected_artist.selected_album.songs;
    songs.index_of_first_ensures(m.selected_artist.selected_album.selected_song);
    let i = song_position(m).unwrap();
    let j = step_down(i, songs.len() as int);
    let m1 = songs_moved_down(m);
    lemma_first_of_distinct(songs, j);
    assert(song_position(m1) == Some(j));
    assert(step_up(j, songs.len() as int) == i);
}

} // verus!
