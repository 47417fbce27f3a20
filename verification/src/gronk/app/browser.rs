//! The three-column browser of the terminal player: artists, the albums of
//! the selected artist and the songs of the selected album, each with a
//! cursor. The lists come from the music database; a move tells which list
//! has to be fetched next.
use vstd::prelude::*;
use crate::gronk::index::{Index, step_up, step_down};
use crate::gronk::modes::{BrowserMode, browser_next, browser_prev};
use crate::text::{views, decimal, push_char, push_decimal};

verus! {

/// A song of an album: its track number and title.
#[derive(Debug)]
pub struct Song(pub u16, pub String);

/// The selected entry of a column and the column's cursor.
#[derive(Debug)]
pub struct Item<T> {
    pub item: T,
    pub index: Index,
}

impl Item<Song> {
    /// The first song of a column, selected.
    pub fn new(number: u16, name: String) -> (r: Self)
        ensures
            r.item.0 == number,
            r.item.1@ == name@,
            r.index.index == Some(0usize),
    {
        Item { item: Song(number, name), index: Index::new(Some(0)) }
    }
}

impl Item<String> {
    /// The first entry of a column, selected.
    pub fn new(name: String) -> (r: Self)
        ensures
            r.item@ == name@,
            r.index.index == Some(0usize),
    {
        Item { item: name, index: Index::new(Some(0)) }
    }
}

/// The browser's lists and selections.
#[derive(Debug)]
pub struct BrowserData {
    pub selected_artist: Item<String>,
    pub selected_album: Item<String>,
    pub selected_song: Item<Song>,
    pub artists: Vec<String>,
    pub albums: Vec<String>,
    pub songs: Vec<(u16, String)>,
}

/// How a song is listed: its number, a dot, a space and its title.
pub open spec fn song_line(number: u16, name: Seq<char>) -> Seq<char> {
    decimal(number as nat) + seq!['.', ' '] + name
}

impl BrowserData {
    /// The song column's lines.
    pub fn songs(&self) -> (r: Vec<String>)
        ensures
            r@.len() == self.songs@.len(),
            forall|i: int| 0 <= i < r@.len() ==> (#[trigger] r@[i])@ == song_line(self.songs@[i].0, self.songs@[i].1@),
    {
        let mut out: Vec<String> = Vec::new();
        let mut i: usize = 0;
        while i < self.songs.len()
            invariant
                i <= self.songs.len(),
                out@.len() == i,
                forall|k: int| 0 <= k < i ==> (#[trigger] out@[k])@ == song_line(self.songs@[k].0, self.songs@[k].1@),
            decreases self.songs.len() - i,
        {
            let mut line = String::new();
            push_decimal(&mut line, self.songs[i].0 as u64);
            push_char(&mut line, '.');
            push_char(&mut line, ' ');
            line.append(self.songs[i].1.as_str());
            proof {
                assert(line@ =~= song_line(self.songs@[i as int].0, self.songs@[i as int].1@));
            }
            out.push(line);
            i = i + 1;
        }
        out
    }

    /// The selected song's number and title.
    pub fn song(&self) -> (r: (u16, &str))
        ensures
            r.0 == self.selected_song.item.0,
            r.1@ == self.selected_song.item.1@,
    {
        (self.selected_song.item.0, self.selected_song.item.1.as_str())
    }

    pub fn album(&self) -> (r: &String)
        ensures
            r@ == self.selected_album.item@,
    {
        &self.selected_album.item
    }

    pub fn artist(&self) -> (r: &String)
        ensures
            r@ == self.selected_artist.item@,
    {
        &self.selected_artist.item
    }
}

/// A cursor that points into a list of `len` entries.
pub open spec fn cursor_in(i: Index, len: int) -> bool {
    i.index matches Some(k) && k < len
}

/// What the browser needs from the database next: nothing, the albums of
/// an artist, or the songs of an album of an artist.
#[derive(Debug)]
pub enum Lookup {
    Nothing,
    Albums(String),
    Songs(String, String),
}

/// The browser's data with the active column's cursor moved to `index`.
pub open spec fn with_cursor(d: BrowserData, mode: BrowserMode, index: Option<usize>) -> BrowserData {
    match mode {
        BrowserMode::Artist => BrowserData { selected_artist: Item { index: Index { index }, ..d.selected_artist }, ..d },
        BrowserMode::Album => BrowserData { selected_album: Item { index: Index { index }, ..d.selected_album }, ..d },
        BrowserMode::Song => BrowserData { selected_song: Item { index: Index { index }, ..d.selected_song }, ..d },
    }
}

/// The active column's cursor moved one up or one down, wrapping.
pub open spec fn moved_cursor(d: BrowserData, mode: BrowserMode, up: bool) -> BrowserData {
    let (i, len) = match mode {
        BrowserMode::Artist => (d.selected_artist.index.index, d.artists@.len() as usize),
        BrowserMode::Album => (d.selected_album.index.index, d.albums@.len() as usize),
        BrowserMode::Song => (d.selected_song.index.index, d.songs@.len() as usize),
    };
    with_cursor(d, mode, if up { step_up(i, len) } else { step_down(i, len) })
}

/// What refreshing after the active column changed does: on the artist
/// column the artist under the cursor becomes the selected one and its
/// albums are asked for; on the album column the album under the cursor
/// (the first without a cursor) becomes the selected one and its songs are
/// asked for; on the song column the song under the cursor (the first
/// without a cursor) becomes the selected one. Nothing else changes.
pub open spec fn refreshed(d0: BrowserData, d1: BrowserData, mode: BrowserMode, r: Lookup) -> bool {
    &&& d1.artists == d0.artists
    &&& d1.albums == d0.albums
    &&& d1.songs == d0.songs
    &&& d1.selected_artist.index == d0.selected_artist.index
    &&& d1.selected_album.index == d0.selected_album.index
    &&& d1.selected_song.index == d0.selected_song.index
    &&& match mode {
        BrowserMode::Artist => {
            &&& r matches Lookup::Albums(a) && Some(a@) == selected_name(d0.artists@, d0.selected_artist.index)
            &&& Some(d1.selected_artist.item@) == selected_name(d0.artists@, d0.selected_artist.index)
            &&& d1.selected_album == d0.selected_album
            &&& d1.selected_song == d0.selected_song
        },
        BrowserMode::Album => {
            &&& r matches Lookup::Songs(a, b) && a@ == d0.selected_artist.item@ && Some(b@) == selected_name(
                d0.albums@,
                d0.selected_album.index,
            )
            &&& Some(d1.selected_album.item@) == selected_name(d0.albums@, d0.selected_album.index)
            &&& d1.selected_artist == d0.selected_artist
            &&& d1.selected_song == d0.selected_song
        },
        BrowserMode::Song => {
            let k = match d0.selected_song.index.index {
                Some(i) => i as int,
                None => 0,
            };
            &&& r is Nothing
            &&& d1.selected_song.item.0 == d0.songs@[k].0
            &&& d1.selected_song.item.1@ == d0.songs@[k].1@
            &&& d1.selected_artist == d0.selected_artist
            &&& d1.selected_album == d0.selected_album
        },
    }
}

/// The browser: its data, once the database had at least one song, and
/// the active column.
#[derive(Debug)]
pub struct Browser {
    pub browser_data: Option<BrowserData>,
    pub mode: BrowserMode,
}

/// What moving the active column's cursor one up or down does: the
/// cursor moves, wrapping, and what depends on it is refreshed.
pub open spec fn browser_moved(old: Browser, new: Browser, up: bool, r: Lookup) -> bool {
    &&& new.well_formed()
    &&& new.mode == old.mode
    &&& match (old.browser_data, new.browser_data) {
        (Some(d0), Some(d1)) => refreshed(moved_cursor(d0, old.mode, up), d1, old.mode, r),
        (None, None) => r is Nothing,
        _ => false,
    }
}

impl Browser {
    /// Every column has entries and every cursor points into its column.
    pub open spec fn well_formed(&self) -> bool {
        match self.browser_data {
            Some(d) => {
                &&& d.artists@.len() > 0
                &&& d.albums@.len() > 0
                &&& d.songs@.len() > 0
                &&& cursor_in(d.selected_artist.index, d.artists@.len() as int)
                &&& cursor_in(d.selected_album.index, d.albums@.len() as int)
                &&& cursor_in(d.selected_song.index, d.songs@.len() as int)
            },
            None => true,
        }
    }

    /// The browser over the database's artists, the albums of the first
    /// artist and the songs of that artist's first album, each column at
    /// its first entry; with an empty list there is nothing to browse.
    pub fn new(artists: Vec<String>, albums: Vec<String>, songs: Vec<(u16, String)>) -> (r: Self)
        ensures
            r.well_formed(),
            r.mode == BrowserMode::Artist,
            artists.len() == 0 || albums.len() == 0 || songs.len() == 0 ==> r.browser_data is None,
            artists.len() > 0 && albums.len() > 0 && songs.len() > 0 ==> (r.browser_data matches Some(d) && {
                &&& views(d.artists@) == views(artists@)
                &&& views(d.albums@) == views(albums@)
                &&& d.songs@ == songs@
                &&& d.selected_artist.item@ == artists@[0]@
                &&& d.selected_album.item@ == albums@[0]@
                &&& d.selected_song.item.0 == songs@[0].0
                &&& d.selected_song.item.1@ == songs@[0].1@
                &&& d.selected_artist.index.index == Some(0usize)
                &&& d.selected_album.index.index == Some(0usize)
                &&& d.selected_song.index.index == Some(0usize)
            }),
    {
        if artists.len() == 0 || albums.len() == 0 || songs.len() == 0 {
            return Browser { browser_data: None, mode: BrowserMode::Artist };
        }
        let selected_artist = Item::<String>::new(artists[0].clone());
        let selected_album = Item::<String>::new(albums[0].clone());
        let selected_song = Item::<Song>::new(songs[0].0, songs[0].1.clone());
        Browser {
            browser_data: Some(BrowserData { selected_artist, selected_album, selected_song, artists, albums, songs }),
            mode: BrowserMode::Artist,
        }
    }

    pub fn get_selected_artist(&self) -> (r: Option<usize>)
        ensures
            r == match self.browser_data {
                Some(d) => d.selected_artist.index.index,
                None => None,
            },
    {
        match &self.browser_data {
            Some(data) => data.selected_artist.index.selected(),
            None => None,
        }
    }

    pub fn get_selected_album(&self) -> (r: Option<usize>)
        ensures
            r == match self.browser_data {
                Some(d) => d.selected_album.index.index,
                None => None,
            },
    {
        match &self.browser_data {
            Some(data) => data.selected_album.index.selected(),
            None => None,
        }
    }

    pub fn get_selected_song(&self) -> (r: Option<usize>)
        ensures
            r == match self.browser_data {
                Some(d) => d.selected_song.index.index,
                None => None,
            },
    {
        match &self.browser_data {
            Some(data) => data.selected_song.index.selected(),
            None => None,
        }
    }

    /// The artist column (empty without data).
    pub fn artist_names(&self) -> (r: &[String])
        ensures
            r@ == match self.browser_data {
                Some(d) => d.artists@,
                None => Seq::<String>::empty(),
            },
    {
        match &self.browser_data {
            Some(data) => data.artists.as_slice(),
            None => &[],
        }
    }

    /// The album column (empty without data).
    pub fn album_names(&self) -> (r: &[String])
        ensures
            r@ == match self.browser_data {
                Some(d) => d.albums@,
                None => Seq::<String>::empty(),
            },
    {
        match &self.browser_data {
            Some(data) => data.albums.as_slice(),
            None => &[],
        }
    }

    /// The song column's lines (none without data).
    pub fn song_names(&self) -> (r: Vec<String>)
        ensures
            match self.browser_data {
                Some(d) => r@.len() == d.songs@.len() && forall|i: int|
                    0 <= i < r@.len() ==> (#[trigger] r@[i])@ == song_line(d.songs@[i].0, d.songs@[i].1@),
                None => r@.len() == 0,
            },
    {
        match &self.browser_data {
            Some(data) => data.songs(),
            None => Vec::new(),
        }
    }
}

impl Browser {
    /// Move the active column's cursor one up (wrapping), then refresh what
    /// depends on it.
    pub fn up(&mut self) -> (r: Lookup)
        requires
            old(self).well_formed(),
        ensures
            browser_moved(*old(self), *final(self), true, r),
    {
        if let Some(data) = &mut self.browser_data {
            match self.mode {
                BrowserMode::Artist => {
                    let len = data.artists.len();
                    data.selected_artist.index.up(len);
                },
                BrowserMode::Album => {
                    let len = data.albums.len();
                    data.selected_album.index.up(len);
                },
                BrowserMode::Song => {
                    let len = data.songs.len();
                    data.selected_song.index.up(len);
                },
            }
        }
        self.update_browser()
    }

    /// Move the active column's cursor one down (wrapping), then refresh
    /// what depends on it.
    pub fn down(&mut self) -> (r: Lookup)
        requires
            old(self).well_formed(),
        ensures
            browser_moved(*old(self), *final(self), false, r),
    {
        if let Some(data) = &mut self.browser_data {
            match self.mode {
                BrowserMode::Artist => {
                    let len = data.artists.len();
                    data.selected_artist.index.down(len);
                },
                BrowserMode::Album => {
                    let len = data.albums.len();
                    data.selected_album.index.down(len);
                },
                BrowserMode::Song => {
                    let len = data.songs.len();
                    data.selected_song.index.down(len);
                },
            }
        }
        self.update_browser()
    }

    /// Refresh what depends on the active column: the albums for the
    /// artist column, the songs for the album column, the selected song
    /// for the song column.
    pub fn update_browser(&mut self) -> (r: Lookup)
        requires
            old(self).well_formed(),
        ensures
            final(self).well_formed(),
            final(self).mode == old(self).mode,
            match (old(self).browser_data, final(self).browser_data) {
                (Some(d0), Some(d1)) => refreshed(d0, d1, old(self).mode, r),
                (None, None) => r is Nothing,
                _ => false,
            },
    {
        match self.mode {
            BrowserMode::Artist => self.update_albums(),
            BrowserMode::Album => self.update_songs(),
            BrowserMode::Song => {
                self.update_selected_song();
                Lookup::Nothing
            },
        }
    }

    /// Take the artist under the cursor as the selected artist; its albums
    /// are to be looked up.
    pub fn update_albums(&mut self) -> (r: Lookup)
        requires
            old(self).well_formed(),
        ensures
            final(self).well_formed(),
            final(self).mode == old(self).mode,
            match (old(self).browser_data, final(self).browser_data) {
                (Some(d0), Some(d1)) => {
                    &&& r matches Lookup::Albums(a) && Some(a@) == selected_name(d0.artists@, d0.selected_artist.index)
                    &&& Some(d1.selected_artist.item@) == selected_name(d0.artists@, d0.selected_artist.index)
                    &&& d1.selected_artist.index == d0.selected_artist.index
                    &&& d1.selected_album == d0.selected_album
                    &&& d1.selected_song == d0.selected_song
                    &&& d1.artists == d0.artists
                    &&& d1.albums == d0.albums
                    &&& d1.songs == d0.songs
                },
                (None, None) => r is Nothing,
                _ => false,
            },
    {
        if let Some(data) = &mut self.browser_data {
            if let Some(index) = data.selected_artist.index.selected() {
                let name = data.artists[index].clone();
                data.selected_artist.item = name.clone();
                return Lookup::Albums(name);
            }
        }
        Lookup::Nothing
    }

    /// The selected artist's albums as the album column, at its first
    /// entry; the songs of that album are to be looked up.
    pub fn set_albums(&mut self, albums: Vec<String>) -> (r: Lookup)
        requires
            old(self).well_formed(),
            albums.len() > 0,
        ensures
            final(self).well_formed(),
            final(self).mode == old(self).mode,
            match (old(self).browser_data, final(self).browser_data) {
                (Some(d0), Some(d1)) => {
                    &&& views(d1.albums@) == views(albums@)
                    &&& d1.selected_album.item@ == albums@[0]@
                    &&& d1.selected_album.index.index == Some(0usize)
                    &&& r matches Lookup::Songs(a, b) && a@ == d0.selected_artist.item@ && b@ == albums@[0]@
                    &&& d1.selected_artist == d0.selected_artist
                    &&& d1.artists == d0.artists
                    &&& d1.songs == d0.songs
                },
                (None, None) => r is Nothing,
                _ => false,
            },
    {
        if let Some(data) = &mut self.browser_data {
            data.selected_album = Item::<String>::new(albums[0].clone());
            data.albums = albums;
        }
        self.update_songs()
    }

    /// Take the album under the cursor (the first if there is no cursor) as
    /// the selected album; its songs are to be looked up.
    pub fn update_songs(&mut self) -> (r: Lookup)
        requires
            old(self).well_formed(),
        ensures
            final(self).well_formed(),
            final(self).mode == old(self).mode,
            match (old(self).browser_data, final(self).browser_data) {
                (Some(d0), Some(d1)) => {
                    &&& r matches Lookup::Songs(a, b) && a@ == d0.selected_artist.item@ && Some(b@) == selected_name(
                        d0.albums@,
                        d0.selected_album.index,
                    )
                    &&& Some(d1.selected_album.item@) == selected_name(d0.albums@, d0.selected_album.index)
                    &&& d1.selected_album.index == d0.selected_album.index
                    &&& d1.selected_artist == d0.selected_artist
                    &&& d1.selected_song == d0.selected_song
                    &&& d1.artists == d0.artists
                    &&& d1.albums == d0.albums
                    &&& d1.songs == d0.songs
                },
                (None, None) => r is Nothing,
                _ => false,
            },
    {
        if let Some(data) = &mut self.browser_data {
            let index = match data.selected_album.index.selected() {
                Some(i) => i,
                None => 0,
            };
            let name = data.albums[index].clone();
            data.selected_album.item = name.clone();
            return Lookup::Songs(data.selected_artist.item.clone(), name);
        }
        Lookup::Nothing
    }

    /// The selected album's songs as the song column, at its first entry.
    pub fn set_songs(&mut self, songs: Vec<(u16, String)>)
        requires
            old(self).well_formed(),
            songs.len() > 0,
        ensures
            final(self).well_formed(),
            final(self).mode == old(self).mode,
            match (old(self).browser_data, final(self).browser_data) {
                (Some(d0), Some(d1)) => {
                    &&& d1.songs@ == songs@
                    &&& d1.selected_song.item.0 == songs@[0].0
                    &&& d1.selected_song.item.1@ == songs@[0].1@
                    &&& d1.selected_song.index.index == Some(0usize)
                    &&& d1.selected_artist == d0.selected_artist
                    &&& d1.selected_album == d0.selected_album
                    &&& d1.artists == d0.artists
                    &&& d1.albums == d0.albums
                },
                (None, None) => true,
                _ => false,
            },
    {
        if let Some(data) = &mut self.browser_data {
            data.selected_song = Item::<Song>::new(songs[0].0, songs[0].1.clone());
            data.songs = songs;
        }
    }

    /// Take the song under the cursor (the first if there is no cursor) as
    /// the selected song.
    pub fn update_selected_song(&mut self)
        requires
            old(self).well_formed(),
        ensures
            final(self).well_formed(),
            final(self).mode == old(self).mode,
            match (old(self).browser_data, final(self).browser_data) {
                (Some(d0), Some(d1)) => {
                    let k = match d0.selected_song.index.index {
                        Some(i) => i as int,
                        None => 0,
                    };
                    &&& d1.selected_song.item.0 == d0.songs@[k].0
                    &&& d1.selected_song.item.1@ == d0.songs@[k].1@
                    &&& d1.selected_song.index == d0.selected_song.index
                    &&& d1.selected_artist == d0.selected_artist
                    &&& d1.selected_album == d0.selected_album
                    &&& d1.artists == d0.artists
                    &&& d1.albums == d0.albums
                    &&& d1.songs == d0.songs
                },
                (None, None) => true,
                _ => false,
            },
    {
        if let Some(data) = &mut self.browser_data {
            let index = match data.selected_song.index.selected() {
                Some(i) => i,
                None => 0,
            };
            if index < data.songs.len() {
                let number = data.songs[index].0;
                let name = data.songs[index].1.clone();
                data.selected_song.item = Song(number, name);
            }
        }
    }

    /// Make the column to the right active.
    pub fn next(&mut self)
        ensures
            final(self).mode == browser_next(old(self).mode),
            final(self).browser_data == old(self).browser_data,
    {
        self.mode.next();
    }

    /// Make the column to the left active.
    pub fn prev(&mut self)
        ensures
            final(self).mode == browser_prev(old(self).mode),
            final(self).browser_data == old(self).browser_data,
    {
        self.mode.prev();
    }

    pub fn mode(&self) -> (r: &BrowserMode)
        ensures
            *r == self.mode,
    {
        &self.mode
    }
}

/// The name under a column's cursor.
pub open spec fn selected_name(names: Seq<String>, i: Index) -> Option<Seq<char>> {
    match i.index {
        Some(k) => if 0 <= k < names.len() {
            Some(names[k as int]@)
        } else {
            None
        },
        None => None,
    }
}

} // verus!
