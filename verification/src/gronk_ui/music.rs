//! Browser columns whose song column carries track numbers, shown before
//! the titles.
use vstd::prelude::*;
use crate::gronk_ui::browser::BrowserMode;
use crate::gronk::app::browser::{Lookup, song_line};
use crate::text::{views, push_char, push_decimal};

verus! {

/// The selected entry of a column (with its track number in the song
/// column), its position and the column's length.
#[derive(Debug)]
pub struct Item {
    pub prefix: Option<u16>,
    pub item: String,
    pub index: usize,
    pub len: usize,
}

impl Item {
    pub fn new(prefix: Option<u16>, item: String, index: usize, len: usize) -> (r: Self)
        ensures
            r.prefix == prefix,
            r.item@ == item@,
            r.index == index,
            r.len == len,
    {
        Item { prefix, item, index, len }
    }
}

/// The three columns and their selections.
#[derive(Debug)]
pub struct Music {
    pub selected_artist: Item,
    pub selected_album: Item,
    pub selected_song: Item,
    pub artists: Vec<String>,
    pub albums: Vec<String>,
    pub songs: Vec<(u16, String)>,
}

/// An item's position lies in its column, whose length it carries.
pub open spec fn item_in(i: Item, len: int) -> bool {
    i.len == len && i.index < len
}

impl Music {
    /// Every column has entries, and every selection lies in its column.
    pub open spec fn well_formed(&self) -> bool {
        &&& self.artists@.len() > 0
        &&& self.albums@.len() > 0
        &&& self.songs@.len() > 0
        &&& item_in(self.selected_artist, self.artists@.len() as int)
        &&& item_in(self.selected_album, self.albums@.len() as int)
        &&& item_in(self.selected_song, self.songs@.len() as int)
    }

    /// The columns over the database's artists, the first artist's albums
    /// and that album's songs, each at its first entry.
    pub fn new(artists: Vec<String>, albums: Vec<String>, songs: Vec<(u16, String)>) -> (r: Self)
        requires
            artists.len() > 0,
            albums.len() > 0,
            songs.len() > 0,
        ensures
            r.well_formed(),
            views(r.artists@) == views(artists@),
            views(r.albums@) == views(albums@),
            r.songs@ == songs@,
            r.selected_artist.item@ == artists@[0]@ && r.selected_artist.index == 0 && r.selected_artist.prefix is None,
            r.selected_album.item@ == albums@[0]@ && r.selected_album.index == 0 && r.selected_album.prefix is None,
            r.selected_song.item@ == songs@[0].1@ && r.selected_song.index == 0 && r.selected_song.prefix == Some(
                songs@[0].0,
            ),
    {
        let selected_artist = Item::new(None, artists[0].clone(), 0, artists.len());
        let selected_album = Item::new(None, albums[0].clone(), 0, albums.len());
        let selected_song = Item::new(Some(songs[0].0), songs[0].1.clone(), 0, songs.len());
        Music { selected_artist, selected_album, selected_song, artists, albums, songs }
    }

    pub fn get_selected_artist(&self) -> (r: Option<usize>)
        ensures
            r == Some(self.selected_artist.index),
    {
        Some(self.selected_artist.index)
    }

    pub fn get_selected_album(&self) -> (r: Option<usize>)
        ensures
            r == Some(self.selected_album.index),
    {
        Some(self.selected_album.index)
    }

    pub fn get_selected_song(&self) -> (r: Option<usize>)
        ensures
            r == Some(self.selected_song.index),
    {
        Some(self.selected_song.index)
    }

    pub fn artist_names(&self) -> (r: &Vec<String>)
        ensures
            r@ == self.artists@,
    {
        &self.artists
    }

    pub fn album_names(&self) -> (r: &Vec<String>)
        ensures
            r@ == self.albums@,
    {
        &self.albums
    }

    /// The song column's lines: number, dot, space, title.
    pub fn song_names(&self) -> (r: Vec<String>)
        ensures
            r@.len() == self.songs@.len(),
            forall|i: int| 0 <= i < r@.len() ==> (#[trigger] r@[i])@ == song_line(self.songs@[i].0, self.songs@[i].1@),
    {
        let mut out: Vec<String> = Vec::new();
        let mut i: usize = 0;
        while i < self.songs.len()
            invariant
                i <= self.songs.len(),
                out@.len() == i,
                forall|k: int| 0 <= k < i ==> (#[trigger] out@[k])@ == song_line(self.songs@[k].0, self.songs@[k].1@),
            decreases self.songs.len() - i,
        {
            let mut line = String::new();
            push_decimal(&mut line, self.songs[i].0 as u64);
            push_char(&mut line, '.');
            push_char(&mut line, ' ');
            line.append(self.songs[i].1.as_str());
            proof {
                assert(line@ =~= song_line(self.songs@[i as int].0, self.songs@[i as int].1@));
            }
            out.push(line);
            i = i + 1;
        }
        out
    }

    /// Move the active column's selection one up, wrapping to the end. The
    /// artist column then asks for the new artist's albums; the album
    /// column takes the song at the song selection's position.
    pub fn up(&mut self, mode: &BrowserMode) -> (r: Lookup)
        requires
            old(self).well_formed(),
        ensures
            final(self).well_formed(),
            final(self).artists@ == old(self).artists@,
            final(self).albums@ == old(self).albums@,
            final(self).songs@ == old(self).songs@,
            match *mode {
                BrowserMode::Artist => {
                    let i = if old(self).selected_artist.index > 0 {
                        old(self).selected_artist.index - 1
                    } else {
                        old(self).selected_artist.len - 1
                    };
                    &&& final(self).selected_artist.index == i
                    &&& final(self).selected_artist.item@ == old(self).artists@[i]@
                    &&& r matches Lookup::Albums(a) && a@ == old(self).artists@[i]@
                },
                BrowserMode::Album => {
                    &&& final(self).selected_album.index == if old(self).selected_album.index > 0 {
                        old(self).selected_album.index - 1
                    } else {
                        old(self).selected_album.len - 1
                    }
                    &&& final(self).selected_song.prefix == Some(old(self).songs@[old(self).selected_song.index as int].0)
                    &&& final(self).selected_song.item@ == old(self).songs@[old(self).selected_song.index as int].1@
                    &&& r is Nothing
                },
                BrowserMode::Song => {
                    &&& final(self).selected_song.index == if old(self).selected_song.index > 0 {
                        old(self).selected_song.index - 1
                    } else {
                        old(self).selected_song.len - 1
                    }
                    &&& r is Nothing
                },
            },
    {
        match mode {
            BrowserMode::Artist => {
                let i = self.selected_artist.index;
                self.selected_artist.index = if i > 0 { i - 1 } else { self.selected_artist.len - 1 };
                self.reset_artist()
            },
            BrowserMode::Album => {
                let i = self.selected_album.index;
                self.selected_album.index = if i > 0 { i - 1 } else { self.selected_album.len - 1 };
                self.update_song();
                Lookup::Nothing
            },
            BrowserMode::Song => {
                let i = self.selected_song.index;
                self.selected_song.index = if i > 0 { i - 1 } else { self.selected_song.len - 1 };
                Lookup::Nothing
            },
        }
    }

    /// Move the active column's selection one down, wrapping to the top.
    /// The artist column then asks for the new artist's albums, the album
    /// column for the new album's songs; the song column takes the song
    /// under the new position.
    pub fn down(&mut self, mode: &BrowserMode) -> (r: Lookup)
        requires
            old(self).well_formed(),
        ensures
            final(self).well_formed(),
            final(self).artists@ == old(self).artists@,
            final(self).albums@ == old(self).albums@,
            final(self).songs@ == old(self).songs@,
            match *mode {
                BrowserMode::Artist => {
                    let i = if old(self).selected_artist.index + 1 < old(self).selected_artist.len {
                        old(self).selected_artist.index + 1
                    } else {
                        0
                    };
                    &&& final(self).selected_artist.index == i
                    &&& final(self).selected_artist.item@ == old(self).artists@[i]@
                    &&& r matches Lookup::Albums(a) && a@ == old(self).artists@[i]@
                },
                BrowserMode::Album => {
                    let i = if old(self).selected_album.index + 1 < old(self).selected_album.len {
                        old(self).selected_album.index + 1
                    } else {
                        0
                    };
                    &&& final(self).selected_album.index == i
                    &&& final(self).selected_album.item@ == old(self).albums@[i]@
                    &&& r matches Lookup::Songs(a, b) && a@ == old(self).selected_artist.item@ && b@ == old(self).albums@[i]@
                },
                BrowserMode::Song => {
                    let i = if old(self).selected_song.index + 1 < old(self).selected_song.len {
                        old(self).selected_song.index + 1
                    } else {
                        0
                    };
                    &&& final(self).selected_song.index == i
                    &&& final(self).selected_song.prefix == Some(old(self).songs@[i].0)
                    &&& final(self).selected_song.item@ == old(self).songs@[i].1@
                    &&& r is Nothing
                },
            },
    {
        match mode {
            BrowserMode::Artist => {
                let i = self.selected_artist.index;
                self.selected_artist.index = if i + 1 < self.selected_artist.len { i + 1 } else { 0 };
                self.reset_artist()
            },
            BrowserMode::Album => {
                let i = self.selected_album.index;
                self.selected_album.index = if i + 1 < self.selected_album.len { i + 1 } else { 0 };
                self.reset_songs()
            },
            BrowserMode::Song => {
                let i = self.selected_song.index;
                self.selected_song.index = if i + 1 < self.selected_song.len { i + 1 } else { 0 };
                self.update_song();
                Lookup::Nothing
            },
        }
    }

    /// Take the song at the song selection's position as the selected song.
    pub fn update_song(&mut self)
        requires
            old(self).well_formed(),
        ensures
            final(self).well_formed(),
            final(self).selected_song.prefix == Some(old(self).songs@[old(self).selected_song.index as int].0),
            final(self).selected_song.item@ == old(self).songs@[old(self).selected_song.index as int].1@,
            final(self).selected_song.index == old(self).selected_song.index,
            final(self).selected_song.len == old(self).selected_song.len,
            final(self).selected_artist == old(self).selected_artist,
            final(self).selected_album == old(self).selected_album,
            final(self).artists == old(self).artists,
            final(self).albums == old(self).albums,
            final(self).songs == old(self).songs,
    {
        let number = self.songs[self.selected_song.index].0;
        let name = self.songs[self.selected_song.index].1.clone();
        self.selected_song.prefix = Some(number);
        self.selected_song.item = name;
    }

    /// Take the artist at the artist selection's position; its albums are
    /// to be looked up.
    pub fn reset_artist(&mut self) -> (r: Lookup)
        requires
            old(self).well_formed(),
        ensures
            final(self).well_formed(),
            final(self).selected_artist.item@ == old(self).artists@[old(self).selected_artist.index as int]@,
            final(self).selected_artist.index == old(self).selected_artist.index,
            final(self).selected_album == old(self).selected_album,
            final(self).selected_song == old(self).selected_song,
            final(self).artists == old(self).artists,
            final(self).albums == old(self).albums,
            final(self).songs == old(self).songs,
            r matches Lookup::Albums(a) && a@ == old(self).artists@[old(self).selected_artist.index as int]@,
    {
        let name = self.artists[self.selected_artist.index].clone();
        self.selected_artist.item = name.clone();
        Lookup::Albums(name)
    }

    /// The selected artist's albums as the album column, at its first
    /// entry; that album's songs are to be looked up.
    pub fn set_albums(&mut self, albums: Vec<String>) -> (r: Lookup)
        requires
            old(self).well_formed(),
            albums.len() > 0,
        ensures
            final(self).well_formed(),
            views(final(self).albums@) == views(albums@),
            final(self).selected_album.item@ == albums@[0]@,
            final(self).selected_album.index == 0,
            final(self).selected_album.prefix is None,
            final(self).selected_artist == old(self).selected_artist,
            final(self).artists == old(self).artists,
            final(self).songs == old(self).songs,
            r matches Lookup::Songs(a, b) && a@ == old(self).selected_artist.item@ && b@ == albums@[0]@,
    {
        self.selected_album = Item::new(None, albums[0].clone(), 0, albums.len());
        self.albums = albums;
        self.reset_songs()
    }

    /// Take the album at the album selection's position; its songs are to
    /// be looked up.
    pub fn reset_songs(&mut self) -> (r: Lookup)
        requires
            old(self).well_formed(),
        ensures
            final(self).well_formed(),
            final(self).selected_album.item@ == old(self).albums@[old(self).selected_album.index as int]@,
            final(self).selected_album.index == old(self).selected_album.index,
            final(self).selected_album.prefix == old(self).selected_album.prefix,
            final(self).selected_album.len == old(self).selected_album.len,
            final(self).selected_artist == old(self).selected_artist,
            final(self).selected_song == old(self).selected_song,
            final(self).artists == old(self).artists,
            final(self).albums == old(self).albums,
            final(self).songs == old(self).songs,
            r matches Lookup::Songs(a, b) && a@ == old(self).selected_artist.item@ && b@
                == old(self).albums@[old(self).selected_album.index as int]@,
    {
        let name = self.albums[self.selected_album.index].clone();
        self.selected_album.item = name.clone();
        Lookup::Songs(self.selected_artist.item.clone(), name)
    }

    /// The selected album's songs as the song column, at its first entry.
    pub fn set_songs(&mut self, songs: Vec<(u16, String)>)
        requires
            old(self).well_formed(),
            songs.len() > 0,
        ensures
            final(self).well_formed(),
            final(self).songs@ == songs@,
            final(self).selected_song.prefix == Some(songs@[0].0),
            final(self).selected_song.item@ == songs@[0].1@,
            final(self).selected_song.index == 0,
            final(self).selected_artist == old(self).selected_artist,
            final(self).selected_album == old(self).selected_album,
            final(self).artists == old(self).artists,
            final(self).albums == old(self).albums,
    {
        self.selected_song = Item::new(Some(songs[0].0), songs[0].1.clone(), 0, songs.len());
        self.songs = songs;
    }
}

} // verus!
