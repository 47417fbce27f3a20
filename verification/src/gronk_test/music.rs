//! Browser columns that carry their own length: the selected entry of each
//! column with its position, and the column lists from the database.
use vstd::prelude::*;
use crate::gronk_test::app::BrowserMode;
use crate::gronk::app::browser::Lookup;
use crate::text::views;

verus! {

/// The selected entry of a column, its position and the column's length.
#[derive(Debug)]
pub struct Item {
    pub item: String,
    pub index: usize,
    pub len: usize,
}

impl Item {
    pub fn new(item: String, index: usize, len: usize) -> (r: Self)
        ensures
            r.item@ == item@,
            r.index == index,
            r.len == len,
    {
        Item { item, index, len }
    }
}

/// The position before `index` in a column of `len`, wrapping to the end.
pub open spec fn wrap_up(index: usize, len: usize) -> usize {
    if index >= 1 { (index - 1) as usize } else { (len - 1) as usize }
}

/// The position after `index` in a column of `len`, wrapping to the top.
pub open spec fn wrap_down(index: usize, len: usize) -> usize {
    if index + 1 < len { (index + 1) as usize } else { 0 }
}

/// The three columns and their selections.
#[derive(Debug)]
pub struct Music {
    pub selected_artist: Item,
    pub selected_album: Item,
    pub selected_song: Item,
    pub artists: Vec<String>,
    pub albums: Vec<String>,
    pub songs: Vec<String>,
}

/// An item's position lies in its column, whose length it carries.
pub open spec fn item_in(i: Item, len: int) -> bool {
    i.len == len && i.index < len
}

/// What moving up in column `mode` does: the selection of that column steps
/// back, wrapping to the end, and the columns to its right are to be
/// refreshed.
pub open spec fn moved_up(old: Music, new: Music, mode: BrowserMode, r: Lookup) -> bool {
    &&& new.well_formed()
    &&& new.artists@ == old.artists@
    &&& new.songs@ == old.songs@
    &&& new.albums@ == old.albums@
    &&& match mode {
        BrowserMode::Artist => {
            let i = wrap_up(old.selected_artist.index, old.selected_artist.len);
            &&& new.selected_artist.index == i
            &&& new.selected_artist.item@ == old.artists@[i as int]@
            &&& r matches Lookup::Albums(a) && a@ == old.artists@[i as int]@
        },
        BrowserMode::Album => {
            let i = wrap_up(old.selected_album.index, old.selected_album.len);
            &&& new.selected_album.index == i
            &&& new.selected_album.item@ == old.albums@[i as int]@
            &&& r matches Lookup::Songs(a, b) && a@ == old.selected_artist.item@ && b@ == old.albums@[i as int]@
        },
        BrowserMode::Song => {
            &&& new.selected_song.index == wrap_up(old.selected_song.index, old.selected_song.len)
            &&& r is Nothing
        },
    }
}

/// What moving down in column `mode` does: the selection of that column
/// steps on, wrapping to the top, and the columns to its right are to be
/// refreshed.
pub open spec fn moved_down(old: Music, new: Music, mode: BrowserMode, r: Lookup) -> bool {
    &&& new.well_formed()
    &&& new.artists@ == old.artists@
    &&& new.songs@ == old.songs@
    &&& new.albums@ == old.albums@
    &&& match mode {
        BrowserMode::Artist => {
            let i = wrap_down(old.selected_artist.index, old.selected_artist.len);
            &&& new.selected_artist.index == i
            &&& new.selected_artist.item@ == old.artists@[i as int]@
            &&& r matches Lookup::Albums(a) && a@ == old.artists@[i as int]@
        },
        BrowserMode::Album => {
            let i = wrap_down(old.selected_album.index, old.selected_album.len);
            &&& new.selected_album.index == i
            &&& new.selected_album.item@ == old.albums@[i as int]@
            &&& r matches Lookup::Songs(a, b) && a@ == old.selected_artist.item@ && b@ == old.albums@[i as int]@
        },
        BrowserMode::Song => {
            &&& new.selected_song.index == wrap_down(old.selected_song.index, old.selected_song.len)
            &&& r is Nothing
        },
    }
}

impl Music {
    /// Every column has entries, and every selection lies in its column.
    pub open spec fn well_formed(&self) -> bool {
        &&& self.artists@.len() > 0
        &&& self.albums@.len() > 0
        &&& self.songs@.len() > 0
        &&& item_in(self.selected_artist, self.artists@.len() as int)
        &&& item_in(self.selected_album, self.albums@.len() as int)
        &&& item_in(self.selected_song, self.songs@.len() as int)
        &&& self.artists@.len() <= i32::MAX
        &&& self.albums@.len() <= i32::MAX
        &&& self.songs@.len() <= i32::MAX
    }

    /// The columns over the database's artists, the first artist's albums
    /// and that album's songs, each at its first entry.
    pub fn new(artists: Vec<String>, albums: Vec<String>, songs: Vec<String>) -> (r: Self)
        requires
            0 < artists.len() <= i32::MAX,
            0 < albums.len() <= i32::MAX,
            0 < songs.len() <= i32::MAX,
        ensures
            r.well_formed(),
            views(r.artists@) == views(artists@),
            views(r.albums@) == views(albums@),
            views(r.songs@) == views(songs@),
            r.selected_artist.item@ == artists@[0]@ && r.selected_artist.index == 0,
            r.selected_album.item@ == albums@[0]@ && r.selected_album.index == 0,
            r.selected_song.item@ == songs@[0]@ && r.selected_song.index == 0,
    {
        let selected_artist = Item::new(artists[0].clone(), 0, artists.len());
        let selected_album = Item::new(albums[0].clone(), 0, albums.len());
        let selected_song = Item::new(songs[0].clone(), 0, songs.len());
        Music { selected_artist, selected_album, selected_song, artists, albums, songs }
    }

    pub fn get_selected_artist(&self) -> (r: Option<usize>)
        ensures
            r == Some(self.selected_artist.index),
    {
        Some(self.selected_artist.index)
    }

    pub fn get_selected_album(&self) -> (r: Option<usize>)
        ensures
            r == Some(self.selected_album.index),
    {
        Some(self.selected_album.index)
    }

    pub fn get_selected_song(&self) -> (r: Option<usize>)
        ensures
            r == Some(self.selected_song.index),
    {
        Some(self.selected_song.index)
    }

    pub fn artist_names(&self) -> (r: &Vec<String>)
        ensures
            r@ == self.artists@,
    {
        &self.artists
    }

    pub fn album_names(&self) -> (r: &Vec<String>)
        ensures
            r@ == self.albums@,
    {
        &self.albums
    }

    pub fn song_names(&self) -> (r: &Vec<String>)
        ensures
            r@ == self.songs@,
    {
        &self.songs
    }

    /// Move the active column's selection one up, wrapping to the end; the
    /// artist column then asks for the new artist's albums, the album
    /// column for the new album's songs.
    pub fn up(&mut self, mode: &BrowserMode) -> (r: Lookup)
        requires
            old(self).well_formed(),
        ensures
            moved_up(*old(self), *final(self), *mode, r),
    {
        match mode {
            BrowserMode::Artist => {
                let i = self.selected_artist.index;
                self.selected_artist.index = if (i as i32) - 1 >= 0 { i - 1 } else { self.selected_artist.len - 1 };
                self.update()
            },
            BrowserMode::Album => {
                let i = self.selected_album.index;
                self.selected_album.index = if (i as i32) - 1 >= 0 { i - 1 } else { self.selected_album.len - 1 };
                self.update_song()
            },
            BrowserMode::Song => {
                let i = self.selected_song.index;
                self.selected_song.index = if (i as i32) - 1 >= 0 { i - 1 } else { self.selected_song.len - 1 };
                Lookup::Nothing
            },
        }
    }

    /// Move the active column's selection one down, wrapping to the top;
    /// the artist column then asks for the new artist's albums, the album
    /// column for the new album's songs.
    pub fn down(&mut self, mode: &BrowserMode) -> (r: Lookup)
        requires
            old(self).well_formed(),
        ensures
            moved_down(*old(self), *final(self), *mode, r),
    {
        match mode {
            BrowserMode::Artist => {
                let i = self.selected_artist.index;
                self.selected_artist.index = if i + 1 < self.selected_artist.len { i + 1 } else { 0 };
                self.update()
            },
            BrowserMode::Album => {
                let i = self.selected_album.index;
                self.selected_album.index = if i + 1 < self.selected_album.len { i + 1 } else { 0 };
                self.update_song()
            },
            BrowserMode::Song => {
                let i = self.selected_song.index;
                self.selected_song.index = if i + 1 < self.selected_song.len { i + 1 } else { 0 };
                Lookup::Nothing
            },
        }
    }

    /// Take the artist at the artist selection's position; its albums are
    /// to be looked up.
    pub fn update(&mut self) -> (r: Lookup)
        requires
            old(self).well_formed(),
        ensures
            final(self).well_formed(),
            final(self).selected_artist.item@ == old(self).artists@[old(self).selected_artist.index as int]@,
            final(self).selected_artist.index == old(self).selected_artist.index,
            final(self).selected_album == old(self).selected_album,
            final(self).selected_song == old(self).selected_song,
            final(self).artists == old(self).artists,
            final(self).albums == old(self).albums,
            final(self).songs == old(self).songs,
            r matches Lookup::Albums(a) && a@ == old(self).artists@[old(self).selected_artist.index as int]@,
    {
        let name = self.artists[self.selected_artist.index].clone();
        self.selected_artist.item = name.clone();
        Lookup::Albums(name)
    }

    /// The selected artist's albums as the album column, at its first
    /// entry; that album's songs are to be looked up.
    pub fn set_albums(&mut self, albums: Vec<String>) -> (r: Lookup)
        requires
            old(self).well_formed(),
            0 < albums.len() <= i32::MAX,
        ensures
            final(self).well_formed(),
            views(final(self).albums@) == views(albums@),
            final(self).selected_album.item@ == albums@[0]@,
            final(self).selected_album.index == 0,
            final(self).selected_artist == old(self).selected_artist,
            final(self).artists == old(self).artists,
            final(self).songs == old(self).songs,
            r matches Lookup::Songs(a, b) && a@ == old(self).selected_artist.item@ && b@ == albums@[0]@,
    {
        self.selected_album = Item::new(albums[0].clone(), 0, albums.len());
        self.albums = albums;
        self.update_song()
    }

    /// Take the album at the album selection's position; its songs are to
    /// be looked up.
    pub fn update_song(&mut self) -> (r: Lookup)
        requires
            old(self).well_formed(),
        ensures
            final(self).well_formed(),
            final(self).selected_album.item@ == old(self).albums@[old(self).selected_album.index as int]@,
            final(self).selected_album.index == old(self).selected_album.index,
            final(self).selected_artist == old(self).selected_artist,
            final(self).selected_song == old(self).selected_song,
            final(self).artists == old(self).artists,
            final(self).albums == old(self).albums,
            final(self).songs == old(self).songs,
            r matches Lookup::Songs(a, b) && a@ == old(self).selected_artist.item@ && b@
                == old(self).albums@[old(self).selected_album.index as int]@,
    {
        let name = self.albums[self.selected_album.index].clone();
        self.selected_album.item = name.clone();
        Lookup::Songs(self.selected_artist.item.clone(), name)
    }

    /// The selected album's songs as the song column, at its first entry.
    pub fn set_songs(&mut self, songs: Vec<String>)
        requires
            old(self).well_formed(),
            0 < songs.len() <= i32::MAX,
        ensures
            final(self).well_formed(),
            views(final(self).songs@) == views(songs@),
            final(self).selected_song.item@ == songs@[0]@,
            final(self).selected_song.index == 0,
            final(self).selected_artist == old(self).selected_artist,
            final(self).selected_album == old(self).selected_album,
            final(self).artists == old(self).artists,
            final(self).albums == old(self).albums,
    {
        self.selected_song = Item::new(songs[0].clone(), 0, songs.len());
        self.songs = songs;
    }
}

} // verus!
