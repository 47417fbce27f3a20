//! Looking songs up in the database for the desktop front end.
use vstd::prelude::*;
use crate::mu_core::db::{Song, SongView, song_views};
use crate::mu_core::vdb::{Database, on_album, album_of};
use crate::text::{views, compare_text, TextOrder};

verus! {

/// Whether `name` is in `names`.
pub fn lists_name(names: &[String], name: &str) -> (r: bool)
    ensures
        r == views(names@).contains(name@),
{
    let ghost vs = views(names@);
    let mut i: usize = 0;
    while i < names.len()
        invariant
            vs == views(names@),
            i <= names.len(),
            forall|j: int| 0 <= j < i ==> vs[j] != name@,
        decreases names.len() - i,
    {
        if compare_text(names[i].as_str(), name) == TextOrder::Same {
            proof {
                assert(vs[i as int] == name@);
            }
            return true;
        }
        i = i + 1;
    }
    false
}

/// Copies of the songs of `songs`, in order.
pub fn copy_songs(songs: &[Song]) -> (r: Vec<Song>)
    ensures
        r@ == songs@,
{
    let mut out: Vec<Song> = Vec::new();
    let mut i: usize = 0;
    while i < songs.len()
        invariant
            i <= songs.len(),
            out@ == songs@.take(i as int),
        decreases songs.len() - i,
    {
        out.push(songs[i].duplicate());
        proof {
            assert(songs@.take(i + 1) =~= songs@.take(i as int).push(songs@[i as int]));
        }
        i = i + 1;
    }
    proof {
        assert(songs@.take(songs.len() as int) =~= songs@);
    }
    out
}

/// Whether a song is the one with the given place on the given album.
pub open spec fn is_track(x: SongView, artist: Seq<char>, album: Seq<char>, disc: u8, num: u8) -> bool {
    on_album(x, artist, album) && x.disc_number == disc && x.track_number == num
}

/// The song of `album` by `artist` with disc number `disc` and track number
/// `num`: the first such in the database; none unless `artists` lists the
/// artist.
pub fn find_song(db: &Database, artists: &[String], artist: &str, album: &str, disc: u8, num: u8) -> (r: Option<
    Song,
>)
    requires
        db.well_formed(),
    ensures
        !views(artists@).contains(artist@) ==> r is None,
        views(artists@).contains(artist@) ==> match r {
            Some(x) => exists|i: int|
                0 <= i < db.songs.len() && x == db.songs@[i] && is_track(#[trigger] db.song_list()[i], artist@, album@, disc, num)
                    && forall|j: int| 0 <= j < i ==> !is_track(#[trigger] db.song_list()[j], artist@, album@, disc, num),
            None => forall|i: int| 0 <= i < db.songs.len() ==> !is_track(#[trigger] db.song_list()[i], artist@, album@, disc, num),
        },
{
    if !lists_name(artists, artist) {
        return None;
    }
    let ghost s = db.song_list();
    match db.get_album_songs(artist, album) {
        None => None,
        Some(songs) => {
            let ghost (lo, hi) = choose|lo: int, hi: int|
                0 <= lo < hi <= db.songs.len() && songs@ == db.songs@.subrange(lo, hi) && forall|i: int|
                    0 <= i < db.songs.len() ==> ((lo <= i < hi) <==> on_album(#[trigger] db.song_list()[i], artist@, album@));
            let mut k: usize = 0;
            while k < songs.len()
                invariant
                    views(artists@).contains(artist@),
                    0 <= lo < hi <= db.songs.len(),
                    s == db.song_list(),
                    songs@ == db.songs@.subrange(lo, hi),
                    forall|i: int| 0 <= i < db.songs.len() ==> ((lo <= i < hi) <==> on_album(#[trigger] s[i], artist@, album@)),
                    k <= songs.len(),
                    forall|j: int| 0 <= j < lo + k ==> !is_track(#[trigger] s[j], artist@, album@, disc, num),
                decreases songs.len() - k,
            {
                proof {
                    assert(songs@[k as int] == db.songs@[lo + k]);
                    assert(s[lo + k] == db.songs@[lo + k]@);
                }
                if songs[k].disc_number == disc && songs[k].track_number == num {
                    proof {
                        assert(on_album(s[lo + k], artist@, album@));
                    }
                    return Some(songs[k].duplicate());
                }
                k = k + 1;
            }
            proof {
                assert forall|i: int| 0 <= i < db.songs.len() implies !is_track(#[trigger] s[i], artist@, album@, disc, num) by {
                    if i >= hi {
                        assert(!on_album(s[i], artist@, album@));
                    }
                }
            }
            None
        },
    }
}

/// The songs of `album` by `artist`, in database order; none unless
/// `artists` lists the artist.
pub fn album_songs(db: &Database, artists: &[String], artist: &str, album: &str) -> (r: Vec<Song>)
    requires
        db.well_formed(),
    ensures
        !views(artists@).contains(artist@) ==> r@.len() == 0,
        views(artists@).contains(artist@) ==> song_views(r@) == db.song_list().filter(album_of(artist@, album@)),
{
    if !lists_name(artists, artist) {
        return Vec::new();
    }
    match db.get_album_songs(artist, album) {
        Some(songs) => copy_songs(songs),
        None => Vec::new(),
    }
}

} // verus!
