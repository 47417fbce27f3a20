//! What the search screen ranks: with no query, the library's first songs;
//! otherwise every artist, album and song as a candidate with the text it
//! is scored by, in library order, and how hits with equal scores are
//! ordered. The scores themselves are floating point and computed by the
//! caller.
use vstd::prelude::*;
use crate::mu_core::db::Song;
use crate::mu_core::db::song_views;
use crate::mu_core::vdb::{AlbumEntry, ArtistEntry, Database, Item, rank_of, album_entry_ok, artist_entry_ok, lemma_song_in_album, lemma_album_in_artist};

verus! {

/// The most hits a search shows.
pub const SEARCH_LIMIT: usize = 25;

/// The hit for a song.
pub open spec fn song_item_of(s: Song) -> Item {
    Item::Song((s.artist, s.album, s.title, s.disc_number, s.track_number))
}

pub fn song_item(s: &Song) -> (r: Item)
    ensures
        r == song_item_of(*s),
{
    Item::Song((s.artist.clone(), s.album.clone(), s.title.clone(), s.disc_number, s.track_number))
}

/// The hits for an empty query: the first songs of the library, at most
/// `SEARCH_LIMIT` of them.
pub open spec fn opening_hits(songs: Seq<Song>) -> Seq<Item> {
    let n = if songs.len() < SEARCH_LIMIT { songs.len() as int } else { SEARCH_LIMIT as int };
    songs.take(n).map_values(|s: Song| song_item_of(s))
}

pub fn opening_results(db: &Database) -> (r: Vec<Item>)
    ensures
        r@ == opening_hits(db.songs@),
{
    let n = if db.songs.len() < SEARCH_LIMIT {
        db.songs.len()
    } else {
        SEARCH_LIMIT
    };
    let mut out: Vec<Item> = Vec::new();
    let mut i: usize = 0;
    while i < n
        invariant
            i <= n <= db.songs.len(),
            n == if db.songs@.len() < SEARCH_LIMIT { db.songs@.len() as int } else { SEARCH_LIMIT as int },
            out@ =~= db.songs@.take(i as int).map_values(|s: Song| song_item_of(s)),
        decreases n - i,
    {
        out.push(song_item(&db.songs[i]));
        proof {
            assert(db.songs@.take(i + 1).map_values(|s: Song| song_item_of(s)) =~= db.songs@.take(
                i as int,
            ).map_values(|s: Song| song_item_of(s)).push(song_item_of(db.songs@[i as int])));
        }
        i = i + 1;
    }
    out
}

/// Whether every album entry names songs of the database and every artist
/// entry names album entries of it.
pub open spec fn groups_within(db: &Database) -> bool {
    &&& forall|k: int| 0 <= k < db.albums@.len() ==> (#[trigger] db.albums@[k]).songs.start <= db.albums@[k].songs.end
        <= db.songs@.len()
    &&& forall|j: int| 0 <= j < db.artists@.len() ==> (#[trigger] db.artists@[j]).albums.start
        <= db.artists@[j].albums.end <= db.albums@.len()
}

/// Songs as candidates, each scored by its title.
pub open spec fn songs_candidates(songs: Seq<Song>) -> Seq<(Item, String)> {
    songs.map_values(|s: Song| (song_item_of(s), s.title))
}

/// An album as a candidate, scored by its title, then its songs.
pub open spec fn album_candidates(songs: Seq<Song>, artist: String, a: AlbumEntry) -> Seq<(Item, String)> {
    seq![(Item::Album((artist, a.title)), a.title)] + songs_candidates(
        songs.subrange(a.songs.start as int, a.songs.end as int),
    )
}

/// Album entries `lo..hi` of an artist as candidates, in order.
pub open spec fn albums_candidates(songs: Seq<Song>, albums: Seq<AlbumEntry>, artist: String, lo: int, hi: int) -> Seq<
    (Item, String),
>
    decreases hi - lo,
{
    if hi <= lo {
        Seq::empty()
    } else {
        albums_candidates(songs, albums, artist, lo, hi - 1) + album_candidates(songs, artist, albums[hi - 1])
    }
}

/// An artist as a candidate, scored by its name, then its albums.
pub open spec fn artist_candidates(songs: Seq<Song>, albums: Seq<AlbumEntry>, e: ArtistEntry) -> Seq<(Item, String)> {
    seq![(Item::Artist(e.name), e.name)] + albums_candidates(
        songs,
        albums,
        e.name,
        e.albums.start as int,
        e.albums.end as int,
    )
}

/// Every artist, album and song as a candidate, in library order.
pub open spec fn all_candidates(songs: Seq<Song>, albums: Seq<AlbumEntry>, artists: Seq<ArtistEntry>) -> Seq<
    (Item, String),
>
    decreases artists.len(),
{
    if artists.len() == 0 {
        Seq::empty()
    } else {
        all_candidates(songs, albums, artists.drop_last()) + artist_candidates(songs, albums, artists.last())
    }
}

/// The candidates of a search, each with the text it is scored by.
pub fn search_candidates(db: &Database) -> (r: Vec<(Item, String)>)
    requires
        groups_within(db),
    ensures
        r@ == all_candidates(db.songs@, db.albums@, db.artists@),
{
    let ghost songs = db.songs@;
    let ghost albums = db.albums@;
    let ghost artists = db.artists@;
    let mut out: Vec<(Item, String)> = Vec::new();
    let mut j: usize = 0;
    while j < db.artists.len()
        invariant
            j <= db.artists.len(),
            groups_within(db),
            songs == db.songs@ && albums == db.albums@ && artists == db.artists@,
            out@ == all_candidates(songs, albums, artists.take(j as int)),
        decreases db.artists.len() - j,
    {
        let e = &db.artists[j];
        proof {
            assert(artists[j as int].albums.start <= artists[j as int].albums.end <= albums.len());
        }
        let ghost before = out@;
        out.push((Item::Artist(e.name.clone()), e.name.clone()));
        let mut k = e.albums.start;
        while k < e.albums.end
            invariant
                e.albums.start <= k <= e.albums.end <= db.albums.len(),
                groups_within(db),
                songs == db.songs@ && albums == db.albums@,
                out@ == before + seq![(Item::Artist(e.name), e.name)] + albums_candidates(
                    songs,
                    albums,
                    e.name,
                    e.albums.start as int,
                    k as int,
                ),
            decreases e.albums.end - k,
        {
            let a = &db.albums[k];
            proof {
                assert(albums[k as int].songs.start <= albums[k as int].songs.end <= songs.len());
            }
            let ghost mid = out@;
            out.push((Item::Album((e.name.clone(), a.title.clone())), a.title.clone()));
            let mut i = a.songs.start;
            while i < a.songs.end
                invariant
                    a.songs.start <= i <= a.songs.end <= db.songs.len(),
                    songs == db.songs@,
                    out@ == mid + seq![(Item::Album((e.name, a.title)), a.title)] + songs_candidates(
                        songs.subrange(a.songs.start as int, i as int),
                    ),
                decreases a.songs.end - i,
            {
                out.push((song_item(&db.songs[i]), db.songs[i].title.clone()));
                proof {
                    assert(songs.subrange(a.songs.start as int, i + 1) =~= songs.subrange(
                        a.songs.start as int,
                        i as int,
                    ).push(songs[i as int]));
                    assert(songs_candidates(songs.subrange(a.songs.start as int, i + 1)) =~= songs_candidates(
                        songs.subrange(a.songs.start as int, i as int),
                    ).push((song_item_of(songs[i as int]), songs[i as int].title)));
                }
                i = i + 1;
            }
            proof {
                assert(out@ =~= mid + album_candidates(songs, e.name, albums[k as int]));
                assert(albums_candidates(songs, albums, e.name, e.albums.start as int, k + 1) == albums_candidates(
                    songs,
                    albums,
                    e.name,
                    e.albums.start as int,
                    k as int,
                ) + album_candidates(songs, e.name, albums[k as int]));
            }
            k = k + 1;
        }
        proof {
            let t = artists.take(j + 1);
            assert(t.drop_last() =~= artists.take(j as int));
            assert(t.last() == artists[j as int]);
            assert(out@ =~= before + artist_candidates(songs, albums, artists[j as int]));
        }
        j = j + 1;
    }
    proof {
        assert(artists.take(artists.len() as int) =~= artists);
    }
    out
}

/// An element of either part of a concatenation is an element of the whole.
proof fn lemma_contains_concat<A>(x: Seq<A>, y: Seq<A>, e: A)
    ensures
        x.contains(e) ==> (x + y).contains(e),
        y.contains(e) ==> (x + y).contains(e),
{
    if x.contains(e) {
        let i = choose|i: int| 0 <= i < x.len() && x[i] == e;
        assert((x + y)[i] == e);
    }
    if y.contains(e) {
        let i = choose|i: int| 0 <= i < y.len() && y[i] == e;
        assert((x + y)[x.len() + i] == e);
    }
}

/// Album entries `lo..hi` that follow one another over the songs give one
/// candidate per album plus one per song they cover.
proof fn lemma_albums_candidates_len(songs: Seq<Song>, albums: Seq<AlbumEntry>, artist: String, lo: int, hi: int)
    requires
        0 <= lo <= hi <= albums.len(),
        forall|k: int| lo <= k < hi ==> (#[trigger] albums[k]).songs.start <= albums[k].songs.end <= songs.len(),
        forall|k: int| lo <= k && k + 1 < hi ==> (#[trigger] albums[k]).songs.end == albums[k + 1].songs.start,
    ensures
        albums_candidates(songs, albums, artist, lo, hi).len() == (hi - lo) + if hi > lo {
            albums[hi - 1].songs.end - albums[lo].songs.start
        } else {
            0
        },
    decreases hi - lo,
{
    if hi > lo {
        lemma_albums_candidates_len(songs, albums, artist, lo, hi - 1);
        if hi - 1 > lo {
            assert(albums[hi - 2].songs.end == albums[hi - 1].songs.start);
        }
    }
}

/// The song at position `i` of album entry `k` is a candidate of any run
/// of album entries that holds `k`.
proof fn lemma_song_in_albums_candidates(
    songs: Seq<Song>,
    albums: Seq<AlbumEntry>,
    artist: String,
    lo: int,
    hi: int,
    k: int,
    i: int,
)
    requires
        lo <= k < hi <= albums.len(),
        albums[k].songs.start <= i < albums[k].songs.end <= songs.len(),
    ensures
        albums_candidates(songs, albums, artist, lo, hi).contains((song_item_of(songs[i]), songs[i].title)),
    decreases hi - lo,
{
    let c = (song_item_of(songs[i]), songs[i].title);
    let prev = albums_candidates(songs, albums, artist, lo, hi - 1);
    let last = album_candidates(songs, artist, albums[hi - 1]);
    if k == hi - 1 {
        let a = albums[k];
        let part = songs_candidates(songs.subrange(a.songs.start as int, a.songs.end as int));
        assert(part[i - a.songs.start] == c);
        lemma_contains_concat(seq![(Item::Album((artist, a.title)), a.title)], part, c);
        lemma_contains_concat(prev, last, c);
    } else {
        lemma_song_in_albums_candidates(songs, albums, artist, lo, hi - 1, k, i);
        lemma_contains_concat(prev, last, c);
    }
}

/// Album entry `k` is a candidate, under its artist's name, of any run of
/// album entries that holds it.
proof fn lemma_album_in_albums_candidates(songs: Seq<Song>, albums: Seq<AlbumEntry>, artist: String, lo: int, hi: int, k: int)
    requires
        lo <= k < hi <= albums.len(),
    ensures
        albums_candidates(songs, albums, artist, lo, hi).contains(
            (Item::Album((artist, albums[k].title)), albums[k].title),
        ),
    decreases hi - lo,
{
    let c = (Item::Album((artist, albums[k].title)), albums[k].title);
    let prev = albums_candidates(songs, albums, artist, lo, hi - 1);
    let last = album_candidates(songs, artist, albums[hi - 1]);
    if k == hi - 1 {
        assert(last[0] == c);
    } else {
        lemma_album_in_albums_candidates(songs, albums, artist, lo, hi - 1, k);
    }
    lemma_contains_concat(prev, last, c);
}

/// What is a candidate of one artist is a candidate of any list of artists
/// that holds that artist.
proof fn lemma_in_artist_is_in_all(
    songs: Seq<Song>,
    albums: Seq<AlbumEntry>,
    artists: Seq<ArtistEntry>,
    j: int,
    c: (Item, String),
)
    requires
        0 <= j < artists.len(),
        artist_candidates(songs, albums, artists[j]).contains(c),
    ensures
        all_candidates(songs, albums, artists).contains(c),
    decreases artists.len(),
{
    let prev = all_candidates(songs, albums, artists.drop_last());
    let last = artist_candidates(songs, albums, artists.last());
    if j < artists.len() - 1 {
        assert(artists.drop_last()[j] == artists[j]);
        lemma_in_artist_is_in_all(songs, albums, artists.drop_last(), j, c);
    }
    lemma_contains_concat(prev, last, c);
}

/// A search considers every artist, album and song of the library, each
/// once: one candidate per artist, album and song; every artist is a
/// candidate scored by its name; every song is a
/// candidate scored by its own title; every album is a candidate, under
/// the name of the artist it belongs to, scored by its title.
pub proof fn lemma_candidates_cover_library(db: &Database)
    requires
        db.well_formed(),
    ensures
        all_candidates(db.songs@, db.albums@, db.artists@).len() == db.artists@.len() + db.albums@.len()
            + db.songs@.len(),
        forall|i: int|
            0 <= i < db.songs@.len() ==> all_candidates(db.songs@, db.albums@, db.artists@).contains(
                (song_item_of(#[trigger] db.songs@[i]), db.songs@[i].title),
            ),
        forall|j: int|
            0 <= j < db.artists@.len() ==> all_candidates(db.songs@, db.albums@, db.artists@).contains(
                (Item::Artist((#[trigger] db.artists@[j]).name), db.artists@[j].name),
            ),
        forall|j: int, k: int|
            0 <= j < db.artists@.len() && db.artists@[j].albums.start <= k < db.artists@[j].albums.end
                ==> all_candidates(db.songs@, db.albums@, db.artists@).contains(
                (Item::Album(((#[trigger] db.artists@[j]).name, (#[trigger] db.albums@[k]).title)), db.albums@[k].title),
            ),
{
    let songs = db.songs@;
    let albums = db.albums@;
    let artists = db.artists@;
    let sv = db.song_list();
    assert(sv.len() == songs.len());
    assert forall|k: int| 0 <= k < albums.len() implies (#[trigger] albums[k]).songs.start < albums[k].songs.end
        <= songs.len() by {
        assert(album_entry_ok(sv, albums[k]));
    }
    assert forall|j: int| 0 <= j < artists.len() implies (#[trigger] artists[j]).albums.start < artists[j].albums.end
        <= albums.len() by {
        assert(artist_entry_ok(sv, albums, artists[j]));
    }
    // Count, artist by artist.
    assert forall|j: int| 0 <= j <= artists.len() implies #[trigger] all_candidates(songs, albums, artists.take(j)).len()
        == j + if j > 0 {
        artists[j - 1].albums.end + albums[artists[j - 1].albums.end - 1].songs.end
    } else {
        0
    } by {
        lemma_count_upto(db, j);
    }
    assert(artists.take(artists.len() as int) =~= artists);
    if artists.len() == 0 {
        assert(albums.len() == 0);
        assert(songs.len() == 0);
    } else {
        assert(artists.last().albums.end == albums.len());
        assert(albums.last().songs.end == songs.len());
    }
    // Every song.
    assert forall|i: int| 0 <= i < songs.len() implies all_candidates(songs, albums, artists).contains(
        (song_item_of(#[trigger] songs[i]), songs[i].title),
    ) by {
        let k = lemma_song_in_album(sv, albums, i);
        let j = lemma_album_in_artist(sv, albums, artists, k);
        let e = artists[j];
        let c = (song_item_of(songs[i]), songs[i].title);
        lemma_song_in_albums_candidates(songs, albums, e.name, e.albums.start as int, e.albums.end as int, k, i);
        lemma_contains_concat(seq![(Item::Artist(e.name), e.name)], albums_candidates(songs, albums, e.name, e.albums.start as int, e.albums.end as int), c);
        lemma_in_artist_is_in_all(songs, albums, artists, j, c);
    }
    // Every artist, scored by its name.
    assert forall|j: int| 0 <= j < artists.len() implies all_candidates(songs, albums, artists).contains(
        (Item::Artist((#[trigger] artists[j]).name), artists[j].name),
    ) by {
        let e = artists[j];
        let c = (Item::Artist(e.name), e.name);
        assert(artist_candidates(songs, albums, e)[0] == c);
        lemma_in_artist_is_in_all(songs, albums, artists, j, c);
    }
    // Every album, under the name of the artist it belongs to.
    assert forall|j: int, k: int|
        0 <= j < artists.len() && artists[j].albums.start <= k < artists[j].albums.end implies all_candidates(
        songs,
        albums,
        artists,
    ).contains((Item::Album(((#[trigger] artists[j]).name, (#[trigger] albums[k]).title)), albums[k].title)) by {
        let e = artists[j];
        let c = (Item::Album((e.name, albums[k].title)), albums[k].title);
        lemma_album_in_albums_candidates(songs, albums, e.name, e.albums.start as int, e.albums.end as int, k);
        lemma_contains_concat(seq![(Item::Artist(e.name), e.name)], albums_candidates(songs, albums, e.name, e.albums.start as int, e.albums.end as int), c);
        lemma_in_artist_is_in_all(songs, albums, artists, j, c);
    }
}

/// The candidates of the first `j` artists: one per artist, per album and
/// per song up to where the `j`-th artist's albums end.
proof fn lemma_count_upto(db: &Database, j: int)
    requires
        db.well_formed(),
        0 <= j <= db.artists@.len(),
    ensures
        all_candidates(db.songs@, db.albums@, db.artists@.take(j)).len() == j + if j > 0 {
            db.artists@[j - 1].albums.end + db.albums@[db.artists@[j - 1].albums.end - 1].songs.end
        } else {
            0
        },
    decreases j,
{
    let songs = db.songs@;
    let albums = db.albums@;
    let artists = db.artists@;
    let sv = db.song_list();
    if j > 0 {
        lemma_count_upto(db, j - 1);
        let t = artists.take(j);
        assert(t.drop_last() =~= artists.take(j - 1));
        assert(t.last() == artists[j - 1]);
        let e = artists[j - 1];
        assert(artist_entry_ok(sv, albums, e));
        let lo = e.albums.start as int;
        let hi = e.albums.end as int;
        assert forall|k: int| lo <= k < hi implies (#[trigger] albums[k]).songs.start <= albums[k].songs.end
            <= songs.len() by {
            assert(album_entry_ok(sv, albums[k]));
        }
        assert forall|k: int| lo <= k && k + 1 < hi implies (#[trigger] albums[k]).songs.end
            == albums[k + 1].songs.start by {
            assert(albums[k].songs.end == albums[k + 1].songs.start);
        }
        lemma_albums_candidates_len(songs, albums, e.name, lo, hi);
        if j == 1 {
            assert(artists[0].albums.start == 0);
            assert(albums[0].songs.start == 0);
        } else {
            assert(artists[j - 2].albums.end == artists[j - 1].albums.start);
            assert(albums[lo - 1].songs.end == albums[lo].songs.start);
        }
    }
}

/// Whether hit `a` goes before hit `b` when their scores are equal:
/// artists before albums before songs, and songs by disc, then track.
pub open spec fn tie_precedes(a: Item, b: Item) -> bool {
    ||| rank_of(a) < rank_of(b)
    ||| match (a, b) {
        (Item::Song((_, _, _, da, na)), Item::Song((_, _, _, db, nb))) => da < db || (da == db && na < nb),
        _ => false,
    }
}

/// The order of hits with equal scores is a strict order: no hit goes
/// before itself, two hits are never each before the other, and it chains.
pub proof fn lemma_tie_order(a: Item, b: Item, c: Item)
    ensures
        !tie_precedes(a, a),
        tie_precedes(a, b) ==> !tie_precedes(b, a),
        tie_precedes(a, b) && tie_precedes(b, c) ==> tie_precedes(a, c),
{
}

pub fn tie_before(a: &Item, b: &Item) -> (r: bool)
    ensures
        r == tie_precedes(*a, *b),
{
    let ra = crate::mu_core::vdb::item_rank(a);
    let rb = crate::mu_core::vdb::item_rank(b);
    if ra < rb {
        return true;
    }
    match (a, b) {
        (Item::Song((_, _, _, da, na)), Item::Song((_, _, _, db, nb))) => *da < *db || (*da == *db && *na < *nb),
        _ => false,
    }
}

} // verus!
