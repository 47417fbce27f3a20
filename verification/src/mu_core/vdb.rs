//! The in-memory database: songs sorted by artist, album and title, with
//! the album and artist groups they form, and lookups into those groups.
use vstd::prelude::*;
use std::ops::Range;
use vstd::multiset::Multiset;
use crate::mu_core::db::{Song, SongView, song_views, song_from_line, songs_text, song_body, stored_song, gains_clean, joined_bodies, lemma_songs_text_joined, lemma_split_joined, lemma_song_body_round_trip, lemma_song_body_digit_end};
use crate::text::{views, text_lines, strip_cr, split_on, lines_of, text_lt, compare_text, TextOrder, lemma_text_lt_irreflexive, lemma_text_lt_total, lemma_text_lt_transitive};

verus! {

broadcast use vstd::seq_lib::group_to_multiset_ensures, vstd::seq_lib::to_multiset_insert,
    vstd::multiset::group_multiset_axioms, vstd::multiset::lemma_multiset_empty_len;

/// A search hit.
#[derive(Debug)]
pub enum Item {
    /// (artist, album, title, disc number, track number)
    Song((String, String, String, u8, u8)),
    /// (artist, album)
    Album((String, String)),
    /// artist
    Artist(String),
}

/// The rank of a kind of search hit when scores tie: artists first, then
/// albums, then songs.
pub open spec fn rank_of(item: Item) -> u8 {
    match item {
        Item::Artist(_) => 0,
        Item::Album(_) => 1,
        Item::Song(_) => 2,
    }
}

/// The rank of a search hit when scores tie.
pub fn item_rank(item: &Item) -> (r: u8)
    ensures
        r == rank_of(*item),
{
    match item {
        Item::Artist(_) => 0,
        Item::Album(_) => 1,
        Item::Song(_) => 2,
    }
}

/// An artist and the positions of its albums in `Database::albums`.
#[derive(Debug)]
pub struct ArtistEntry {
    pub name: String,
    pub albums: Range<usize>,
}

/// An album and the positions of its songs in `Database::songs`.
#[derive(Debug)]
pub struct AlbumEntry {
    pub title: String,
    pub songs: Range<usize>,
}

/// Whether song `x` sorts before song `y`: by artist, then album, then
/// title.
pub open spec fn song_before(x: SongView, y: SongView) -> bool {
    ||| text_lt(x.artist, y.artist)
    ||| x.artist == y.artist && text_lt(x.album, y.album)
    ||| x.artist == y.artist && x.album == y.album && text_lt(x.title, y.title)
}

/// Whether two songs have the same sort key.
pub open spec fn same_key(x: SongView, y: SongView) -> bool {
    x.artist == y.artist && x.album == y.album && x.title == y.title
}

/// Whether a list of songs is in database order.
pub open spec fn songs_sorted(s: Seq<SongView>) -> bool {
    forall|i: int, j: int| 0 <= i < j < s.len() ==> !song_before(#[trigger] s[j], #[trigger] s[i])
}

/// The order of songs is a strict weak order: irreflexive, transitive, and
/// two songs neither of which comes first have the same key.
pub proof fn lemma_song_order(x: SongView, y: SongView, z: SongView)
    ensures
        !song_before(x, x),
        song_before(x, y) ==> !song_before(y, x),
        song_before(x, y) && song_before(y, z) ==> song_before(x, z),
        !song_before(x, y) && !song_before(y, x) ==> same_key(x, y),
        same_key(x, y) ==> (song_before(x, z) == song_before(y, z)),
        same_key(x, y) ==> (song_before(z, x) == song_before(z, y)),
{
    lemma_text_lt_irreflexive(x.artist);
    lemma_text_lt_irreflexive(x.album);
    lemma_text_lt_irreflexive(x.title);
    lemma_text_lt_total(x.artist, y.artist);
    lemma_text_lt_total(x.album, y.album);
    lemma_text_lt_total(x.title, y.title);
    if text_lt(x.artist, y.artist) && text_lt(y.artist, z.artist) {
        lemma_text_lt_transitive(x.artist, y.artist, z.artist);
    }
    if text_lt(x.album, y.album) && text_lt(y.album, z.album) {
        lemma_text_lt_transitive(x.album, y.album, z.album);
    }
    if text_lt(x.title, y.title) && text_lt(y.title, z.title) {
        lemma_text_lt_transitive(x.title, y.title, z.title);
    }
}

/// Whether song `x` sorts before song `y`.
pub fn song_precedes(x: &Song, y: &Song) -> (r: bool)
    ensures
        r == song_before(x@, y@),
{
    match compare_text(x.artist.as_str(), y.artist.as_str()) {
        TextOrder::Before => true,
        TextOrder::After => {
            proof {
                lemma_text_lt_total(x.artist@, y.artist@);
            }
            false
        },
        TextOrder::Same => match compare_text(x.album.as_str(), y.album.as_str()) {
            TextOrder::Before => true,
            TextOrder::After => {
                proof {
                    lemma_text_lt_total(x.album@, y.album@);
                    lemma_text_lt_irreflexive(x.artist@);
                }
                false
            },
            TextOrder::Same => {
                proof {
                    lemma_text_lt_irreflexive(x.artist@);
                    lemma_text_lt_irreflexive(x.album@);
                }
                compare_text(x.title.as_str(), y.title.as_str()) == TextOrder::Before
            },
        },
    }
}

/// The first position of sorted `out` whose song comes after `s`: where
/// `s` goes so that the list stays sorted.
fn insert_position(out: &Vec<Song>, s: &Song) -> (p: usize)
    requires
        songs_sorted(song_views(out@)),
    ensures
        p <= out.len(),
        forall|q: int| 0 <= q < p ==> !song_before(s@, #[trigger] out@[q]@),
        forall|q: int| p <= q < out.len() ==> song_before(s@, #[trigger] out@[q]@),
{
    let ghost v = song_views(out@);
    let mut lo: usize = 0;
    let mut hi: usize = out.len();
    while lo < hi
        invariant
            v == song_views(out@),
            songs_sorted(v),
            lo <= hi <= out.len(),
            forall|q: int| 0 <= q < lo ==> !song_before(s@, #[trigger] out@[q]@),
            forall|q: int| hi <= q < out.len() ==> song_before(s@, #[trigger] out@[q]@),
        decreases hi - lo,
    {
        let mid = lo + (hi - lo) / 2;
        if song_precedes(s, &out[mid]) {
            proof {
                assert forall|q: int| mid <= q < out.len() implies song_before(s@, #[trigger] out@[q]@) by {
                    if q > mid {
                        assert(v[mid as int] == out@[mid as int]@);
                        assert(v[q] == out@[q]@);
                        assert(!song_before(v[q], v[mid as int]));
                        lemma_song_order(out@[mid as int]@, out@[q]@, s@);
                        lemma_song_order(s@, out@[mid as int]@, out@[q]@);
                    }
                }
            }
            hi = mid;
        } else {
            proof {
                assert forall|q: int| 0 <= q <= mid implies !song_before(s@, #[trigger] out@[q]@) by {
                    if q < mid {
                        assert(v[mid as int] == out@[mid as int]@);
                        assert(v[q] == out@[q]@);
                        assert(!song_before(v[mid as int], v[q]));
                        lemma_song_order(out@[q]@, out@[mid as int]@, s@);
                        lemma_song_order(s@, out@[q]@, out@[mid as int]@);
                    }
                }
            }
            lo = mid + 1;
        }
    }
    lo
}

/// The songs in database order: by artist, then album, then title. Songs
/// with the same key may come in any order.
pub fn sort_songs(songs: Vec<Song>) -> (r: Vec<Song>)
    ensures
        song_views(r@).to_multiset() == song_views(songs@).to_multiset(),
        songs_sorted(song_views(r@)),
{
    let mut input = songs;
    let mut out: Vec<Song> = Vec::new();
    proof {
        assert(song_views(out@) =~= Seq::<SongView>::empty());
    }
    while input.len() > 0
        invariant
            song_views(out@).to_multiset().add(song_views(input@).to_multiset())
                == song_views(songs@).to_multiset(),
            songs_sorted(song_views(out@)),
        decreases input.len(),
    {
        let ghost in_before = input@;
        let ghost out_before = out@;
        let s = input.pop().unwrap();
        proof {
            assert(song_views(in_before) =~= song_views(input@).push(s@));
        }
        let p = insert_position(&out, &s);
        out.insert(p, s);
        proof {
            let ov = song_views(out_before);
            assert(song_views(out@) =~= ov.insert(p as int, s@));
            let nv = song_views(out@);
            assert forall|i: int, j: int| 0 <= i < j < nv.len() implies !song_before(#[trigger] nv[j], #[trigger] nv[i]) by {
                if j < p {
                    assert(nv[i] == ov[i] && nv[j] == ov[j]);
                } else if j == p {
                    assert(nv[i] == out_before[i]@);
                } else if i == p {
                    assert(nv[j] == out_before[j - 1]@);
                    lemma_song_order(s@, nv[j], s@);
                } else if i < p {
                    assert(nv[i] == ov[i] && nv[j] == ov[j - 1]);
                } else {
                    assert(nv[i] == ov[i - 1] && nv[j] == ov[j - 1]);
                }
            }
        }
    }
    proof {
        assert(song_views(input@) =~= Seq::<SongView>::empty());
        assert(song_views(input@).to_multiset() =~= Multiset::<SongView>::empty());
    }
    out
}

/// Whether two songs belong to one album group: same artist, same album.
pub open spec fn same_album(x: SongView, y: SongView) -> bool {
    x.artist == y.artist && x.album == y.album
}

/// Whether a new album group starts at position `i` of `s`.
pub open spec fn album_starts_at(s: Seq<SongView>, i: int) -> bool {
    i == 0 || !same_album(s[i], s[i - 1])
}

/// Whether a new artist group starts at position `i` of `s`.
pub open spec fn artist_starts_at(s: Seq<SongView>, i: int) -> bool {
    i == 0 || s[i].artist != s[i - 1].artist
}

/// Whether positions `start..end` of `s` hold songs of one album, beginning
/// where a new album group begins.
pub open spec fn album_run(s: Seq<SongView>, start: int, end: int) -> bool {
    &&& 0 <= start < end <= s.len()
    &&& album_starts_at(s, start)
    &&& forall|q: int| start <= q < end ==> same_album(#[trigger] s[q], s[start])
}

/// Whether an album entry names a run of songs of one album by its title.
pub open spec fn album_entry_ok(s: Seq<SongView>, e: AlbumEntry) -> bool {
    &&& album_run(s, e.songs.start as int, e.songs.end as int)
    &&& e.title@ == s[e.songs.start as int].album
}

/// The artist of the songs of an album entry.
pub open spec fn album_artist(s: Seq<SongView>, e: AlbumEntry) -> Seq<char> {
    s[e.songs.start as int].artist
}

/// Whether the album entries `a` split positions `0..end` of `s`, in order,
/// into runs of one album each, every run as long as it can be.
pub open spec fn albums_cover(s: Seq<SongView>, a: Seq<AlbumEntry>, end: int) -> bool {
    &&& a.len() == 0 ==> end == 0
    &&& a.len() > 0 ==> a[0].songs.start == 0 && a.last().songs.end == end
    &&& forall|k: int| 0 <= k < a.len() ==> album_entry_ok(s, #[trigger] a[k])
    &&& forall|k1: int, k2: int|
        0 <= k1 && k2 == k1 + 1 && k2 < a.len() ==> (#[trigger] a[k1]).songs.end == (#[trigger] a[k2]).songs.start
}

/// Whether an artist entry names a run of album entries of one artist,
/// beginning where a new artist begins, their titles in increasing order.
pub open spec fn artist_entry_ok(s: Seq<SongView>, a: Seq<AlbumEntry>, e: ArtistEntry) -> bool {
    &&& e.albums.start < e.albums.end <= a.len()
    &&& artist_starts_at(s, a[e.albums.start as int].songs.start as int)
    &&& forall|k: int| e.albums.start <= k < e.albums.end ==> album_artist(s, #[trigger] a[k]) == e.name@
    &&& forall|k1: int, k2: int|
        e.albums.start <= k1 < k2 < e.albums.end ==> text_lt(#[trigger] a[k1].title@, #[trigger] a[k2].title@)
}

/// Whether the artist entries `r` split album entries `0..end` of `a`, in
/// order, into runs of one artist each, their names in increasing order.
pub open spec fn artists_cover(s: Seq<SongView>, a: Seq<AlbumEntry>, r: Seq<ArtistEntry>, end: int) -> bool {
    &&& r.len() == 0 ==> end == 0
    &&& r.len() > 0 ==> r[0].albums.start == 0 && r.last().albums.end == end
    &&& forall|j: int| 0 <= j < r.len() ==> artist_entry_ok(s, a, #[trigger] r[j])
    &&& forall|j1: int, j2: int|
        0 <= j1 && j2 == j1 + 1 && j2 < r.len() ==> (#[trigger] r[j1]).albums.end == (#[trigger] r[j2]).albums.start
    &&& forall|j1: int, j2: int| 0 <= j1 < j2 < r.len() ==> text_lt(#[trigger] r[j1].name@, #[trigger] r[j2].name@)
}

/// The songs, albums and artists of the library.
#[derive(Debug)]
pub struct Database {
    pub songs: Vec<Song>,
    pub albums: Vec<AlbumEntry>,
    pub artists: Vec<ArtistEntry>,
}

impl Database {
    /// The contents of the database's songs.
    pub open spec fn song_list(&self) -> Seq<SongView> {
        song_views(self.songs@)
    }

    /// The songs are in database order, the album entries group them by
    /// artist and album, and the artist entries group the albums by artist.
    pub open spec fn well_formed(&self) -> bool {
        &&& songs_sorted(self.song_list())
        &&& albums_cover(self.song_list(), self.albums@, self.song_list().len() as int)
        &&& artists_cover(self.song_list(), self.albums@, self.artists@, self.albums@.len() as int)
    }
}

/// Appending the entry for a run of one album that starts where the covered
/// part ends extends the cover to the run's end.
proof fn lemma_push_album(s: Seq<SongView>, a: Seq<AlbumEntry>, e: AlbumEntry, start: int, end: int)
    requires
        albums_cover(s, a, start),
        album_run(s, start, end),
        e.songs.start == start,
        e.songs.end == end,
        e.title@ == s[start].album,
    ensures
        albums_cover(s, a.push(e), end),
{
    let b = a.push(e);
    assert forall|k: int| 0 <= k < b.len() implies album_entry_ok(s, #[trigger] b[k]) by {
        if k < a.len() {
            assert(b[k] == a[k]);
        }
    }
    assert forall|k1: int, k2: int| 0 <= k1 && k2 == k1 + 1 && k2 < b.len() implies (#[trigger] b[k1]).songs.end
        == (#[trigger] b[k2]).songs.start by {
        if k2 < a.len() {
            assert(b[k1] == a[k1] && b[k2] == a[k2]);
        } else {
            assert(b[k1] == a.last());
        }
    }
}

/// Artist entries stay valid when album entries are appended after the
/// albums they name.
proof fn lemma_artists_keep(s: Seq<SongView>, a: Seq<AlbumEntry>, b: Seq<AlbumEntry>, r: Seq<ArtistEntry>, end: int)
    requires
        artists_cover(s, a, r, end),
        end <= a.len() <= b.len(),
        a == b.take(a.len() as int),
    ensures
        artists_cover(s, b, r, end),
{
    assert forall|j: int| 0 <= j < r.len() implies artist_entry_ok(s, b, #[trigger] r[j]) by {
        let e = r[j];
        assert(artist_entry_ok(s, a, e));
        if j + 1 < r.len() {
            assert(r[j + 1].albums.start == r[j].albums.end);
            assert(artist_entry_ok(s, a, r[j + 1]));
        } else {
            assert(e == r.last());
        }
        assert(e.albums.end <= a.len());
        assert(a[e.albums.start as int] == b[e.albums.start as int]);
        assert forall|k: int| e.albums.start <= k < e.albums.end implies album_artist(s, #[trigger] b[k]) == e.name@ by {
            assert(a[k] == b[k]);
        }
        assert forall|k1: int, k2: int| e.albums.start <= k1 < k2 < e.albums.end implies text_lt(
            #[trigger] b[k1].title@,
            #[trigger] b[k2].title@,
        ) by {
            assert(a[k1] == b[k1] && a[k2] == b[k2]);
            assert(text_lt(a[k1].title@, a[k2].title@));
        }
    }
}

/// Sorted songs that are not in one album group: the later one's group
/// comes after, by artist or, for the same artist, by album.
proof fn lemma_group_step(s: Seq<SongView>, i: int)
    requires
        songs_sorted(s),
        0 < i < s.len(),
    ensures
        s[i - 1].artist != s[i].artist ==> text_lt(s[i - 1].artist, s[i].artist),
        s[i - 1].artist == s[i].artist && s[i - 1].album != s[i].album ==> text_lt(s[i - 1].album, s[i].album),
{
    assert(!song_before(s[i], s[i - 1]));
    lemma_text_lt_total(s[i - 1].artist, s[i].artist);
    lemma_text_lt_total(s[i - 1].album, s[i].album);
}

/// The album entries `first..` of `a` belong to one artist and have
/// increasing titles that all come before `album`.
pub open spec fn open_albums(s: Seq<SongView>, a: Seq<AlbumEntry>, first: int, artist: Seq<char>, album: Seq<char>) -> bool {
    &&& forall|k: int| first <= k < a.len() ==> album_artist(s, #[trigger] a[k]) == artist
    &&& forall|k1: int, k2: int| first <= k1 < k2 < a.len() ==> text_lt(#[trigger] a[k1].title@, #[trigger] a[k2].title@)
    &&& forall|k: int| first <= k < a.len() ==> text_lt(#[trigger] a[k].title@, album)
}

/// Appending the entry of the open album keeps the open albums of one
/// artist with increasing titles.
proof fn lemma_open_albums_push(
    s: Seq<SongView>,
    a: Seq<AlbumEntry>,
    e: AlbumEntry,
    first: int,
    artist: Seq<char>,
    album: Seq<char>,
)
    requires
        0 <= first <= a.len(),
        open_albums(s, a, first, artist, album),
        album_artist(s, e) == artist,
        e.title@ == album,
    ensures
        forall|k: int| first <= k < a.len() + 1 ==> album_artist(s, #[trigger] a.push(e)[k]) == artist,
        forall|k1: int, k2: int| first <= k1 < k2 < a.len() + 1 ==> text_lt(#[trigger] a.push(e)[k1].title@, #[trigger] a.push(e)[k2].title@),
        forall|next: Seq<char>| text_lt(album, next) ==> open_albums(s, a.push(e), first, artist, next),
{
    let b = a.push(e);
    assert forall|k: int| first <= k < b.len() implies album_artist(s, #[trigger] b[k]) == artist by {
        if k < a.len() {
            assert(b[k] == a[k]);
        }
    }
    assert forall|k1: int, k2: int| first <= k1 < k2 < b.len() implies text_lt(#[trigger] b[k1].title@, #[trigger] b[k2].title@) by {
        assert(b[k1] == a[k1]);
        if k2 < a.len() {
            assert(b[k2] == a[k2]);
        }
    }
    assert forall|next: Seq<char>| text_lt(album, next) implies open_albums(s, b, first, artist, next) by {
        assert forall|k: int| first <= k < b.len() implies text_lt(#[trigger] b[k].title@, next) by {
            if k < a.len() {
                assert(b[k] == a[k]);
                lemma_text_lt_transitive(a[k].title@, album, next);
            }
        }
    }
}

/// Appending the entry of the open artist, whose name comes after every
/// name so far, extends the artist cover to all album entries.
proof fn lemma_push_artist(s: Seq<SongView>, a: Seq<AlbumEntry>, r: Seq<ArtistEntry>, e: ArtistEntry, first: int)
    requires
        artists_cover(s, a, r, first),
        0 <= first < a.len(),
        e.albums.start == first,
        e.albums.end == a.len(),
        artist_starts_at(s, a[first].songs.start as int),
        forall|k: int| first <= k < a.len() ==> album_artist(s, #[trigger] a[k]) == e.name@,
        forall|k1: int, k2: int| first <= k1 < k2 < a.len() ==> text_lt(#[trigger] a[k1].title@, #[trigger] a[k2].title@),
        forall|j: int| 0 <= j < r.len() ==> text_lt(#[trigger] r[j].name@, e.name@),
    ensures
        artists_cover(s, a, r.push(e), a.len() as int),
        forall|next: Seq<char>| text_lt(e.name@, next) ==> forall|j: int| 0 <= j < r.len() + 1 ==> text_lt(#[trigger] r.push(e)[j].name@, next),
{
    let q = r.push(e);
    assert(artist_entry_ok(s, a, e));
    assert forall|j: int| 0 <= j < q.len() implies artist_entry_ok(s, a, #[trigger] q[j]) by {
        if j < r.len() {
            assert(q[j] == r[j]);
        }
    }
    assert forall|j1: int, j2: int| 0 <= j1 && j2 == j1 + 1 && j2 < q.len() implies (#[trigger] q[j1]).albums.end
        == (#[trigger] q[j2]).albums.start by {
        if j2 < r.len() {
            assert(q[j1] == r[j1] && q[j2] == r[j2]);
        } else {
            assert(q[j1] == r.last());
        }
    }
    assert forall|j1: int, j2: int| 0 <= j1 < j2 < q.len() implies text_lt(#[trigger] q[j1].name@, #[trigger] q[j2].name@) by {
        assert(q[j1] == r[j1]);
        if j2 < r.len() {
            assert(q[j2] == r[j2]);
        }
    }
    assert forall|next: Seq<char>| text_lt(e.name@, next) implies forall|j: int| 0 <= j < q.len() ==> text_lt(#[trigger] q[j].name@, next) by {
        assert forall|j: int| 0 <= j < q.len() implies text_lt(#[trigger] q[j].name@, next) by {
            if j < r.len() {
                assert(q[j] == r[j]);
                lemma_text_lt_transitive(r[j].name@, e.name@, next);
            }
        }
    }
}

/// Group sorted songs into album and artist entries.
fn group_songs(songs: Vec<Song>) -> (db: Database)
    requires
        songs_sorted(song_views(songs@)),
    ensures
        db.songs@ == songs@,
        db.well_formed(),
{
    let ghost s = song_views(songs@);
    let n = songs.len();
    let mut albums: Vec<AlbumEntry> = Vec::new();
    let mut artists: Vec<ArtistEntry> = Vec::new();
    if n == 0 {
        let db = Database { songs, albums, artists };
        proof {
            assert(db.song_list().len() == 0);
        }
        return db;
    }
    let mut album_start: usize = 0;
    let mut first_album: usize = 0;
    let ghost mut artist_start: int = 0;
    let mut i: usize = 1;
    while i < n
        invariant
            s == song_views(songs@),
            n == songs.len(),
            songs_sorted(s),
            0 < i <= n,
            album_start < i,
            albums_cover(s, albums@, album_start as int),
            album_run(s, album_start as int, i as int),
            first_album <= albums.len(),
            artists_cover(s, albums@, artists@, first_album as int),
            0 <= artist_start <= album_start,
            artist_starts_at(s, artist_start),
            first_album < albums.len() ==> albums@[first_album as int].songs.start == artist_start,
            first_album == albums.len() ==> artist_start == album_start,
            forall|q: int| artist_start <= q < i ==> (#[trigger] s[q]).artist == s[album_start as int].artist,
            open_albums(s, albums@, first_album as int, s[album_start as int].artist, s[album_start as int].album),
            forall|j: int| 0 <= j < artists.len() ==> text_lt(#[trigger] artists@[j].name@, s[album_start as int].artist),
        decreases n - i,
    {
        let new_album = songs[i].artist != songs[i - 1].artist || songs[i].album != songs[i - 1].album;
        proof {
            assert(s[i as int] == songs@[i as int]@);
            assert(s[i - 1] == songs@[i - 1]@);
        }
        if new_album {
            let ghost prev = s[album_start as int];
            proof {
                lemma_group_step(s, i as int);
                assert(same_album(s[i - 1], prev));
            }
            let ghost a_before = albums@;
            let entry = AlbumEntry { title: songs[album_start].album.clone(), songs: album_start..i };
            proof {
                assert(s[album_start as int] == songs@[album_start as int]@);
                lemma_push_album(s, albums@, entry, album_start as int, i as int);
                lemma_open_albums_push(s, albums@, entry, first_album as int, prev.artist, prev.album);
            }
            albums.push(entry);
            proof {
                assert(a_before =~= albums@.take(a_before.len() as int));
                lemma_artists_keep(s, a_before, albums@, artists@, first_album as int);
                if first_album == a_before.len() {
                    assert(albums@[first_album as int] == entry);
                } else {
                    assert(albums@[first_album as int] == a_before[first_album as int]);
                }
            }
            if songs[i].artist != songs[i - 1].artist {
                let artist = ArtistEntry { name: songs[album_start].artist.clone(), albums: first_album..albums.len() };
                proof {
                    lemma_push_artist(s, albums@, artists@, artist, first_album as int);
                }
                artists.push(artist);
                first_album = albums.len();
                proof {
                    artist_start = i as int;
                }
            } else {
                proof {
                    assert(text_lt(prev.album, s[i as int].album));
                }
            }
            album_start = i;
        } else {
            proof {
                assert(same_album(s[i as int], s[i - 1]));
                assert(same_album(s[i - 1], s[album_start as int]));
            }
        }
        i = i + 1;
    }
    let ghost a_before = albums@;
    let ghost prev = s[album_start as int];
    let entry = AlbumEntry { title: songs[album_start].album.clone(), songs: album_start..n };
    proof {
        assert(s[album_start as int] == songs@[album_start as int]@);
        lemma_push_album(s, albums@, entry, album_start as int, n as int);
        lemma_open_albums_push(s, albums@, entry, first_album as int, prev.artist, prev.album);
    }
    albums.push(entry);
    proof {
        assert(a_before =~= albums@.take(a_before.len() as int));
        lemma_artists_keep(s, a_before, albums@, artists@, first_album as int);
        if first_album == a_before.len() {
            assert(albums@[first_album as int] == entry);
        } else {
            assert(albums@[first_album as int] == a_before[first_album as int]);
        }
    }
    let artist = ArtistEntry { name: songs[album_start].artist.clone(), albums: first_album..albums.len() };
    proof {
        lemma_push_artist(s, albums@, artists@, artist, first_album as int);
    }
    artists.push(artist);
    Database { songs, albums, artists }
}

/// The songs of the lines that read as songs, in order; the other lines
/// are passed over.
pub open spec fn readable_songs(lines: Seq<Seq<char>>) -> Seq<SongView>
    decreases lines.len(),
{
    if lines.len() == 0 {
        Seq::<SongView>::empty()
    } else {
        let rest = readable_songs(lines.drop_last());
        match song_from_line(lines.last()) {
            Ok(x) => rest.push(x),
            Err(_) => rest,
        }
    }
}

impl Database {
    /// The database held in the text of a database file: the songs of its
    /// lines that read as songs, in database order, grouped by album and
    /// artist.
    pub fn new(text: &str) -> (db: Database)
        ensures
            db.well_formed(),
            db.song_list().to_multiset() == readable_songs(text_lines(text@)).to_multiset(),
    {
        let lines = lines_of(text);
        let ghost ls = text_lines(text@);
        proof {
            assert(forall|k: int| 0 <= k < ls.len() ==> ls[k] == #[trigger] lines@[k]@);
        }
        let mut songs: Vec<Song> = Vec::new();
        let mut i: usize = 0;
        while i < lines.len()
            invariant
                i <= lines.len(),
                ls.len() == lines.len(),
                forall|k: int| 0 <= k < ls.len() ==> ls[k] == #[trigger] lines@[k]@,
                song_views(songs@) == readable_songs(ls.take(i as int)),
            decreases lines.len() - i,
        {
            proof {
                assert(ls.take(i + 1).drop_last() =~= ls.take(i as int));
                assert(ls.take(i + 1).last() == lines@[i as int]@);
            }
            match Song::deserialize(lines[i].as_str()) {
                Ok(song) => {
                    let ghost before = songs@;
                    songs.push(song);
                    proof {
                        assert(song_views(songs@) =~= song_views(before).push(song@));
                    }
                },
                Err(_) => {},
            }
            i = i + 1;
        }
        proof {
            assert(ls.take(lines.len() as int) =~= ls);
        }
        let sorted = sort_songs(songs);
        group_songs(sorted)
    }
}

impl Database {
    /// The names of the artists, in order.
    pub fn get_artists(&self) -> (r: Vec<String>)
        ensures
            views(r@) == self.artists@.map_values(|e: ArtistEntry| e.name@),
    {
        let mut out: Vec<String> = Vec::new();
        let mut i: usize = 0;
        while i < self.artists.len()
            invariant
                i <= self.artists.len(),
                views(out@) == self.artists@.take(i as int).map_values(|e: ArtistEntry| e.name@),
            decreases self.artists.len() - i,
        {
            let ghost before = out@;
            out.push(self.artists[i].name.clone());
            proof {
                assert(views(out@) =~= views(before).push(self.artists@[i as int].name@));
                assert(self.artists@.take(i + 1).map_values(|e: ArtistEntry| e.name@)
                    =~= self.artists@.take(i as int).map_values(|e: ArtistEntry| e.name@).push(self.artists@[i as int].name@));
            }
            i = i + 1;
        }
        proof {
            assert(self.artists@.take(i as int) =~= self.artists@);
        }
        out
    }

    /// The position of the artist entry named `name`.
    fn artist_index(&self, name: &str) -> (r: Option<usize>)
        requires
            self.well_formed(),
        ensures
            match r {
                Some(j) => j < self.artists.len() && self.artists@[j as int].name@ == name@,
                None => forall|j: int| 0 <= j < self.artists.len() ==> (#[trigger] self.artists@[j]).name@ != name@,
            },
    {
        let ghost r = self.artists@;
        let mut lo: usize = 0;
        let mut hi: usize = self.artists.len();
        while lo < hi
            invariant
                self.well_formed(),
                r == self.artists@,
                lo <= hi <= r.len(),
                forall|j: int| 0 <= j < lo ==> text_lt(#[trigger] r[j].name@, name@),
                forall|j: int| hi <= j < r.len() ==> text_lt(name@, #[trigger] r[j].name@),
            decreases hi - lo,
        {
            let mid = lo + (hi - lo) / 2;
            match compare_text(self.artists[mid].name.as_str(), name) {
                TextOrder::Same => {
                    return Some(mid);
                },
                TextOrder::Before => {
                    proof {
                        assert forall|j: int| 0 <= j <= mid implies text_lt(#[trigger] r[j].name@, name@) by {
                            if j < mid {
                                assert(text_lt(r[j].name@, r[mid as int].name@));
                                lemma_text_lt_transitive(r[j].name@, r[mid as int].name@, name@);
                            }
                        }
                    }
                    lo = mid + 1;
                },
                TextOrder::After => {
                    proof {
                        assert forall|j: int| mid <= j < r.len() implies text_lt(name@, #[trigger] r[j].name@) by {
                            if j > mid {
                                assert(text_lt(r[mid as int].name@, r[j].name@));
                                lemma_text_lt_transitive(name@, r[mid as int].name@, r[j].name@);
                            }
                        }
                    }
                    hi = mid;
                },
            }
        }
        proof {
            assert forall|j: int| 0 <= j < r.len() implies (#[trigger] r[j]).name@ != name@ by {
                lemma_text_lt_irreflexive(name@);
            }
        }
        None
    }

    /// The album entries of the artist named `artist`.
    pub fn get_artist_albums(&self, artist: &str) -> (r: Option<&[AlbumEntry]>)
        requires
            self.well_formed(),
        ensures
            match r {
                Some(albums) => exists|j: int|
                    0 <= j < self.artists.len() && (#[trigger] self.artists@[j]).name@ == artist@
                        && albums@ == self.albums@.subrange(
                        self.artists@[j].albums.start as int,
                        self.artists@[j].albums.end as int,
                    ),
                None => forall|i: int| 0 <= i < self.songs.len() ==> (#[trigger] self.song_list()[i]).artist != artist@,
            },
    {
        match self.artist_index(artist) {
            None => {
                proof {
                    assert forall|i: int| 0 <= i < self.songs.len() implies (#[trigger] self.song_list()[i]).artist
                        != artist@ by {
                        let (j, k) = lemma_song_entries(self, i);
                    }
                }
                None
            },
            Some(j) => {
                let start = self.artists[j].albums.start;
                let end = self.artists[j].albums.end;
                proof {
                    assert(artist_entry_ok(self.song_list(), self.albums@, self.artists@[j as int]));
                }
                let albums = &self.albums[start..end];
                Some(albums)
            },
        }
    }
}

/// Album entries that cover the songs come in order: an earlier entry ends
/// no later than a later one starts.
proof fn lemma_albums_ordered(s: Seq<SongView>, a: Seq<AlbumEntry>, n: int, k1: int, k2: int)
    requires
        albums_cover(s, a, n),
        0 <= k1 < k2 < a.len(),
    ensures
        a[k1].songs.end <= a[k2].songs.start,
    decreases k2 - k1,
{
    assert(a[k2].songs.start == a[k2 - 1].songs.end);
    if k1 < k2 - 1 {
        lemma_albums_ordered(s, a, n, k1, k2 - 1);
        assert(album_entry_ok(s, a[k2 - 1]));
    }
}

/// The album entry, from entry `k` on, that holds song `i`.
proof fn lemma_song_in_album_from(s: Seq<SongView>, a: Seq<AlbumEntry>, i: int, k: int) -> (m: int)
    requires
        albums_cover(s, a, s.len() as int),
        0 <= i < s.len(),
        0 <= k < a.len(),
        a[k].songs.start <= i,
    ensures
        0 <= m < a.len(),
        a[m].songs.start <= i < a[m].songs.end,
    decreases a.len() - k,
{
    if i < a[k].songs.end {
        k
    } else {
        if k + 1 == a.len() {
            assert(a[k] == a.last());
        }
        assert(a[k + 1].songs.start == a[k].songs.end);
        lemma_song_in_album_from(s, a, i, k + 1)
    }
}

/// The album entry that holds song `i`.
pub proof fn lemma_song_in_album(s: Seq<SongView>, a: Seq<AlbumEntry>, i: int) -> (k: int)
    requires
        albums_cover(s, a, s.len() as int),
        0 <= i < s.len(),
    ensures
        0 <= k < a.len(),
        a[k].songs.start <= i < a[k].songs.end,
{
    lemma_song_in_album_from(s, a, i, 0)
}

/// The artist entry, from entry `j` on, that holds album entry `k`.
proof fn lemma_album_in_artist_from(s: Seq<SongView>, a: Seq<AlbumEntry>, r: Seq<ArtistEntry>, k: int, j: int) -> (m: int)
    requires
        artists_cover(s, a, r, a.len() as int),
        0 <= k < a.len(),
        0 <= j < r.len(),
        r[j].albums.start <= k,
    ensures
        0 <= m < r.len(),
        r[m].albums.start <= k < r[m].albums.end,
    decreases r.len() - j,
{
    if k < r[j].albums.end {
        j
    } else {
        if j + 1 == r.len() {
            assert(r[j] == r.last());
        }
        assert(r[j + 1].albums.start == r[j].albums.end);
        lemma_album_in_artist_from(s, a, r, k, j + 1)
    }
}

/// The artist entry that holds album entry `k`.
pub proof fn lemma_album_in_artist(s: Seq<SongView>, a: Seq<AlbumEntry>, r: Seq<ArtistEntry>, k: int) -> (j: int)
    requires
        artists_cover(s, a, r, a.len() as int),
        0 <= k < a.len(),
    ensures
        0 <= j < r.len(),
        r[j].albums.start <= k < r[j].albums.end,
{
    lemma_album_in_artist_from(s, a, r, k, 0)
}

/// In sorted songs, a song between two songs of one album group belongs
/// to that group too.
proof fn lemma_album_between(s: Seq<SongView>, i: int, m: int, j: int)
    requires
        songs_sorted(s),
        0 <= i <= m <= j < s.len(),
        same_album(s[i], s[j]),
    ensures
        same_album(s[m], s[i]),
{
    if i < m {
        assert(!song_before(s[m], s[i]));
    }
    if m < j {
        assert(!song_before(s[j], s[m]));
    }
    lemma_text_lt_total(s[m].artist, s[i].artist);
    lemma_text_lt_total(s[m].album, s[i].album);
}

/// In sorted songs, a song between two songs of one artist has that artist.
proof fn lemma_artist_between(s: Seq<SongView>, i: int, m: int, j: int)
    requires
        songs_sorted(s),
        0 <= i <= m <= j < s.len(),
        s[i].artist == s[j].artist,
    ensures
        s[m].artist == s[i].artist,
{
    if i < m {
        assert(!song_before(s[m], s[i]));
    }
    if m < j {
        assert(!song_before(s[j], s[m]));
    }
    lemma_text_lt_total(s[m].artist, s[i].artist);
}

/// The songs of album entry `k` are exactly the songs with its artist and
/// album.
pub proof fn lemma_album_exact(db: &Database, k: int, i: int)
    requires
        db.well_formed(),
        0 <= k < db.albums@.len(),
        0 <= i < db.song_list().len(),
    ensures
        (db.albums@[k].songs.start <= i < db.albums@[k].songs.end)
            <==> same_album(db.song_list()[i], db.song_list()[db.albums@[k].songs.start as int]),
{
    let s = db.song_list();
    let a = db.albums@;
    let lo = a[k].songs.start as int;
    let hi = a[k].songs.end as int;
    assert(album_entry_ok(s, a[k]));
    if same_album(s[i], s[lo]) {
        if i >= hi {
            if k + 1 == a.len() {
                assert(a[k] == a.last());
            }
            assert(a[k + 1].songs.start == hi);
            assert(album_entry_ok(s, a[k + 1]));
            assert(same_album(s[hi - 1], s[lo]));
            lemma_album_between(s, hi - 1, hi, i);
        }
        if i < lo {
            assert(lo > 0);
            lemma_album_between(s, i, lo - 1, lo);
        }
    }
}

/// The first song and the end of the songs of artist entry `j`.
pub open spec fn artist_song_range(db: &Database, j: int) -> (int, int) {
    let e = db.artists@[j];
    (db.albums@[e.albums.start as int].songs.start as int, db.albums@[e.albums.end - 1].songs.end as int)
}

/// The songs of artist entry `j` form a nonempty run of the songs, bounded
/// by where that artist starts and where the next one starts.
proof fn lemma_artist_bounds(db: &Database, j: int)
    requires
        db.well_formed(),
        0 <= j < db.artists@.len(),
    ensures
        0 <= artist_song_range(db, j).0 < artist_song_range(db, j).1 <= db.song_list().len(),
        artist_starts_at(db.song_list(), artist_song_range(db, j).0),
        artist_song_range(db, j).1 < db.song_list().len() ==> artist_starts_at(
            db.song_list(),
            artist_song_range(db, j).1,
        ),
        db.song_list()[artist_song_range(db, j).1 - 1].artist == db.artists@[j].name@,
        db.song_list()[artist_song_range(db, j).0].artist == db.artists@[j].name@,
{
    let s = db.song_list();
    let a = db.albums@;
    let r = db.artists@;
    let n = s.len() as int;
    let e = r[j];
    let first = e.albums.start as int;
    let last = e.albums.end - 1;
    let hi = a[last].songs.end as int;
    assert(artist_entry_ok(s, a, e));
    assert(album_entry_ok(s, a[first]));
    assert(album_entry_ok(s, a[last]));
    if first < last {
        lemma_albums_ordered(s, a, n, first, last);
    }
    assert(album_artist(s, a[first]) == e.name@);
    assert(album_artist(s, a[last]) == e.name@);
    assert(same_album(s[hi - 1], s[a[last].songs.start as int]));
    if hi < n {
        if j + 1 == r.len() {
            assert(r[j] == r.last());
            assert(a[last] == a.last());
        } else {
            assert(r[j + 1].albums.start == e.albums.end);
            assert(artist_entry_ok(s, a, r[j + 1]));
            assert(a[last + 1].songs.start == hi);
        }
    }
}

/// The songs in the run of artist entry `j` are by its artist.
proof fn lemma_artist_run_songs(db: &Database, j: int, i: int)
    requires
        db.well_formed(),
        0 <= j < db.artists@.len(),
        artist_song_range(db, j).0 <= i < artist_song_range(db, j).1,
    ensures
        db.song_list()[i].artist == db.artists@[j].name@,
{
    let s = db.song_list();
    let a = db.albums@;
    let n = s.len() as int;
    let e = db.artists@[j];
    let first = e.albums.start as int;
    let last = e.albums.end - 1;
    lemma_artist_bounds(db, j);
    assert(artist_entry_ok(s, a, e));
    let k = lemma_song_in_album(s, a, i);
    assert(album_entry_ok(s, a[k]));
    if k < first {
        lemma_albums_ordered(s, a, n, k, first);
    }
    if k > last {
        lemma_albums_ordered(s, a, n, last, k);
    }
    assert(album_artist(s, a[k]) == e.name@);
    assert(same_album(s[i], s[a[k].songs.start as int]));
}

/// The songs of artist entry `j` are exactly the songs by its artist.
pub proof fn lemma_artist_exact(db: &Database, j: int, i: int)
    requires
        db.well_formed(),
        0 <= j < db.artists@.len(),
        0 <= i < db.song_list().len(),
    ensures
        0 <= artist_song_range(db, j).0 < artist_song_range(db, j).1 <= db.song_list().len(),
        (artist_song_range(db, j).0 <= i < artist_song_range(db, j).1)
            <==> db.song_list()[i].artist == db.artists@[j].name@,
{
    let s = db.song_list();
    let (lo, hi) = artist_song_range(db, j);
    lemma_artist_bounds(db, j);
    if lo <= i < hi {
        lemma_artist_run_songs(db, j, i);
    }
    if s[i].artist == db.artists@[j].name@ {
        if i >= hi {
            lemma_artist_between(s, hi - 1, hi, i);
        }
        if i < lo {
            lemma_artist_between(s, i, lo - 1, lo);
        }
    }
}

/// The album entry and the artist entry that hold song `i`: the album
/// entry's title is the song's album and the artist entry's name is the
/// song's artist.
pub proof fn lemma_song_entries(db: &Database, i: int) -> (jk: (int, int))
    requires
        db.well_formed(),
        0 <= i < db.song_list().len(),
    ensures
        0 <= jk.0 < db.artists@.len(),
        0 <= jk.1 < db.albums@.len(),
        db.artists@[jk.0].albums.start <= jk.1 < db.artists@[jk.0].albums.end,
        db.albums@[jk.1].songs.start <= i < db.albums@[jk.1].songs.end,
        db.artists@[jk.0].name@ == db.song_list()[i].artist,
        db.albums@[jk.1].title@ == db.song_list()[i].album,
{
    let s = db.song_list();
    let a = db.albums@;
    let r = db.artists@;
    let k = lemma_song_in_album(s, a, i);
    let j = lemma_album_in_artist(s, a, r, k);
    assert(album_entry_ok(s, a[k]));
    assert(artist_entry_ok(s, a, r[j]));
    assert(album_artist(s, a[k]) == r[j].name@);
    assert(same_album(s[i], s[a[k].songs.start as int]));
    (j, k)
}

/// Artist entries with the same name are the same entry.
proof fn lemma_artist_names_distinct(db: &Database, j1: int, j2: int)
    requires
        db.well_formed(),
        0 <= j1 < db.artists@.len(),
        0 <= j2 < db.artists@.len(),
        db.artists@[j1].name@ == db.artists@[j2].name@,
    ensures
        j1 == j2,
{
    lemma_text_lt_irreflexive(db.artists@[j1].name@);
    if j1 < j2 {
        assert(text_lt(db.artists@[j1].name@, db.artists@[j2].name@));
    }
    if j2 < j1 {
        assert(text_lt(db.artists@[j2].name@, db.artists@[j1].name@));
    }
}

/// Whether a song has the given artist and album.
pub open spec fn on_album(x: SongView, artist: Seq<char>, album: Seq<char>) -> bool {
    x.artist == artist && x.album == album
}

impl Database {
    /// The position of the album entry titled `title` among the albums of
    /// artist entry `j`.
    fn album_index(&self, j: usize, title: &str) -> (r: Option<usize>)
        requires
            self.well_formed(),
            j < self.artists.len(),
        ensures
            match r {
                Some(k) => self.artists@[j as int].albums.start <= k < self.artists@[j as int].albums.end
                    && self.albums@[k as int].title@ == title@,
                None => forall|k: int|
                    self.artists@[j as int].albums.start <= k < self.artists@[j as int].albums.end
                        ==> (#[trigger] self.albums@[k]).title@ != title@,
            },
    {
        let ghost a = self.albums@;
        let ghost e = self.artists@[j as int];
        proof {
            assert(artist_entry_ok(self.song_list(), a, e));
        }
        let mut lo: usize = self.artists[j].albums.start;
        let mut hi: usize = self.artists[j].albums.end;
        while lo < hi
            invariant
                a == self.albums@,
                e == self.artists@[j as int],
                e.albums.start <= lo <= hi <= e.albums.end <= a.len(),
                forall|k1: int, k2: int|
                    e.albums.start <= k1 < k2 < e.albums.end ==> text_lt(#[trigger] a[k1].title@, #[trigger] a[k2].title@),
                forall|k: int| e.albums.start <= k < lo ==> text_lt(#[trigger] a[k].title@, title@),
                forall|k: int| hi <= k < e.albums.end ==> text_lt(title@, #[trigger] a[k].title@),
            decreases hi - lo,
        {
            let mid = lo + (hi - lo) / 2;
            match compare_text(self.albums[mid].title.as_str(), title) {
                TextOrder::Same => {
                    return Some(mid);
                },
                TextOrder::Before => {
                    proof {
                        assert forall|k: int| e.albums.start <= k <= mid implies text_lt(#[trigger] a[k].title@, title@) by {
                            if k < mid {
                                assert(text_lt(a[k].title@, a[mid as int].title@));
                                lemma_text_lt_transitive(a[k].title@, a[mid as int].title@, title@);
                            }
                        }
                    }
                    lo = mid + 1;
                },
                TextOrder::After => {
                    proof {
                        assert forall|k: int| mid <= k < e.albums.end implies text_lt(title@, #[trigger] a[k].title@) by {
                            if k > mid {
                                assert(text_lt(a[mid as int].title@, a[k].title@));
                                lemma_text_lt_transitive(title@, a[mid as int].title@, a[k].title@);
                            }
                        }
                    }
                    hi = mid;
                },
            }
        }
        proof {
            lemma_text_lt_irreflexive(title@);
        }
        None
    }

    /// The songs of the album `album` by `artist`.
    pub fn get_album_songs(&self, artist: &str, album: &str) -> (r: Option<&[Song]>)
        requires
            self.well_formed(),
        ensures
            match r {
                Some(songs) => exists|lo: int, hi: int|
                    0 <= lo < hi <= self.songs.len() && songs@ == self.songs@.subrange(lo, hi) && forall|i: int|
                        0 <= i < self.songs.len() ==> ((lo <= i < hi) <==> on_album(
                            #[trigger] self.song_list()[i],
                            artist@,
                            album@,
                        )),
                None => forall|i: int|
                    0 <= i < self.songs.len() ==> !on_album(#[trigger] self.song_list()[i], artist@, album@),
            },
            match r {
                Some(songs) => song_views(songs@) == self.song_list().filter(album_of(artist@, album@)),
                None => self.song_list().filter(album_of(artist@, album@)).len() == 0,
            },
    {
        let ghost s = self.song_list();
        match self.artist_index(artist) {
            None => {
                proof {
                    assert forall|i: int| 0 <= i < self.songs.len() implies !on_album(
                        #[trigger] s[i],
                        artist@,
                        album@,
                    ) by {
                        let (j, k) = lemma_song_entries(self, i);
                    }
                    lemma_run_is_filter(s, album_of(artist@, album@), 0, 0);
                }
                None
            },
            Some(j) => match self.album_index(j, album) {
                None => {
                    proof {
                        assert forall|i: int| 0 <= i < self.songs.len() implies !on_album(
                            #[trigger] s[i],
                            artist@,
                            album@,
                        ) by {
                            let (j2, k) = lemma_song_entries(self, i);
                            if on_album(s[i], artist@, album@) {
                                lemma_artist_names_distinct(self, j as int, j2);
                            }
                        }
                        lemma_run_is_filter(s, album_of(artist@, album@), 0, 0);
                    }
                    None
                },
                Some(k) => {
                    let lo = self.albums[k].songs.start;
                    let hi = self.albums[k].songs.end;
                    proof {
                        let e = self.albums@[k as int];
                        assert(album_entry_ok(s, e));
                        assert(artist_entry_ok(s, self.albums@, self.artists@[j as int]));
                        assert(album_artist(s, e) == artist@);
                        assert forall|i: int| 0 <= i < self.songs.len() implies ((lo <= i < hi) <==> on_album(
                            #[trigger] s[i],
                            artist@,
                            album@,
                        )) by {
                            lemma_album_exact(self, k as int, i);
                        }
                        lemma_run_is_filter(s, album_of(artist@, album@), lo as int, hi as int);
                        assert(song_views(self.songs@.subrange(lo as int, hi as int)) =~= s.subrange(lo as int, hi as int));
                    }
                    Some(&self.songs[lo..hi])
                },
            },
        }
    }

    /// The songs by `artist`.
    pub fn get_artist_songs(&self, artist: &str) -> (r: Option<&[Song]>)
        requires
            self.well_formed(),
        ensures
            match r {
                Some(songs) => exists|lo: int, hi: int|
                    0 <= lo < hi <= self.songs.len() && songs@ == self.songs@.subrange(lo, hi) && forall|i: int|
                        0 <= i < self.songs.len() ==> ((lo <= i < hi) <==> (#[trigger] self.song_list()[i]).artist
                            == artist@),
                None => forall|i: int| 0 <= i < self.songs.len() ==> (#[trigger] self.song_list()[i]).artist != artist@,
            },
            match r {
                Some(songs) => song_views(songs@) == self.song_list().filter(by_artist(artist@)),
                None => self.song_list().filter(by_artist(artist@)).len() == 0,
            },
    {
        let ghost s = self.song_list();
        match self.artist_index(artist) {
            None => {
                proof {
                    assert forall|i: int| 0 <= i < self.songs.len() implies (#[trigger] s[i]).artist != artist@ by {
                        let (j, k) = lemma_song_entries(self, i);
                    }
                    lemma_run_is_filter(s, by_artist(artist@), 0, 0);
                }
                None
            },
            Some(j) => {
                proof {
                    assert(artist_entry_ok(s, self.albums@, self.artists@[j as int]));
                }
                let first = self.artists[j].albums.start;
                let last = self.artists[j].albums.end - 1;
                let lo = self.albums[first].songs.start;
                let hi = self.albums[last].songs.end;
                proof {
                    assert((lo as int, hi as int) == artist_song_range(self, j as int));
                    assert forall|i: int| 0 <= i < self.songs.len() implies ((lo <= i < hi) <==> (#[trigger] s[i]).artist
                        == artist@) by {
                        lemma_artist_exact(self, j as int, i);
                    }
                    if s.len() > 0 {
                        lemma_artist_exact(self, j as int, 0);
                    }
                    lemma_run_is_filter(s, by_artist(artist@), lo as int, hi as int);
                    assert(song_views(self.songs@.subrange(lo as int, hi as int)) =~= s.subrange(lo as int, hi as int));
                }
                Some(&self.songs[lo..hi])
            },
        }
    }
}

/// A run of positions that holds exactly the items with a property is what
/// filtering by the property keeps.
pub proof fn lemma_run_is_filter<A>(s: Seq<A>, p: spec_fn(A) -> bool, lo: int, hi: int)
    requires
        0 <= lo <= hi <= s.len(),
        forall|i: int| 0 <= i < s.len() ==> ((lo <= i < hi) <==> p(#[trigger] s[i])),
    ensures
        s.filter(p) == s.subrange(lo, hi),
    decreases s.len(),
{
    reveal(Seq::filter);
    if s.len() == 0 {
        assert(s.subrange(lo, hi) =~= s);
    } else {
        let t = s.drop_last();
        let n = s.len() - 1;
        let lo2 = if lo > n { n } else { lo };
        let hi2 = if hi > n { n } else { hi };
        assert forall|i: int| 0 <= i < t.len() implies ((lo2 <= i < hi2) <==> p(#[trigger] t[i])) by {
            assert(t[i] == s[i]);
            assert((lo <= i < hi) <==> p(s[i]));
        }
        lemma_run_is_filter(t, p, lo2, hi2);
        assert((lo <= n < hi) <==> p(s[n]));
        assert(s.last() == s[n]);
        assert(s.filter(p) == if p(s.last()) { t.filter(p).push(s.last()) } else { t.filter(p) });
        if lo <= n && n < hi {
            assert(s.subrange(lo, hi) =~= t.subrange(lo2, hi2).push(s.last()));
        } else {
            assert(s.subrange(lo, hi) =~= t.subrange(lo2, hi2));
        }
    }
}

/// The songs of `album` by `artist`, in database order.
pub open spec fn album_of(artist: Seq<char>, album: Seq<char>) -> spec_fn(SongView) -> bool {
    |x: SongView| on_album(x, artist, album)
}

/// The songs by `artist`.
pub open spec fn by_artist(artist: Seq<char>) -> spec_fn(SongView) -> bool {
    |x: SongView| x.artist == artist
}

/// Reading the lines that are each a song's line gives those songs as
/// stored, when every gain text reads as a number.
proof fn lemma_readable_bodies(s: Seq<SongView>)
    requires
        gains_clean(s),
    ensures
        readable_songs(s.map_values(|x: SongView| song_body(x))) == s.map_values(|x: SongView| stored_song(x)),
    decreases s.len(),
{
    let bodies = s.map_values(|x: SongView| song_body(x));
    if s.len() == 0 {
        assert(bodies =~= Seq::<Seq<char>>::empty());
        assert(s.map_values(|x: SongView| stored_song(x)) =~= Seq::<SongView>::empty());
    } else {
        let init = s.drop_last();
        assert(gains_clean(init)) by {
            assert forall|i: int| 0 <= i < init.len() implies crate::text::float_text(#[trigger] init[i].gain) by {
                assert(init[i] == s[i]);
            }
        }
        lemma_readable_bodies(init);
        assert(bodies.drop_last() =~= init.map_values(|x: SongView| song_body(x)));
        assert(crate::text::float_text(s[s.len() - 1].gain));
        lemma_song_body_round_trip(s.last());
        assert(bodies.last() == song_body(s.last()));
        assert(s.map_values(|x: SongView| stored_song(x)) =~= init.map_values(|x: SongView| stored_song(x)).push(
            stored_song(s.last()),
        ));
    }
}

/// The database file written for a list of songs is read back line by
/// line into those songs, each with tabs and line breaks taken out of its
/// text fields, when every gain text reads as a number: every line the
/// database writes reads back as a song.
pub proof fn lemma_database_text_round_trip(s: Seq<SongView>)
    requires
        gains_clean(s),
    ensures
        readable_songs(text_lines(songs_text(s))) == s.map_values(|x: SongView| stored_song(x)),
{
    let bodies = s.map_values(|x: SongView| song_body(x));
    if s.len() == 0 {
        assert(songs_text(s) =~= Seq::<char>::empty());
        assert(text_lines(songs_text(s)) =~= Seq::<Seq<char>>::empty());
        assert(s.map_values(|x: SongView| stored_song(x)) =~= Seq::<SongView>::empty());
    } else {
        lemma_songs_text_joined(s);
        lemma_split_joined(s);
        let j = joined_bodies(s);
        let t = j + seq!['\n'];
        assert(t.drop_last() =~= j);
        assert(t.last() == '\n');
        let pieces = split_on(t, '\n');
        assert(pieces == split_on(j, '\n').push(Seq::<char>::empty()));
        assert(pieces.drop_last() =~= bodies);
        assert forall|i: int| 0 <= i < bodies.len() implies strip_cr(#[trigger] bodies[i]) == bodies[i] by {
            lemma_song_body_digit_end(s[i]);
        }
        assert(text_lines(t) =~= bodies);
        lemma_readable_bodies(s);
    }
}

} // verus!
