use mu::mu_core::db::{serialize_songs, Song};
use mu::mu_core::vdb::{item_rank, Database, Item};
use mu::mu_core::search::{opening_results, search_candidates, tie_before, SEARCH_LIMIT};

fn song(title: &str, album: &str, artist: &str, track: u8) -> Song {
    Song {
        title: title.to_string(),
        album: album.to_string(),
        artist: artist.to_string(),
        disc_number: 1,
        track_number: track,
        path: format!("/{artist}/{album}/{title}"),
        gain: "0".to_string(),
        year: 0,
    }
}

fn library() -> Database {
    let songs = vec![
        song("b", "Second", "Zed", 2),
        song("a", "First", "Abba", 1),
        song("c", "First", "Abba", 3),
        song("a", "Second", "Zed", 1),
        song("x", "Only", "Moby", 1),
        song("b", "First", "Abba", 2),
    ];
    Database::new(&serialize_songs(&songs))
}

#[test]
fn songs_sorted_by_artist_album_title() {
    let db = library();
    let keys: Vec<(String, String, String)> =
        db.songs.iter().map(|s| (s.artist.clone(), s.album.clone(), s.title.clone())).collect();
    let mut expected = keys.clone();
    expected.sort();
    assert_eq!(keys, expected);
    assert_eq!(db.songs.len(), 6);
}

#[test]
fn albums_and_artists_group_the_songs() {
    let db = library();
    let titles: Vec<&str> = db.albums.iter().map(|a| a.title.as_str()).collect();
    assert_eq!(titles, vec!["First", "Only", "Second"]);
    assert_eq!(db.albums[0].songs, 0..3);
    assert_eq!(db.albums[1].songs, 3..4);
    assert_eq!(db.albums[2].songs, 4..6);
    assert_eq!(db.get_artists(), vec!["Abba".to_string(), "Moby".to_string(), "Zed".to_string()]);
    assert_eq!(db.artists[0].albums, 0..1);
    assert_eq!(db.artists[2].albums, 2..3);
}

#[test]
fn album_songs_lookup() {
    let db = library();
    let songs = db.get_album_songs("Abba", "First").unwrap();
    let titles: Vec<&str> = songs.iter().map(|s| s.title.as_str()).collect();
    assert_eq!(titles, vec!["a", "b", "c"]);
    assert!(db.get_album_songs("Abba", "Second").is_none());
    assert!(db.get_album_songs("Nobody", "First").is_none());
}

#[test]
fn artist_songs_lookup() {
    let db = library();
    let songs = db.get_artist_songs("Zed").unwrap();
    assert_eq!(songs.len(), 2);
    assert!(songs.iter().all(|s| s.artist == "Zed"));
    assert!(db.get_artist_songs("Nobody").is_none());
}

#[test]
fn artist_albums_lookup() {
    let db = library();
    let albums = db.get_artist_albums("Moby").unwrap();
    assert_eq!(albums.len(), 1);
    assert_eq!(albums[0].title, "Only");
    assert!(db.get_artist_albums("Nobody").is_none());
}

#[test]
fn unreadable_lines_are_skipped() {
    let text = "garbage\nt\tal\tar\t1\t2\t/p\t0\t0\r\n\nt2\tal\tar\t1\t1\t/q\t0\t0";
    let db = Database::new(text);
    assert_eq!(db.songs.len(), 2);
    assert_eq!(db.songs[0].title, "t");
    assert_eq!(db.songs[0].year, 0);
    assert_eq!(db.songs[1].title, "t2");
}

#[test]
fn empty_text_gives_empty_database() {
    let db = Database::new("");
    assert!(db.songs.is_empty());
    assert!(db.albums.is_empty());
    assert!(db.artists.is_empty());
    assert!(db.get_artists().is_empty());
}

#[test]
fn written_songs_read_back() {
    let songs = vec![song("t\tx", "al", "ar", 1)];
    let db = Database::new(&serialize_songs(&songs));
    assert_eq!(db.songs.len(), 1);
    assert_eq!(db.songs[0].title, "tx");
}

#[test]
fn item_ranks() {
    assert_eq!(item_rank(&Item::Artist("a".to_string())), 0);
    assert_eq!(item_rank(&Item::Album(("a".to_string(), "b".to_string()))), 1);
    assert_eq!(
        item_rank(&Item::Song(("a".to_string(), "b".to_string(), "c".to_string(), 1, 2))),
        2
    );
}

fn label(item: &Item) -> String {
    match item {
        Item::Artist(a) => format!("artist {a}"),
        Item::Album((a, b)) => format!("album {a}/{b}"),
        Item::Song((a, b, t, d, n)) => format!("song {a}/{b}/{t} {d}.{n}"),
    }
}

#[test]
fn search_candidates_follow_the_library() {
    let db = library();
    let c = search_candidates(&db);
    let got: Vec<String> = c.iter().map(|(item, text)| format!("{} [{text}]", label(item))).collect();
    assert_eq!(
        got,
        vec![
            "artist Abba [Abba]",
            "album Abba/First [First]",
            "song Abba/First/a 1.1 [a]",
            "song Abba/First/b 1.2 [b]",
            "song Abba/First/c 1.3 [c]",
            "artist Moby [Moby]",
            "album Moby/Only [Only]",
            "song Moby/Only/x 1.1 [x]",
            "artist Zed [Zed]",
            "album Zed/Second [Second]",
            "song Zed/Second/a 1.1 [a]",
            "song Zed/Second/b 1.2 [b]",
        ]
    );
}

#[test]
fn an_empty_search_shows_the_first_songs() {
    let db = library();
    let hits = opening_results(&db);
    assert_eq!(hits.len(), 6);
    assert_eq!(label(&hits[0]), "song Abba/First/a 1.1");
    let many: Vec<Song> = (0..40u8).map(|i| song(&format!("t{i:02}"), "A", "B", i)).collect();
    let big = Database::new(&serialize_songs(&many));
    let hits = opening_results(&big);
    assert_eq!(hits.len(), SEARCH_LIMIT);
    assert_eq!(SEARCH_LIMIT, 25);
    assert_eq!(label(&hits[24]), "song B/A/t24 1.24");
}

#[test]
fn equal_scores_put_artists_first_then_by_disc_and_track() {
    let artist = Item::Artist("A".to_string());
    let album = Item::Album(("A".to_string(), "B".to_string()));
    let s = |d, n| Item::Song(("A".to_string(), "B".to_string(), "T".to_string(), d, n));
    assert!(tie_before(&artist, &album));
    assert!(tie_before(&album, &s(1, 1)));
    assert!(!tie_before(&s(1, 1), &artist));
    assert!(tie_before(&s(1, 9), &s(2, 1)));
    assert!(tie_before(&s(1, 1), &s(1, 2)));
    assert!(!tie_before(&s(1, 2), &s(1, 2)));
    assert!(!tie_before(&artist, &Item::Artist("B".to_string())));
}
