use mu::mu_core::db::{deserialize_songs, escape, find_song_by_path, is_audio_extension, serialize_songs, Album, Song, SongError};

fn song(title: &str, album: &str, artist: &str, disc: u8, track: u8, path: &str) -> Song {
    Song {
        title: title.to_string(),
        album: album.to_string(),
        artist: artist.to_string(),
        disc_number: disc,
        track_number: track,
        path: path.to_string(),
        gain: "0.5".to_string(),
        year: 0,
    }
}

#[test]
fn string() {
    let song = Song::example();
    let string = song.serialize();
    assert!(Song::deserialize(&string).unwrap().same_as(&song));
}

#[test]
fn serialize_writes_tab_separated_line() {
    let s = Song::example();
    assert_eq!(s.serialize(), "title\talbum\tartist\t1\t1\tpath\t1\t0\n");
}

#[test]
fn serialize_escapes_tabs_and_breaks() {
    let mut s = song("a\tb", "c\nd", "e", 2, 10, "p\tq");
    s.year = 1999;
    let line = s.serialize();
    assert_eq!(line, "ab\tcd\te\t2\t10\tpq\t0.5\t1999\n");
    let back = Song::deserialize(&line).unwrap();
    assert_eq!(back.title, "ab");
    assert_eq!(back.album, "cd");
    assert_eq!(back.path, "pq");
    assert_eq!(back.year, 1999);
}

#[test]
fn escape_removes_tabs_and_line_breaks() {
    assert_eq!(escape("a\tb\nc"), "abc");
    assert_eq!(escape("plain"), "plain");
}

#[test]
fn new_song_has_placeholders() {
    let s = Song::new();
    assert_eq!(s.title, "Unknown Title");
    assert_eq!(s.album, "Unknown Album");
    assert_eq!(s.artist, "Unknown Artist");
    assert_eq!(s.disc_number, 1);
    assert_eq!(s.track_number, 1);
    assert_eq!(s.path, "");
    assert_eq!(s.year, 0);
}

#[test]
fn deserialize_errors() {
    assert_eq!(Song::deserialize("").unwrap_err(), SongError::EmptySong);
    assert_eq!(Song::deserialize("t").unwrap_err(), SongError::MissingAlbum);
    assert_eq!(Song::deserialize("t\ta").unwrap_err(), SongError::MissingArtist);
    assert_eq!(Song::deserialize("t\ta\tr").unwrap_err(), SongError::MissingDiscNumber);
    assert_eq!(Song::deserialize("t\ta\tr\tx").unwrap_err(), SongError::InvalidDiscNumber);
    assert_eq!(Song::deserialize("t\ta\tr\t256").unwrap_err(), SongError::InvalidDiscNumber);
    assert_eq!(Song::deserialize("t\ta\tr\t1").unwrap_err(), SongError::MissingTrackNumber);
    assert_eq!(Song::deserialize("t\ta\tr\t1\t-1").unwrap_err(), SongError::InvalidTrackNumber);
    assert_eq!(Song::deserialize("t\ta\tr\t1\t2").unwrap_err(), SongError::MissingPath);
    assert_eq!(Song::deserialize("t\ta\tr\t1\t2\tp").unwrap_err(), SongError::MissingGain);
    assert_eq!(Song::deserialize("t\ta\tr\t1\t2\tp\tx").unwrap_err(), SongError::InvalidGain);
    assert_eq!(Song::deserialize("t\ta\tr\t1\t2\tp\t").unwrap_err(), SongError::InvalidGain);
    assert_eq!(Song::deserialize("t\ta\tr\t1\t2\tp\t1.5.2\t1999").unwrap_err(), SongError::InvalidGain);
}

#[test]
fn deserialize_year_defaults_to_zero() {
    let s = Song::deserialize("t\ta\tr\t1\t2\tp\t0.5").unwrap();
    assert_eq!(s.year, 0);
    let s = Song::deserialize("t\ta\tr\t1\t2\tp\t0.5\tnope").unwrap();
    assert_eq!(s.year, 0);
    let s = Song::deserialize("t\ta\tr\t+3\t2\tp\t0.5\t2001\textra\n").unwrap();
    assert_eq!(s.disc_number, 3);
    assert_eq!(s.year, 2001);
    assert_eq!(s.gain, "0.5");
}

#[test]
fn song_list_round_trip() {
    let songs = vec![song("one", "al", "ar", 1, 1, "/a"), song("two", "al", "ar", 1, 2, "/b")];
    let text = serialize_songs(&songs);
    let back = deserialize_songs(&text).unwrap();
    assert_eq!(back.len(), 2);
    assert!(back[0].same_as(&songs[0]));
    assert!(back[1].same_as(&songs[1]));
}

#[test]
fn song_list_error_is_first_bad_line() {
    let text = "t\ta\tr\t1\t2\tp\t0\n\nt\ta\n";
    assert_eq!(deserialize_songs(text).unwrap_err(), SongError::EmptySong);
}

#[test]
fn find_by_path_gives_first_match() {
    let songs = vec![song("a", "x", "y", 1, 1, "/p"), song("b", "x", "y", 1, 2, "/q"), song("c", "x", "y", 1, 3, "/q")];
    assert_eq!(find_song_by_path(&songs, &"/q".to_string()), Some(1));
    assert_eq!(find_song_by_path(&songs, &"/z".to_string()), None);
}

#[test]
fn album_year_is_first_nonzero() {
    let mut a = song("a", "x", "y", 1, 1, "/p");
    let mut b = song("b", "x", "y", 1, 2, "/q");
    a.year = 0;
    b.year = 2004;
    let album = Album { title: "x".to_string(), songs: vec![a, b] };
    assert_eq!(album.year(), 2004);
    let empty = Album { title: "x".to_string(), songs: vec![] };
    assert_eq!(empty.year(), 0);
}

#[test]
fn the_scan_reads_flac_mp3_and_ogg_in_any_case() {
    for ext in ["flac", "FLAC", "Mp3", "ogg", "oGg"] {
        assert!(is_audio_extension(ext), "{ext}");
    }
    for ext in ["", "wav", "flac2", "mp", "m4a", "ＦLAC", "ogg "] {
        assert!(!is_audio_extension(ext), "{ext}");
    }
}
