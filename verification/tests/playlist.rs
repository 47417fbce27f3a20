use mu::mu_core::db::{Song, SongError};
use mu::mu_core::playlist::{Playlist, PlaylistError};

#[test]
fn playlist() {
    let path = format!("config/{}", Playlist::file_name("name"));
    let playlist = Playlist::new("name", vec![Song::example(), Song::example()], path);
    let string = playlist.serialize();
    let p = Playlist::deserialize(&string).unwrap();
    assert_eq!(playlist.name(), p.name());
    assert_eq!(playlist.path(), p.path());
    assert_eq!(playlist.songs.data.len(), p.songs.data.len());
    for (a, b) in playlist.songs.data.iter().zip(p.songs.data.iter()) {
        assert!(a.same_as(b));
    }
}

#[test]
fn playlist_file_name_is_escaped_name() {
    assert_eq!(Playlist::file_name("my\tlist"), "mylist.playlist");
}

#[test]
fn playlist_text_layout() {
    let p = Playlist::new("mix", vec![Song::example()], "dir/mix.playlist".to_string());
    assert_eq!(p.serialize(), "mix\tdir/mix.playlist\ntitle\talbum\tartist\t1\t1\tpath\t1\t0\n");
}

#[test]
fn playlist_errors() {
    assert!(matches!(Playlist::deserialize("no header"), Err(PlaylistError::MissingHeader)));
    assert!(matches!(Playlist::deserialize("no path\nsongs"), Err(PlaylistError::MissingPath)));
    assert!(matches!(
        Playlist::deserialize("n\tp\nt\ta\n"),
        Err(PlaylistError::Song(SongError::MissingArtist))
    ));
}
