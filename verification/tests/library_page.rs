use mu::mu_gui::theme::minutes_text;
use mu::mu_core::db::Song;
use mu::mu_gui2::library::{
    album_block_height, album_runs, clock_text, duration_text, header_text, on_song_row, track_number_text,
    year_text, Library,
};

fn song(title: &str, album: &str) -> Song {
    Song {
        title: title.to_string(),
        album: album.to_string(),
        artist: "Artist".to_string(),
        disc_number: 1,
        track_number: 1,
        path: format!("/{album}/{title}"),
        gain: "0.0".to_string(),
        year: 0,
    }
}

#[test]
fn album_blocks_follow_consecutive_albums() {
    let songs = vec![song("a", "X"), song("b", "X"), song("c", "Y"), song("d", "X")];
    assert_eq!(album_runs(&songs), vec![(0, 2), (2, 3), (3, 4)]);
    assert!(album_runs(&[]).is_empty());
    assert_eq!(album_runs(&songs[..1]), vec![(0, 1)]);
}

#[test]
fn album_block_heights() {
    assert_eq!(album_block_height(30, 1), 148);
    assert_eq!(album_block_height(30, 4), 30 + 12 + 4 * 36 + 3 * 2);
}

#[test]
fn labels() {
    assert_eq!(track_number_text(7), "07");
    assert_eq!(track_number_text(12), "12");
    assert_eq!(duration_text(59), "00:59");
    assert_eq!(duration_text(3 * 60 + 5), "03:05");
    assert_eq!(duration_text(3600 + 61), "01:01:01");
    assert_eq!(duration_text(100 * 3600), "100:00:00");
    assert_eq!(clock_text(65), "01:05");
    assert_eq!(clock_text(6000), "100:00");
    assert_eq!(header_text(3, 27), "3 ALBUMS \u{b7} 27 TRACKS");
    assert_eq!(year_text(1999, 1), "1999 \u{b7} 1 track");
    assert_eq!(year_text(0, 12), "0 \u{b7} 12 tracks");
}

#[test]
fn rows_select_and_play() {
    let mut lib = Library {
        artist: "Artist".to_string(),
        total_tracks: 4,
        playing_song: None,
        selected_song: None,
        update_playing: false,
    };
    on_song_row(&mut lib, 1, 2, true, false);
    assert_eq!((lib.selected_song, lib.playing_song, lib.update_playing), (Some((1, 2)), None, false));
    on_song_row(&mut lib, 0, 0, true, true);
    assert_eq!((lib.selected_song, lib.playing_song, lib.update_playing), (Some((0, 0)), Some((0, 0)), true));
    on_song_row(&mut lib, 3, 3, false, false);
    assert_eq!(lib.selected_song, Some((0, 0)));
}

#[test]
fn minutes_and_seconds() {
    assert_eq!(minutes_text(0), "0:00");
    assert_eq!(minutes_text(65), "1:05");
    assert_eq!(minutes_text(600), "10:00");
}
