use mu::gronk::queue::PlayerAction;
use mu::mu_core::db::Song;
use mu::player::{check, State};
use mu::rodio::decoder::DecoderError;
use mu::rodio::player::Player;

fn song(n: u8) -> Song {
    Song {
        title: format!("t{n}"),
        album: "al".to_string(),
        artist: "ar".to_string(),
        disc_number: 1,
        track_number: n,
        path: format!("/p{n}"),
        gain: "0".to_string(),
        year: 0,
    }
}

#[test]
fn player_starts_on_first_added_song() {
    let mut p: Player<u8> = Player::new(50);
    assert!(matches!(p.add_songs(vec![1, 2, 3]), PlayerAction::Play(0)));
    assert!(matches!(p.add_songs(vec![4]), PlayerAction::Nothing));
    assert!(matches!(p.next_song(), PlayerAction::Play(1)));
    assert!(matches!(p.prev_song(), PlayerAction::Play(0)));
    assert!(matches!(p.prev_song(), PlayerAction::Play(3)));
    assert!(matches!(p.play_song(9), PlayerAction::Nothing));
    assert!(matches!(p.play_song(2), PlayerAction::Play(2)));
    assert!(matches!(p.clear_songs(), PlayerAction::Stop));
}

#[test]
fn player_volume_steps_and_clamps() {
    let mut p: Player<u8> = Player::new(95);
    assert_eq!(p.volume_up(), 100);
    assert_eq!(p.volume_up(), 100);
    assert_eq!(p.volume_down(), 95);
    let mut q: Player<u8> = Player::new(0);
    assert_eq!(q.volume_down(), 0);
}

#[test]
fn player_delete_moves_playing_position() {
    let mut p: Player<u8> = Player::new(50);
    p.add_songs(vec![1, 2, 3]);
    p.play_song(2);
    assert!(matches!(p.delete_song(0), PlayerAction::Nothing));
    assert_eq!(p.songs.data, vec![2, 3]);
    assert_eq!(p.songs.index, Some(1));
    // deleting the playing song plays the one that takes its place
    assert!(matches!(p.delete_song(1), PlayerAction::Play(0)));
    assert_eq!(p.songs.data, vec![2]);
    assert!(matches!(p.delete_song(0), PlayerAction::Stop));
    assert!(p.songs.data.is_empty());
}

#[test]
fn player_delete_last_entry_moves_to_end() {
    // the position moves to the new last entry when the old last one goes
    let mut p: Player<u8> = Player::new(50);
    p.add_songs(vec![1, 2, 3]);
    assert!(matches!(p.delete_song(2), PlayerAction::Nothing));
    assert_eq!(p.songs.index, Some(1));
}

#[test]
fn randomize_keeps_songs_and_selection() {
    let mut p: Player<Song> = Player::new(50);
    p.add_songs((0..60).map(song).collect());
    p.play_song(7);
    let before: Vec<String> = p.songs.data.iter().map(|s| s.title.clone()).collect();
    p.randomize();
    let after: Vec<String> = p.songs.data.iter().map(|s| s.title.clone()).collect();
    assert_ne!(before, after);
    let mut sorted_before = before.clone();
    let mut sorted_after = after.clone();
    sorted_before.sort();
    sorted_after.sort();
    assert_eq!(sorted_before, sorted_after);
    let i = p.songs.index.unwrap();
    assert_eq!(p.songs.data[i].title, "t7");
}

#[test]
fn randomize_without_selection_changes_nothing() {
    let mut p: Player<Song> = Player::new(50);
    p.randomize();
    assert!(p.songs.data.is_empty());
}

#[test]
fn status_codes() {
    assert_eq!(check(0), Ok(()));
    assert_eq!(check(255), Err("0xff".to_string()));
    assert_eq!(check(-1), Err("0xffffffff".to_string()));
    assert_eq!(check(-2147024809), Err(format!("{:#x}", -2147024809i32)));
    assert_eq!(check(16), Err(format!("{:#x}", 16)));
}

#[test]
fn decoder_error_messages() {
    assert_eq!(DecoderError::UnrecognizedFormat.message(), "Unrecognized format");
    assert_eq!(DecoderError::IoError("disk".to_string()).message(), "disk");
    assert_eq!(DecoderError::DecodeError("bad frame").message(), "bad frame");
    assert_eq!(DecoderError::LimitError("too big").message(), "too big");
    assert_eq!(DecoderError::ResetRequired.message(), "Reset required");
    assert_eq!(DecoderError::NoStreams.message(), "No streams");
}

#[test]
fn playback_state_compares() {
    assert_eq!(State::Playing, State::Playing);
    assert_ne!(State::Playing, State::Paused);
}
