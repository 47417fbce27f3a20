use vstd::prelude::*;
use rand::seq::SliceRandom;
use crate::gronk::index::{step_up, step_down, can_step_up, can_step_down};
use crate::gronk::queue::PlayerAction;
use crate::gronk::app::queue::{play_selected_action, playing_after_delete};
use crate::mu_core::db::Song;
use crate::mu_core::index::Index;

verus! {

/// How much one volume key press changes the volume.
pub const VOLUME_STEP: u16 = 5;

/// The volume after "volume up": one step more, at most 100.
pub open spec fn volume_raised(v: u16) -> u16 {
    if v + 5 > 100 { 100 } else { (v + 5) as u16 }
}

/// The volume after "volume down": one step less, unless already 0.
pub open spec fn volume_lowered(v: u16) -> u16 {
    if v != 0 { (v - 5) as u16 } else { 0 }
}

/// Where the playing position ends up after the player deletes the entry
/// at `removed` from a list that now has `len > 0` entries: as in the
/// queue, except that deleting the old last entry always moves it to the
/// new last entry.
pub open spec fn playing_after_player_delete(playing: usize, removed: usize, len: usize) -> usize {
    if removed > len - 1 { (len - 1) as usize } else { playing_after_delete(playing, removed, len) }
}

/// Shuffle in place with the thread's random generator.
///
/// Trusted wrapper of `rand::seq::SliceRandom::shuffle` (with
/// `rand::thread_rng`): the source performs a Fisher–Yates pass of swaps, so
/// the result holds the same items, each as often as before, in an order
/// that depends on chance. Nothing is stated of that order. The source of
/// `thread_rng` panics if the operating system cannot seed it; that case is
/// not excluded here.
#[verifier::external_body]
fn shuffle_in_place<T>(v: &mut Vec<T>)
    ensures
        final(v)@.to_multiset() == old(v)@.to_multiset(),
{
    v.shuffle(&mut rand::thread_rng());
}

/// The list of songs the audio player walks through, and its volume
/// (0 to 100).
pub struct Player<T> {
    pub volume: u16,
    pub songs: Index<T>,
}

impl<T> Player<T> {
    pub fn new(volume: u16) -> (r: Self)
        ensures
            r.volume == volume,
            r.songs.data@ == Seq::<T>::empty(),
            r.songs.index is None,
    {
        Player { volume, songs: Index::default() }
    }

    /// Append songs; a player with nothing selected starts on the first one.
    pub fn add_songs(&mut self, song: Vec<T>) -> (r: PlayerAction)
        ensures
            final(self).songs.data@ == old(self).songs.data@ + song@,
            final(self).volume == old(self).volume,
            old(self).songs.index is None && final(self).songs.data@.len() > 0 ==> {
                &&& final(self).songs.index == Some(0usize)
                &&& r == PlayerAction::Play(0)
            },
            !(old(self).songs.index is None && final(self).songs.data@.len() > 0) ==> {
                &&& final(self).songs.index == old(self).songs.index
                &&& r == PlayerAction::Nothing
            },
    {
        self.songs.extend(song);
        if self.songs.is_none() && !self.songs.is_empty() {
            self.songs.select(Some(0));
            self.play_selected()
        } else {
            PlayerAction::Nothing
        }
    }

    /// Play entry `i` if there is one.
    pub fn play_song(&mut self, i: usize) -> (r: PlayerAction)
        ensures
            final(self).songs.data@ == old(self).songs.data@,
            final(self).volume == old(self).volume,
            i < old(self).songs.data@.len() ==> final(self).songs.index == Some(i) && r
                == PlayerAction::Play(i),
            i >= old(self).songs.data@.len() ==> final(self).songs.index == old(self).songs.index
                && r == PlayerAction::Nothing,
    {
        if self.songs.get(i).is_some() {
            self.songs.select(Some(i));
            self.play_selected()
        } else {
            PlayerAction::Nothing
        }
    }

    pub fn clear_songs(&mut self) -> (r: PlayerAction)
        ensures
            final(self).songs.data@ == Seq::<T>::empty(),
            final(self).songs.index is None,
            final(self).volume == old(self).volume,
            r == PlayerAction::Stop,
    {
        self.songs = Index::default();
        PlayerAction::Stop
    }

    pub fn prev_song(&mut self) -> (r: PlayerAction)
        requires
            can_step_up(old(self).songs.index, old(self).songs.data@.len() as usize),
        ensures
            final(self).songs.data@ == old(self).songs.data@,
            final(self).volume == old(self).volume,
            final(self).songs.index == step_up(old(self).songs.index, old(self).songs.data@.len() as usize),
            r == play_selected_action(final(self).songs.data@, final(self).songs.index),
    {
        self.songs.up();
        self.play_selected()
    }

    pub fn next_song(&mut self) -> (r: PlayerAction)
        requires
            can_step_down(old(self).songs.index),
        ensures
            final(self).songs.data@ == old(self).songs.data@,
            final(self).volume == old(self).volume,
            final(self).songs.index == step_down(old(self).songs.index, old(self).songs.data@.len() as usize),
            r == play_selected_action(final(self).songs.data@, final(self).songs.index),
    {
        self.songs.down();
        self.play_selected()
    }

    pub fn volume_up(&mut self) -> (r: u16)
        requires
            old(self).volume <= u16::MAX - VOLUME_STEP,
        ensures
            final(self).volume == volume_raised(old(self).volume),
            r == final(self).volume,
            final(self).songs == old(self).songs,
    {
        self.volume = self.volume + VOLUME_STEP;
        if self.volume > 100 {
            self.volume = 100;
        }
        self.volume
    }

    pub fn volume_down(&mut self) -> (r: u16)
        requires
            old(self).volume == 0 || old(self).volume >= VOLUME_STEP,
        ensures
            final(self).volume == volume_lowered(old(self).volume),
            r == final(self).volume,
            final(self).songs == old(self).songs,
    {
        if self.volume != 0 {
            self.volume = self.volume - VOLUME_STEP;
        }
        self.volume
    }

    /// Tell the audio output to play the selected song, or to stop.
    pub fn play_selected(&mut self) -> (r: PlayerAction)
        ensures
            *final(self) == *old(self),
            r == play_selected_action(old(self).songs.data@, old(self).songs.index),
    {
        match self.songs.selected() {
            Some(_) => PlayerAction::Play(self.songs.index.unwrap()),
            None => PlayerAction::Stop,
        }
    }

    /// Delete entry `selected`, moving the playing position with it and
    /// playing on when the playing song itself was deleted.
    pub fn delete_song(&mut self, selected: usize) -> (r: PlayerAction)
        requires
            selected < old(self).songs.data@.len(),
        ensures
            final(self).volume == old(self).volume,
            ({
                let rest = old(self).songs.data@.remove(selected as int);
                let len = rest.len() as usize;
                match old(self).songs.index {
                    None => {
                        &&& final(self).songs.data@ == rest
                        &&& final(self).songs.index is None
                        &&& r == PlayerAction::Nothing
                    },
                    Some(current) => {
                        &&& len == 0 ==> {
                            &&& final(self).songs.data@ == Seq::<T>::empty()
                            &&& final(self).songs.index is None
                            &&& r == PlayerAction::Stop
                        }
                        &&& len > 0 ==> {
                            &&& final(self).songs.data@ == rest
                            &&& final(self).songs.index == Some(
                                playing_after_player_delete(current, selected, len),
                            )
                            &&& r == (if selected == current {
                                play_selected_action(rest, final(self).songs.index)
                            } else {
                                PlayerAction::Nothing
                            })
                        }
                    },
                }
            }),
    {
        //delete the song from the queue
        self.songs.data.remove(selected);

        if let Some(current_song) = self.songs.index {
            let len = self.songs.len();

            if len == 0 {
                return self.clear_songs();
            } else if current_song == selected && selected == 0 {
                self.songs.select(Some(0));
            } else if current_song == selected && len == selected {
                self.songs.select(Some(len - 1));
            } else if selected < current_song {
                self.songs.select(Some(current_song - 1));
            }

            let end = len.saturating_sub(1);

            if selected > end {
                self.songs.select(Some(end));
            }

            //if the playing song was deleted
            //play the next track
            if selected == current_song {
                return self.play_selected();
            }
        };
        PlayerAction::Nothing
    }
}

/// The last position of a song with the given contents, or 0 when there is
/// none.
pub open spec fn last_position_of(data: Seq<Song>, s: Song) -> usize
    decreases data.len(),
{
    if data.len() == 0 {
        0
    } else if data.last()@ == s@ {
        (data.len() - 1) as usize
    } else {
        last_position_of(data.drop_last(), s)
    }
}

impl Player<Song> {
    /// Shuffle the list, keeping the selection on the song that was
    /// selected (its last equal copy).
    pub fn randomize(&mut self)
        ensures
            final(self).volume == old(self).volume,
            match crate::mu_core::index::selected_item(old(self).songs.data@, old(self).songs.index) {
                Some(song) => {
                    &&& final(self).songs.data@.to_multiset() == old(self).songs.data@.to_multiset()
                    &&& final(self).songs.index == Some(last_position_of(final(self).songs.data@, song))
                },
                None => final(self).songs == old(self).songs,
            },
    {
        let song = match self.songs.selected() {
            Some(s) => s.duplicate(),
            None => return,
        };
        shuffle_in_place(&mut self.songs.data);

        let mut index: usize = 0;
        let mut i: usize = 0;
        while i < self.songs.data.len()
            invariant
                i <= self.songs.data@.len(),
                index == last_position_of(self.songs.data@.take(i as int), song),
            decreases self.songs.data@.len() - i,
        {
            proof {
                assert(self.songs.data@.take(i + 1).drop_last() =~= self.songs.data@.take(i as int));
            }
            if self.songs.data[i].same_as(&song) {
                index = i;
            }
            i = i + 1;
        }
        proof {
            assert(self.songs.data@.take(self.songs.data@.len() as int) =~= self.songs.data@);
        }
        self.songs.select(Some(index));
    }
}

/// Deleting an entry that is neither the playing one nor the last entry
/// after the playing one leaves the same song playing.
pub proof fn lemma_player_delete_keeps_playing_song<T>(data: Seq<T>, playing: usize, removed: usize)
    requires
        playing < data.len(),
        removed < data.len(),
        playing != removed,
        data.len() <= usize::MAX,
        !(removed == data.len() - 1 && playing < removed),
    ensures
        ({
            let rest = data.remove(removed as int);
            let p = playing_after_player_delete(playing, removed, rest.len() as usize);
            p < rest.len() && rest[p as int] == data[playing as int]
        }),
{
    data.remove_ensures(removed as int);
}

/// Deleting the last entry while an earlier one is playing moves the
/// playing position to the new last entry, whatever was playing.
pub proof fn lemma_player_delete_last_moves_to_end(len: usize, playing: usize)
    requires
        len >= 2,
        playing < len - 1,
    ensures
        playing_after_player_delete(playing, (len - 1) as usize, (len - 1) as usize) == len - 2,
{
}

/// Raising and then lowering the volume gives back a volume below 100 that
/// is a multiple of the step.
pub proof fn lemma_volume_down_undoes_up(v: u16)
    requires
        v <= 95,
        v % 5 == 0,
    ensures
        volume_lowered(volume_raised(v)) == v,
{
}

/// Lowering and then raising the volume gives back a volume from 5 to 100.
pub proof fn lemma_volume_up_undoes_down(v: u16)
    requires
        5 <= v <= 100,
    ensures
        volume_raised(volume_lowered(v)) == v,
{
}

/// Volume keys keep a volume that is a multiple of the step between 0 and
/// 100 so.
pub proof fn lemma_volume_stays_in_range(v: u16)
    requires
        v <= 100,
        v % 5 == 0,
    ensures
        volume_raised(v) <= 100,
        volume_raised(v) % 5 == 0,
        volume_lowered(v) <= 100,
        volume_lowered(v) % 5 == 0,
{
}

} // verus!
