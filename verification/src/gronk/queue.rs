use vstd::prelude::*;
use crate::gronk::index::{Index, step_up, step_down, can_step_up, can_step_down};

verus! {

/// What the audio player should do after a queue operation.
#[derive(Debug, Clone, Copy, PartialEq, Eq, Structural)]
pub enum PlayerAction {
    /// Leave playback as it is.
    Nothing,
    /// Play the queue entry at this position.
    Play(usize),
    /// Stop playback.
    Stop,
}

/// Wrapping up/down moves on a bare optional cursor.
pub trait UpDown {
    fn up(index: &mut Option<usize>, len: usize)
        requires
            can_step_up(*old(index), len),
        ensures
            *final(index) == step_up(*old(index), len),
    {
        if let Some(i) = *index {
            if i > 0 {
                *index = Some(i - 1);
            } else {
                *index = Some(len - 1);
            }
        }
    }

    fn down(index: &mut Option<usize>, len: usize)
        requires
            can_step_down(*old(index)),
        ensures
            *final(index) == step_down(*old(index), len),
    {
        if let Some(i) = *index {
            if i + 1 < len {
                *index = Some(i + 1);
            } else {
                *index = Some(0);
            }
        }
    }
}

impl UpDown for Index {}

/// The first terminal queue: songs, a cursor for the list view and the
/// position of the song that is playing.
pub struct Queue<T> {
    pub index: Option<usize>,
    pub songs: Vec<T>,
    pub now_playing: Option<usize>,
}

impl<T> Queue<T> {
    pub fn new() -> (r: Self)
        ensures
            r.index is None,
            r.songs@ == Seq::<T>::empty(),
            r.now_playing is None,
    {
        Queue { index: None, songs: Vec::new(), now_playing: None }
    }

    pub fn get_queue(&self) -> (r: (&Vec<T>, &Option<usize>))
        ensures
            r.0@ == self.songs@,
            *r.1 == self.index,
    {
        (&self.songs, &self.index)
    }

    /// Called every tick with whether the player is still playing: a queue
    /// whose song has finished moves on.
    pub fn update(&mut self, is_playing: bool)
        requires
            !is_playing ==> can_step_up(old(self).now_playing, old(self).songs@.len() as usize),
        ensures
            final(self).songs@ == old(self).songs@,
            final(self).index == old(self).index,
            final(self).now_playing == if old(self).now_playing is Some && !is_playing {
                step_up(old(self).now_playing, old(self).songs@.len() as usize)
            } else {
                old(self).now_playing
            },
    {
        if self.now_playing.is_some() {
            if !is_playing {
                self.next();
            }
        }
    }

    /// Move the playing position one back (wrapping), as this queue's
    /// "next" does.
    pub fn next(&mut self)
        requires
            can_step_up(old(self).now_playing, old(self).songs@.len() as usize),
        ensures
            final(self).songs@ == old(self).songs@,
            final(self).index == old(self).index,
            final(self).now_playing == step_up(old(self).now_playing, old(self).songs@.len() as usize),
    {
        let len = self.songs.len();
        if let Some(i) = self.now_playing {
            if i > 0 {
                self.now_playing = Some(i - 1);
            } else {
                self.now_playing = Some(len - 1);
            }
        }
    }

    /// Move the playing position one forward (wrapping), as this queue's
    /// "prev" does.
    pub fn prev(&mut self)
        requires
            can_step_down(old(self).now_playing),
        ensures
            final(self).songs@ == old(self).songs@,
            final(self).index == old(self).index,
            final(self).now_playing == step_down(old(self).now_playing, old(self).songs@.len() as usize),
    {
        let len = self.songs.len();
        if let Some(i) = self.now_playing {
            if i + 1 < len {
                self.now_playing = Some(i + 1);
            } else {
                self.now_playing = Some(0);
            }
        }
    }

    pub fn clear(&mut self) -> (r: PlayerAction)
        ensures
            final(self).songs@ == Seq::<T>::empty(),
            final(self).now_playing is None,
            final(self).index == old(self).index,
            r == PlayerAction::Stop,
    {
        self.songs = Vec::new();
        self.now_playing = None;
        PlayerAction::Stop
    }

    /// Append songs; an idle queue that has songs starts on the first one.
    pub fn add(&mut self, songs: Vec<T>) -> (r: PlayerAction)
        ensures
            final(self).songs@ == old(self).songs@ + songs@,
            final(self).index == old(self).index,
            old(self).now_playing is None && final(self).songs@.len() > 0 ==> {
                &&& final(self).now_playing == Some(0usize)
                &&& r == PlayerAction::Play(0)
            },
            !(old(self).now_playing is None && final(self).songs@.len() > 0) ==> {
                &&& final(self).now_playing == old(self).now_playing
                &&& r == PlayerAction::Nothing
            },
    {
        let mut songs = songs;
        self.songs.append(&mut songs);
        if self.now_playing.is_none() && !self.songs.is_empty() {
            self.now_playing = Some(0);
            PlayerAction::Play(0)
        } else {
            PlayerAction::Nothing
        }
    }

    pub fn up(&mut self)
        requires
            can_step_up(old(self).index, old(self).songs@.len() as usize),
        ensures
            final(self).songs@ == old(self).songs@,
            final(self).now_playing == old(self).now_playing,
            final(self).index == step_up(old(self).index, old(self).songs@.len() as usize),
    {
        let len = self.songs.len();
        if let Some(i) = self.index {
            if i > 0 {
                self.index = Some(i - 1);
            } else {
                self.index = Some(len - 1);
            }
        }
    }

    pub fn down(&mut self)
        requires
            can_step_down(old(self).index),
        ensures
            final(self).songs@ == old(self).songs@,
            final(self).now_playing == old(self).now_playing,
            final(self).index == step_down(old(self).index, old(self).songs@.len() as usize),
    {
        let len = self.songs.len();
        if let Some(i) = self.index {
            if i + 1 < len {
                self.index = Some(i + 1);
            } else {
                self.index = Some(0);
            }
        }
    }
}

} // verus!
