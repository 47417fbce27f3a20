//! A play queue: songs and a cursor.
use vstd::prelude::*;

verus! {

/// Queued songs and the cursor among them.
#[derive(Debug)]
pub struct Queue<T> {
    pub index: Option<usize>,
    pub songs: Vec<T>,
}

impl<T> Queue<T> {
    /// An empty queue without a cursor.
    pub fn new() -> (r: Self)
        ensures
            r.index is None,
            r.songs@.len() == 0,
    {
        Queue { index: None, songs: Vec::new() }
    }

    /// The songs and the cursor.
    pub fn get_queue(&self) -> (r: (&Vec<T>, &Option<usize>))
        ensures
            r.0@ == self.songs@,
            *r.1 == self.index,
    {
        (&self.songs, &self.index)
    }

    /// Empty the queue (playback stops; the cursor stays).
    pub fn clear(&mut self)
        ensures
            final(self).songs@.len() == 0,
            final(self).index == old(self).index,
    {
        self.songs = Vec::new();
    }

    /// Append songs at the end.
    pub fn add(&mut self, songs: Vec<T>)
        ensures
            final(self).songs@ == old(self).songs@ + songs@,
            final(self).index == old(self).index,
    {
        let mut songs = songs;
        self.songs.append(&mut songs);
    }

    /// Move the cursor one up, wrapping to the last song.
    pub fn up(&mut self)
        requires
            old(self).index matches Some(i) ==> i > 0 || old(self).songs@.len() > 0,
        ensures
            final(self).songs@ == old(self).songs@,
            final(self).index == match old(self).index {
                Some(i) => Some(if i > 0 { (i - 1) as usize } else { (old(self).songs@.len() - 1) as usize }),
                None => None,
            },
    {
        let len = self.songs.len();
        if let Some(index) = self.index {
            if index > 0 {
                self.index = Some(index - 1);
            } else {
                self.index = Some(len - 1);
            }
        }
    }

    /// Move the cursor one down, wrapping to the first song.
    pub fn down(&mut self)
        requires
            old(self).index matches Some(i) ==> i < usize::MAX,
        ensures
            final(self).songs@ == old(self).songs@,
            final(self).index == match old(self).index {
                Some(i) => Some(if i + 1 < old(self).songs@.len() { (i + 1) as usize } else { 0usize }),
                None => None,
            },
    {
        let len = self.songs.len();
        if let Some(index) = self.index {
            if index + 1 < len {
                self.index = Some(index + 1);
            } else {
                self.index = Some(0);
            }
        }
    }
}

} // verus!
