use vstd::prelude::*;
use crate::gronk::index::{step_up, step_down, can_step_up, can_step_down};
use crate::gronk::queue::PlayerAction;
use crate::mu_core::index::{Index, selected_item};

verus! {

/// What the player is told to do to play the selected entry of a list.
pub open spec fn play_selected_action<T>(data: Seq<T>, index: Option<usize>) -> PlayerAction {
    match index {
        Some(i) => if i < data.len() { PlayerAction::Play(i) } else { PlayerAction::Stop },
        None => PlayerAction::Stop,
    }
}

/// Where the playing position ends up after the entry at `removed` left a
/// list that now has `len` entries (`len > 0`).
pub open spec fn playing_after_delete(playing: usize, removed: usize, len: usize) -> usize {
    if playing == removed && removed == 0 {
        0
    } else if playing == removed && len == removed {
        (len - 1) as usize
    } else if removed < playing {
        (playing - 1) as usize
    } else {
        playing
    }
}

/// The column widths of the queue table, in percent.
pub open spec fn constraint_sum(c: Seq<u16>) -> int {
    c[0] + c[1] + c[2] + c[3]
}

/// One percent moves between columns `i` and `i + 1`: to the right with
/// Shift when the left column is not empty, else to the left when the right
/// column is not empty.
pub open spec fn constraint_moved(c: Seq<u16>, i: int, shift: bool) -> Seq<u16> {
    if shift && c[i] != 0 {
        c.update(i, (c[i] - 1) as u16).update(i + 1, (c[i + 1] + 1) as u16)
    } else if c[i + 1] != 0 {
        c.update(i, (c[i] + 1) as u16).update(i + 1, (c[i + 1] - 1) as u16)
    } else {
        c
    }
}

/// What removing the entry under the table cursor does: nothing without
/// a cursor; otherwise the entry leaves, the playing position follows its
/// song (or the neighbour of a removed playing song), the cursor stays
/// inside the list, and the player is told to play when the playing song
/// moved up, or to stop when the list became empty.
pub open spec fn deleted_selected<T>(old: Queue<T>, new: Queue<T>, r: PlayerAction) -> bool {
    &&& new.skip_fix == old.skip_fix
    &&& new.ui.data@ == old.ui.data@
    &&& match old.ui.index {
        None => new.list == old.list && new.ui == old.ui && r == PlayerAction::Nothing,
        Some(removed) => {
            let rest = old.list.data@.remove(removed as int);
            let len = rest.len() as usize;
            match old.list.index {
                None => {
                    &&& new.list.data@ == rest
                    &&& new.list.index is None
                    &&& new.ui.index == old.ui.index
                    &&& r == PlayerAction::Nothing
                },
                Some(playing) => {
                    &&& len == 0 ==> {
                        &&& new.list.data@ == Seq::<T>::empty()
                        &&& new.list.index is None
                        &&& new.ui.index == (if removed > 0 { Some(0usize) } else { Some(removed) })
                        &&& r == PlayerAction::Stop
                    }
                    &&& len > 0 ==> {
                        &&& new.list.data@ == rest
                        &&& new.list.index == Some(playing_after_delete(playing, removed, len))
                        &&& new.ui.index == (if removed > len - 1 { Some((len - 1) as usize) } else { Some(removed) })
                        &&& r == (if removed < playing {
                            play_selected_action(rest, new.list.index)
                        } else {
                            PlayerAction::Nothing
                        })
                    }
                },
            }
        },
    }
}

/// The play queue of the terminal player: the list of songs with the
/// playing position, a separate cursor for the table, and the table's
/// column widths.
pub struct Queue<T> {
    pub ui: Index<bool>,
    pub list: Index<T>,
    pub constraint: [u16; 4],
    pub clicked_pos: Option<(u16, u16)>,
    pub skip_fix: bool,
}

impl<T> Queue<T> {
    pub fn new() -> (r: Self)
        ensures
            r.ui.index is None,
            r.list.data@ == Seq::<T>::empty(),
            r.list.index is None,
            r.constraint@ == seq![8u16, 42u16, 24u16, 26u16],
            r.clicked_pos is None,
            !r.skip_fix,
    {
        Queue {
            ui: Index::default(),
            list: Index::default(),
            constraint: [8, 42, 24, 26],
            clicked_pos: None,
            skip_fix: false,
        }
    }

    /// Called every tick with whether the player has finished its song: a
    /// song that finished during the previous tick is followed by the next.
    pub fn update(&mut self, is_done: bool) -> (r: PlayerAction)
        requires
            can_step_down(old(self).list.index),
        ensures
            final(self).skip_fix == is_done,
            final(self).list.data@ == old(self).list.data@,
            final(self).ui == old(self).ui,
            !is_done && old(self).skip_fix ==> {
                &&& final(self).list.index == step_down(old(self).list.index, old(self).list.data@.len() as usize)
                &&& r == play_selected_action(final(self).list.data@, final(self).list.index)
            },
            !(!is_done && old(self).skip_fix) ==> {
                &&& final(self).list.index == old(self).list.index
                &&& r == PlayerAction::Nothing
            },
    {
        let mut action = PlayerAction::Nothing;
        if !is_done && self.skip_fix {
            action = self.next();
        }
        if is_done {
            self.skip_fix = true;
        } else {
            self.skip_fix = false;
        }
        action
    }

    /// Play the previous song (wrapping).
    pub fn prev(&mut self) -> (r: PlayerAction)
        requires
            can_step_up(old(self).list.index, old(self).list.data@.len() as usize),
        ensures
            final(self).list.data@ == old(self).list.data@,
            final(self).ui == old(self).ui,
            final(self).skip_fix == old(self).skip_fix,
            final(self).list.index == step_up(old(self).list.index, old(self).list.data@.len() as usize),
            r == play_selected_action(final(self).list.data@, final(self).list.index),
    {
        self.list.up();
        self.play_selected()
    }

    /// Play the next song (wrapping).
    pub fn next(&mut self) -> (r: PlayerAction)
        requires
            can_step_down(old(self).list.index),
        ensures
            final(self).list.data@ == old(self).list.data@,
            final(self).ui == old(self).ui,
            final(self).skip_fix == old(self).skip_fix,
            final(self).list.index == step_down(old(self).list.index, old(self).list.data@.len() as usize),
            r == play_selected_action(final(self).list.data@, final(self).list.index),
    {
        self.list.down();
        self.play_selected()
    }

    pub fn clear(&mut self) -> (r: PlayerAction)
        ensures
            final(self).list.data@ == Seq::<T>::empty(),
            final(self).list.index is None,
            final(self).ui == old(self).ui,
            final(self).skip_fix == old(self).skip_fix,
            r == PlayerAction::Stop,
    {
        self.list = Index::default();
        PlayerAction::Stop
    }

    /// Move the table cursor up (wrapping over the queue's length).
    pub fn up(&mut self)
        requires
            can_step_up(old(self).ui.index, old(self).list.data@.len() as usize),
        ensures
            final(self).ui.index == step_up(old(self).ui.index, old(self).list.data@.len() as usize),
            final(self).ui.data@ == old(self).ui.data@,
            final(self).list == old(self).list,
            final(self).skip_fix == old(self).skip_fix,
    {
        let len = self.list.len();
        self.ui.up_with_len(len);
    }

    /// Move the table cursor down (wrapping over the queue's length).
    pub fn down(&mut self)
        requires
            can_step_down(old(self).ui.index),
        ensures
            final(self).ui.index == step_down(old(self).ui.index, old(self).list.data@.len() as usize),
            final(self).ui.data@ == old(self).ui.data@,
            final(self).list == old(self).list,
            final(self).skip_fix == old(self).skip_fix,
    {
        let len = self.list.len();
        self.ui.down_with_len(len);
    }

    /// Append songs; an empty queue selects and plays its first new song.
    pub fn add(&mut self, songs: Vec<T>) -> (r: PlayerAction)
        ensures
            final(self).list.data@ == old(self).list.data@ + songs@,
            final(self).skip_fix == old(self).skip_fix,
            old(self).list.data@.len() == 0 ==> {
                &&& final(self).list.index == Some(0usize)
                &&& final(self).ui.index == Some(0usize)
                &&& final(self).ui.data@ == old(self).ui.data@
                &&& r == play_selected_action(final(self).list.data@, Some(0usize))
            },
            old(self).list.data@.len() > 0 ==> {
                &&& final(self).list.index == old(self).list.index
                &&& final(self).ui == old(self).ui
                &&& r == PlayerAction::Nothing
            },
    {
        if self.list.is_empty() {
            self.list.extend(songs);
            self.list.select(Some(0));
            self.ui.select(Some(0));
            self.play_selected()
        } else {
            self.list.extend(songs);
            PlayerAction::Nothing
        }
    }

    /// Play the entry under the table cursor.
    pub fn select(&mut self) -> (r: PlayerAction)
        ensures
            final(self).list.data@ == old(self).list.data@,
            final(self).ui == old(self).ui,
            final(self).skip_fix == old(self).skip_fix,
            old(self).ui.index is Some ==> {
                &&& final(self).list.index == old(self).ui.index
                &&& r == play_selected_action(final(self).list.data@, final(self).list.index)
            },
            old(self).ui.index is None ==> {
                &&& final(self).list.index == old(self).list.index
                &&& r == PlayerAction::Nothing
            },
    {
        if let Some(index) = self.ui.index() {
            self.list.select(Some(index));
            self.play_selected()
        } else {
            PlayerAction::Nothing
        }
    }

    /// Remove the entry under the table cursor, keeping the playing song
    /// where possible and the cursor inside the list.
    pub fn delete_selected(&mut self) -> (r: PlayerAction)
        requires
            old(self).ui.index matches Some(i) ==> i < old(self).list.data@.len(),
        ensures
            deleted_selected(*old(self), *final(self), r),
    {
        let mut action = PlayerAction::Nothing;
        if let Some(index) = self.ui.index() {
            self.list.remove(index);
            if let Some(playing) = self.list.index() {
                let len = self.list.len();

                if len == 0 {
                    action = self.clear();
                } else if playing == index && index == 0 {
                    self.list.select(Some(0));
                } else if playing == index && len == index {
                    self.list.select(Some(len - 1));
                } else if index < playing {
                    self.list.select(Some(playing - 1));
                }

                let end = self.list.len().saturating_sub(1);
                if index > end {
                    self.ui.select(Some(end));
                }
                if index < playing {
                    action = self.play_selected();
                }
            };
        }
        action
    }

    /// Tell the player to play the selected song, or to stop when there is none.
    pub fn play_selected(&mut self) -> (r: PlayerAction)
        ensures
            *final(self) == *old(self),
            r == play_selected_action(old(self).list.data@, old(self).list.index),
    {
        match self.list.selected() {
            Some(_) => PlayerAction::Play(self.list.index.unwrap()),
            None => PlayerAction::Stop,
        }
    }

    pub fn is_empty(&self) -> (r: bool)
        ensures
            r == (self.list.data@.len() == 0),
    {
        self.list.is_empty()
    }

    pub fn get_playing(&self) -> (r: Option<&T>)
        ensures
            match r {
                Some(x) => selected_item(self.list.data@, self.list.index) == Some(*x),
                None => selected_item(self.list.data@, self.list.index) is None,
            },
    {
        self.list.selected()
    }

    /// Shift one percent of width between table columns `arg - '1'` and the
    /// one after it (`arg` is `'1'`, `'2'` or `'3'`); `shift` is whether
    /// Shift alone is held. The widths always add up to 100.
    pub fn move_constraint(&mut self, arg: char, shift: bool)
        requires
            '1' <= arg <= '3',
            constraint_sum(old(self).constraint@) == 100,
        ensures
            final(self).constraint@ == constraint_moved(
                old(self).constraint@,
                arg as int - 49,
                shift,
            ),
            constraint_sum(final(self).constraint@) == 100,
            final(self).list == old(self).list,
            final(self).ui == old(self).ui,
            final(self).skip_fix == old(self).skip_fix,
    {
        let i = (arg as u32 - 49) as usize;
        let c = self.constraint;
        let (a, b) = if i == 0 {
            (c[0], c[1])
        } else if i == 1 {
            (c[1], c[2])
        } else {
            (c[2], c[3])
        };
        let (na, nb) = if shift && a != 0 {
            (a - 1, b + 1)
        } else if b != 0 {
            (a + 1, b - 1)
        } else {
            (a, b)
        };
        let n = if i == 0 {
            [na, nb, c[2], c[3]]
        } else if i == 1 {
            [c[0], na, nb, c[3]]
        } else {
            [c[0], c[1], na, nb]
        };
        self.constraint = n;
        proof {
            assert(self.constraint@ =~= constraint_moved(c@, i as int, shift));
        }
    }
}

/// Deleting an entry that is not the playing one leaves the same song
/// playing.
pub proof fn lemma_delete_keeps_playing_song<T>(data: Seq<T>, playing: usize, removed: usize)
    requires
        playing < data.len(),
        removed < data.len(),
        playing != removed,
        data.len() <= usize::MAX,
    ensures
        ({
            let rest = data.remove(removed as int);
            let p = playing_after_delete(playing, removed, rest.len() as usize);
            p < rest.len() && rest[p as int] == data[playing as int]
        }),
{
    data.remove_ensures(removed as int);
}

/// After a deletion the playing position and the cursor point into the list.
pub proof fn lemma_delete_stays_in_range(playing: usize, removed: usize, old_len: usize)
    requires
        playing < old_len,
        removed < old_len,
        old_len > 1,
    ensures
        playing_after_delete(playing, removed, (old_len - 1) as usize) < old_len - 1,
{
}

} // verus!
