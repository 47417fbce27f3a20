//! A list with an optional selected position: the shape shared by the play
//! queue, the playlists and search results.
use vstd::prelude::*;
use crate::gronk::index::{step_up, step_down, can_step_up, can_step_down};

verus! {

/// Items and an optional cursor into them. Removing items does not move the
/// cursor; callers that care adjust it themselves.
#[derive(Debug)]
pub struct Index<T> {
    pub data: Vec<T>,
    pub index: Option<usize>,
}

/// The item under the cursor, if the cursor is on an item.
pub open spec fn selected_item<T>(data: Seq<T>, index: Option<usize>) -> Option<T> {
    match index {
        Some(i) => if i < data.len() { Some(data[i as int]) } else { None },
        None => None,
    }
}

impl<T> Index<T> {
    pub fn new(data: Vec<T>, index: Option<usize>) -> (r: Self)
        ensures
            r.data@ == data@,
            r.index == index,
    {
        Index { data, index }
    }

    /// All items, nothing selected.
    pub fn from_vec(data: Vec<T>) -> (r: Self)
        ensures
            r.data@ == data@,
            r.index is None,
    {
        Index { data, index: None }
    }

    pub fn len(&self) -> (r: usize)
        ensures
            r == self.data@.len(),
    {
        self.data.len()
    }

    pub fn is_empty(&self) -> (r: bool)
        ensures
            r == (self.data@.len() == 0),
    {
        self.data.is_empty()
    }

    pub fn is_none(&self) -> (r: bool)
        ensures
            r == (self.index is None),
    {
        self.index.is_none()
    }

    pub fn index(&self) -> (r: Option<usize>)
        ensures
            r == self.index,
    {
        self.index
    }

    pub fn select(&mut self, i: Option<usize>)
        ensures
            final(self).index == i,
            final(self).data@ == old(self).data@,
    {
        self.index = i;
    }

    pub fn selected(&self) -> (r: Option<&T>)
        ensures
            match r {
                Some(x) => selected_item(self.data@, self.index) == Some(*x),
                None => selected_item(self.data@, self.index) is None,
            },
    {
        match self.index {
            Some(i) => if i < self.data.len() {
                Some(&self.data[i])
            } else {
                None
            },
            None => None,
        }
    }

    pub fn get(&self, i: usize) -> (r: Option<&T>)
        ensures
            match r {
                Some(x) => i < self.data@.len() && *x == self.data@[i as int],
                None => i >= self.data@.len(),
            },
    {
        if i < self.data.len() {
            Some(&self.data[i])
        } else {
            None
        }
    }

    /// Move the cursor up over the whole list, wrapping at the top.
    pub fn up(&mut self)
        requires
            can_step_up(old(self).index, old(self).data@.len() as usize),
        ensures
            final(self).index == step_up(old(self).index, old(self).data@.len() as usize),
            final(self).data@ == old(self).data@,
    {
        let len = self.data.len();
        self.up_with_len(len);
    }

    /// Move the cursor down over the whole list, wrapping at the end.
    pub fn down(&mut self)
        requires
            can_step_down(old(self).index),
        ensures
            final(self).index == step_down(old(self).index, old(self).data@.len() as usize),
            final(self).data@ == old(self).data@,
    {
        let len = self.data.len();
        self.down_with_len(len);
    }

    /// Move the cursor up in a list of `len` rows, wrapping at the top.
    pub fn up_with_len(&mut self, len: usize)
        requires
            can_step_up(old(self).index, len),
        ensures
            final(self).index == step_up(old(self).index, len),
            final(self).data@ == old(self).data@,
    {
        if let Some(i) = self.index {
            if i > 0 {
                self.index = Some(i - 1);
            } else {
                self.index = Some(len - 1);
            }
        }
    }

    /// Move the cursor down in a list of `len` rows, wrapping at the end.
    pub fn down_with_len(&mut self, len: usize)
        requires
            can_step_down(old(self).index),
        ensures
            final(self).index == step_down(old(self).index, len),
            final(self).data@ == old(self).data@,
    {
        if let Some(i) = self.index {
            if i + 1 < len {
                self.index = Some(i + 1);
            } else {
                self.index = Some(0);
            }
        }
    }

    /// Take out the item at `i`; the cursor stays where it was.
    pub fn remove(&mut self, i: usize) -> (r: T)
        requires
            i < old(self).data@.len(),
        ensures
            r == old(self).data@[i as int],
            final(self).data@ == old(self).data@.remove(i as int),
            final(self).index == old(self).index,
    {
        self.data.remove(i)
    }

    pub fn insert(&mut self, i: usize, item: T)
        requires
            i <= old(self).data@.len(),
        ensures
            final(self).data@ == old(self).data@.insert(i as int, item),
            final(self).index == old(self).index,
    {
        self.data.insert(i, item);
    }

    pub fn push(&mut self, item: T)
        ensures
            final(self).data@ == old(self).data@.push(item),
            final(self).index == old(self).index,
    {
        self.data.push(item);
    }

    /// Append items at the end; the cursor stays where it was.
    pub fn extend(&mut self, items: Vec<T>)
        ensures
            final(self).data@ == old(self).data@ + items@,
            final(self).index == old(self).index,
    {
        let mut items = items;
        self.data.append(&mut items);
    }

    /// Remove every item and the selection.
    pub fn clear(&mut self)
        ensures
            final(self).data@ == Seq::<T>::empty(),
            final(self).index is None,
    {
        self.data.clear();
        self.index = None;
    }
}

impl<T> Default for Index<T> {
    fn default() -> (r: Self)
        ensures
            r.data@ == Seq::<T>::empty(),
            r.index is None,
    {
        Index { data: Vec::new(), index: None }
    }
}

} // verus!
