use vstd::prelude::*;

verus! {

/// Where a wrapping cursor moves on "up": one back, or to the last
/// position when it is already at the top.
pub open spec fn step_up(index: Option<usize>, len: usize) -> Option<usize> {
    match index {
        Some(i) => Some(if i > 0 { (i - 1) as usize } else { (len - 1) as usize }),
        None => None,
    }
}

/// Where a wrapping cursor moves on "down": one forward, or back to the
/// first position when the next one would fall off the end.
pub open spec fn step_down(index: Option<usize>, len: usize) -> Option<usize> {
    match index {
        Some(i) => Some(if i + 1 < len { (i + 1) as usize } else { 0usize }),
        None => None,
    }
}

/// "Up" is defined: a cursor at the top of an empty list cannot wrap.
pub open spec fn can_step_up(index: Option<usize>, len: usize) -> bool {
    index matches Some(i) ==> (i > 0 || len > 0)
}

/// "Down" is defined: the cursor can be incremented without overflow.
pub open spec fn can_step_down(index: Option<usize>) -> bool {
    index matches Some(i) ==> i < usize::MAX
}

/// An optional selection in a list whose length is supplied per call.
#[derive(Debug)]
pub struct Index {
    pub index: Option<usize>,
}

impl Index {
    pub fn new(index: Option<usize>) -> (r: Self)
        ensures
            r.index == index,
    {
        Self { index }
    }

    /// Move the selection one up, wrapping to `len - 1` from the top.
    pub fn up(&mut self, len: usize)
        requires
            can_step_up(old(self).index, len),
        ensures
            final(self).index == step_up(old(self).index, len),
    {
        if let Some(i) = self.index {
            if i > 0 {
                self.index = Some(i - 1);
            } else {
                self.index = Some(len - 1);
            }
        }
    }

    /// Move the selection one down, wrapping to `0` past the end.
    pub fn down(&mut self, len: usize)
        requires
            can_step_down(old(self).index),
        ensures
            final(self).index == step_down(old(self).index, len),
    {
        if let Some(i) = self.index {
            if i + 1 < len {
                self.index = Some(i + 1);
            } else {
                self.index = Some(0);
            }
        }
    }

    pub fn select(&mut self, i: Option<usize>)
        ensures
            final(self).index == i,
    {
        self.index = i;
    }

    pub fn is_none(&self) -> (r: bool)
        ensures
            r == (self.index is None),
    {
        self.index.is_none()
    }

    pub fn selected(&self) -> (r: Option<usize>)
        ensures
            r == self.index,
    {
        self.index
    }
}

impl Default for Index {
    fn default() -> (r: Self)
        ensures
            r.index is None,
    {
        Self { index: None }
    }
}


/// A cursor inside a list stays inside it after either move.
pub proof fn lemma_steps_stay_in_range(i: usize, len: usize)
    requires
        i < len,
    ensures
        step_up(Some(i), len) matches Some(j) && j < len,
        step_down(Some(i), len) matches Some(k) && k < len,
{
}

/// Moving down and then up returns a cursor inside the list to where it was.
pub proof fn lemma_up_undoes_down(i: usize, len: usize)
    requires
        i < len,
    ensures
        step_up(step_down(Some(i), len), len) == Some(i),
{
}

/// Moving up and then down returns a cursor inside the list to where it was.
pub proof fn lemma_down_undoes_up(i: usize, len: usize)
    requires
        i < len,
    ensures
        step_down(step_up(Some(i), len), len) == Some(i),
{
}

/// Without a selection, neither move selects anything.
pub proof fn lemma_no_selection_stays(len: usize)
    ensures
        step_up(None, len) is None,
        step_down(None, len) is None,
{
}

} // verus!
