//! The search screen's state: the query being typed, whether it is being
//! typed or a result is being picked, and the results with their cursor.
use vstd::prelude::*;
use crate::gronk::index::{can_step_up, can_step_down, step_up, step_down};
use crate::mu_core::index::{Index, selected_item};
use crate::text::push_char;
use vstd::utf8::encode_utf8;

verus! {

/// Typing the query, or picking among the results.
#[derive(Debug, Clone, Copy, PartialEq, Eq, Structural)]
pub enum SearchMode {
    Search,
    Select,
}

impl SearchMode {
    /// Switch between typing and picking.
    pub fn next(&mut self)
        ensures
            *final(self) == (if *old(self) == SearchMode::Search { SearchMode::Select } else { SearchMode::Search }),
    {
        match self {
            SearchMode::Search => *self = SearchMode::Select,
            SearchMode::Select => *self = SearchMode::Search,
        }
    }

    /// Back to typing.
    pub fn reset(&mut self)
        ensures
            *final(self) == SearchMode::Search,
    {
        *self = SearchMode::Search;
    }
}

/// The search screen: the query, the query as it was before the last
/// keystroke, the mode and the results (of any item type).
#[derive(Debug)]
pub struct Search<T> {
    pub query: String,
    pub prev_query: String,
    pub mode: SearchMode,
    pub results: Index<T>,
}

impl<T> Search<T> {
    /// An empty search, typing.
    pub fn new() -> (r: Self)
        ensures
            r.query@.len() == 0,
            r.prev_query@.len() == 0,
            r.mode == SearchMode::Search,
            r.results.data@.len() == 0,
            r.results.index is None,
    {
        Search { query: String::new(), prev_query: String::new(), mode: SearchMode::Search, results: Index::default() }
    }

    /// Enter on the search screen: while typing, a non-empty search switches
    /// to picking with the first result under the cursor and gives nothing;
    /// while picking, the result under the cursor comes back.
    pub fn get_songs(&mut self) -> (r: Option<&T>)
        ensures
            old(self).mode == SearchMode::Search ==> {
                &&& r is None
                &&& old(self).results.data@.len() > 0 || old(self).query@.len() > 0 ==> final(self).mode == SearchMode::Select
                    && final(self).results.index == Some(0usize)
                &&& !(old(self).results.data@.len() > 0 || old(self).query@.len() > 0) ==> *final(self) == *old(self)
            },
            old(self).mode == SearchMode::Select ==> {
                &&& *final(self) == *old(self)
                &&& match r {
                    Some(x) => selected_item(old(self).results.data@, old(self).results.index) == Some(*x),
                    None => selected_item(old(self).results.data@, old(self).results.index) is None,
                }
            },
            final(self).query == old(self).query,
            final(self).results.data@ == old(self).results.data@,
    {
        if self.mode == SearchMode::Search {
            if !self.is_empty() {
                self.mode.next();
                self.results.select(Some(0));
            }
            None
        } else {
            self.results.selected()
        }
    }

    /// Replace the results with those of a new search.
    pub fn update_search(&mut self, results: Vec<T>)
        ensures
            final(self).results.data@ == results@,
            final(self).results.index == old(self).results.index,
            final(self).query == old(self).query,
            final(self).mode == old(self).mode,
    {
        self.results.data = results;
    }

    /// A typed character: while typing it joins the query (the old query is
    /// kept as the previous one); while picking, `k` and `j` move the cursor
    /// up and down.
    pub fn on_key(&mut self, c: char)
        requires
            old(self).mode == SearchMode::Select && c == 'k' ==> can_step_up(
                old(self).results.index,
                old(self).results.data@.len() as usize,
            ),
            old(self).mode == SearchMode::Select && c == 'j' ==> can_step_down(old(self).results.index),
        ensures
            final(self).mode == old(self).mode,
            final(self).results.data@ == old(self).results.data@,
            old(self).mode == SearchMode::Search ==> {
                &&& final(self).prev_query@ == old(self).query@
                &&& final(self).query@ == old(self).query@.push(c)
                &&& final(self).results.index == old(self).results.index
            },
            old(self).mode == SearchMode::Select ==> {
                &&& final(self).query == old(self).query
                &&& final(self).prev_query == old(self).prev_query
                &&& final(self).results.index == if c == 'k' {
                    step_up(old(self).results.index, old(self).results.data@.len() as usize)
                } else if c == 'j' {
                    step_down(old(self).results.index, old(self).results.data@.len() as usize)
                } else {
                    old(self).results.index
                }
            },
    {
        if self.mode == SearchMode::Search {
            self.prev_query = self.query.clone();
            push_char(&mut self.query, c);
        } else {
            if c == 'k' {
                self.results.up();
            } else if c == 'j' {
                self.results.down();
            }
        }
    }

    /// Leave the current mode and drop the cursor.
    pub fn exit(&mut self)
        ensures
            final(self).mode == (if old(self).mode == SearchMode::Search { SearchMode::Select } else { SearchMode::Search }),
            final(self).results.index is None,
            final(self).results.data@ == old(self).results.data@,
            final(self).query == old(self).query,
    {
        self.mode.next();
        self.results.select(None);
    }

    /// Back to typing, with no cursor.
    pub fn reset(&mut self)
        ensures
            final(self).mode == SearchMode::Search,
            final(self).results.index is None,
            final(self).results.data@ == old(self).results.data@,
            final(self).query == old(self).query,
    {
        self.mode.reset();
        self.results.select(None);
    }

    pub fn up(&mut self)
        requires
            can_step_up(old(self).results.index, old(self).results.data@.len() as usize),
        ensures
            final(self).results.index == step_up(old(self).results.index, old(self).results.data@.len() as usize),
            final(self).results.data@ == old(self).results.data@,
            final(self).query == old(self).query,
            final(self).mode == old(self).mode,
    {
        self.results.up();
    }

    pub fn down(&mut self)
        requires
            can_step_down(old(self).results.index),
        ensures
            final(self).results.index == step_down(old(self).results.index, old(self).results.data@.len() as usize),
            final(self).results.data@ == old(self).results.data@,
            final(self).query == old(self).query,
            final(self).mode == old(self).mode,
    {
        self.results.down();
    }

    /// Backspace: while typing, Ctrl clears the query and otherwise the last
    /// character goes; while picking, it leaves picking.
    pub fn on_backspace(&mut self, control: bool)
        ensures
            old(self).mode == SearchMode::Search ==> {
                &&& final(self).query@ == if control {
                    Seq::<char>::empty()
                } else if old(self).query@.len() > 0 {
                    old(self).query@.drop_last()
                } else {
                    old(self).query@
                }
                &&& final(self).mode == SearchMode::Search
                &&& final(self).results.index == old(self).results.index
            },
            old(self).mode == SearchMode::Select ==> {
                &&& final(self).mode == SearchMode::Search
                &&& final(self).results.index is None
                &&& final(self).query == old(self).query
            },
            final(self).results.data@ == old(self).results.data@,
    {
        if self.mode == SearchMode::Search {
            if control {
                self.query = String::new();
            } else {
                let n = self.query.unicode_len();
                if n > 0 {
                    let kept = self.query.as_str().substring_char(0, n - 1).to_owned();
                    self.query = kept;
                }
            }
        } else {
            self.exit();
        }
    }

    /// Whether the query changed since this was last asked (or since the
    /// last keystroke); the answer also records the query as seen.
    pub fn has_query_changed(&mut self) -> (r: bool)
        ensures
            r == (old(self).query@ != old(self).prev_query@),
            final(self).prev_query@ == old(self).query@,
            final(self).query == old(self).query,
            final(self).mode == old(self).mode,
            final(self).results == old(self).results,
    {
        if self.query != self.prev_query {
            self.prev_query = self.query.clone();
            true
        } else {
            false
        }
    }

    /// Whether there is neither a cursor nor a query.
    pub fn empty_cursor(&self) -> (r: bool)
        ensures
            r == (self.results.index is None && self.query@.len() == 0),
    {
        self.results.is_none() && self.query.unicode_len() == 0
    }

    /// Whether the text cursor shows: while typing.
    pub fn show_cursor(&self) -> (r: bool)
        ensures
            r == (self.mode == SearchMode::Search),
    {
        match self.mode {
            SearchMode::Search => true,
            SearchMode::Select => false,
        }
    }

    /// Whether there are neither results nor a query.
    pub fn is_empty(&self) -> (r: bool)
        ensures
            r == (self.results.data@.len() == 0 && self.query@.len() == 0),
    {
        self.results.is_empty() && self.query.unicode_len() == 0
    }

    /// The query's length in bytes, cut to 16 bits.
    pub fn query_len(&self) -> (r: u16)
        ensures
            r == (encode_utf8(self.query@).len() as usize) as u16,
    {
        self.query.as_str().len() as u16
    }

    pub fn get_query(&self) -> (r: String)
        ensures
            r@ == self.query@,
    {
        self.query.clone()
    }

    pub fn results(&self) -> (r: &Vec<T>)
        ensures
            r@ == self.results.data@,
    {
        &self.results.data
    }

    pub fn selected(&self) -> (r: Option<usize>)
        ensures
            r == self.results.index,
    {
        self.results.index()
    }
}

} // verus!
