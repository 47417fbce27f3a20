use vstd::prelude::*;

verus! {

/// Which screen of the terminal player has the keyboard.
#[derive(Debug, Clone, Copy, PartialEq, Eq, Structural)]
pub enum UiMode {
    Browser,
    Queue,
    Search,
}

/// Which column of the three-column browser is active.
#[derive(Debug, PartialEq, Eq, Structural)]
pub enum BrowserMode {
    Artist,
    Album,
    Song,
}

/// The column to the right, staying on the last one.
pub open spec fn browser_next(m: BrowserMode) -> BrowserMode {
    match m {
        BrowserMode::Artist => BrowserMode::Album,
        BrowserMode::Album => BrowserMode::Song,
        BrowserMode::Song => BrowserMode::Song,
    }
}

/// The column to the left, staying on the first one.
pub open spec fn browser_prev(m: BrowserMode) -> BrowserMode {
    match m {
        BrowserMode::Artist => BrowserMode::Artist,
        BrowserMode::Album => BrowserMode::Artist,
        BrowserMode::Song => BrowserMode::Album,
    }
}

impl BrowserMode {
    pub fn next(&mut self)
        ensures
            *final(self) == browser_next(*old(self)),
    {
        match self {
            BrowserMode::Artist => *self = BrowserMode::Album,
            BrowserMode::Album => *self = BrowserMode::Song,
            BrowserMode::Song => (),
        }
    }

    pub fn prev(&mut self)
        ensures
            *final(self) == browser_prev(*old(self)),
    {
        match self {
            BrowserMode::Artist => (),
            BrowserMode::Album => *self = BrowserMode::Artist,
            BrowserMode::Song => *self = BrowserMode::Album,
        }
    }
}

/// Whether the search screen is taking text or picking a result.
#[derive(Debug, PartialEq, Eq, Structural)]
pub enum SearchMode {
    Search,
    Select,
}

/// The other search mode.
pub open spec fn search_toggled(m: SearchMode) -> SearchMode {
    match m {
        SearchMode::Search => SearchMode::Select,
        SearchMode::Select => SearchMode::Search,
    }
}

impl SearchMode {
    pub fn next(&mut self)
        ensures
            *final(self) == search_toggled(*old(self)),
    {
        match self {
            SearchMode::Search => *self = SearchMode::Select,
            SearchMode::Select => *self = SearchMode::Search,
        }
    }

    pub fn reset(&mut self)
        ensures
            *final(self) == SearchMode::Search,
    {
        *self = SearchMode::Search;
    }
}

/// Going right and then left returns to the column one started in, unless
/// one started in the last column.
pub proof fn lemma_prev_undoes_next(m: BrowserMode)
    requires
        m != BrowserMode::Song,
    ensures
        browser_prev(browser_next(m)) == m,
{
}

/// Going left and then right returns to the column one started in, unless
/// one started in the first column.
pub proof fn lemma_next_undoes_prev(m: BrowserMode)
    requires
        m != BrowserMode::Artist,
    ensures
        browser_next(browser_prev(m)) == m,
{
}

/// Two moves to the right always end in the song column, and two moves to
/// the left always end in the artist column.
pub proof fn lemma_browser_ends(m: BrowserMode)
    ensures
        browser_next(browser_next(m)) == BrowserMode::Song,
        browser_prev(browser_prev(m)) == BrowserMode::Artist,
{
}

/// Toggling the search mode twice changes nothing.
pub proof fn lemma_search_toggle_involution(m: SearchMode)
    ensures
        search_toggled(search_toggled(m)) == m,
{
}

} // verus!
