use vstd::prelude::*;

verus! {

/// Which item of a list is selected, if any.
#[derive(Debug, Clone, Copy, PartialEq, Eq, Structural)]
pub struct ListState {
    pub selected: Option<usize>,
}

impl ListState {
    pub fn new() -> (r: ListState)
        ensures
            r.selected is None,
    {
        ListState { selected: None }
    }

    pub fn selected(&self) -> (r: Option<usize>)
        ensures
            r == self.selected,
    {
        self.selected
    }

    pub fn select(&mut self, index: Option<usize>)
        ensures
            final(self).selected == index,
    {
        self.selected = index;
    }
}

/// A list of items with a selection that moves through it, wrapping round at
/// its ends.
pub struct StatefulList<T> {
    pub state: ListState,
    pub items: Vec<T>,
}

/// The index that moving `delta` places from `selected` leads to in a list of
/// `n` items: moving past the end leads to the first item, moving before the
/// start counts back from the end (to the first item at most), and with no
/// selection it is the first item.
pub open spec fn advanced_index(selected: Option<usize>, n: int, delta: int) -> int {
    let i = match selected {
        Some(s) => if s >= n - delta {
            0
        } else {
            s + delta
        },
        None => 0,
    };
    if i < 0 {
        if n + i > 0 {
            n + i
        } else {
            0
        }
    } else {
        i
    }
}

impl<T> StatefulList<T> {
    pub fn new() -> (r: StatefulList<T>)
        ensures
            r.state.selected is None,
            r.items@.len() == 0,
    {
        StatefulList { state: ListState::new(), items: Vec::new() }
    }

    pub fn with_items(items: Vec<T>) -> (r: StatefulList<T>)
        ensures
            r.state.selected is None,
            r.items@ == items@,
    {
        StatefulList { state: ListState::new(), items }
    }

    /// Moves the selection `delta` places (see `advanced_index`).
    pub fn advance_by(&mut self, delta: i32)
        ensures
            final(self).items@ == old(self).items@,
            final(self).state.selected == Some(
                advanced_index(
                    old(self).state.selected,
                    old(self).items@.len() as int,
                    delta as int,
                ) as usize,
            ),
            0 <= advanced_index(old(self).state.selected, old(self).items@.len() as int, delta as int),
    {
        let n = self.items.len() as i128;
        let d = delta as i128;
        let i: i128 = match self.state.selected {
            Some(s) => if s as i128 >= n - d {
                0
            } else {
                s as i128 + d
            },
            None => 0,
        };
        let clamped: i128 = if i < 0 {
            if n + i > 0 {
                n + i
            } else {
                0
            }
        } else {
            i
        };
        self.state.select(Some(clamped as usize));
    }

    pub fn next(&mut self)
        ensures
            final(self).items@ == old(self).items@,
            final(self).state.selected == Some(
                advanced_index(old(self).state.selected, old(self).items@.len() as int, 1) as usize,
            ),
    {
        self.advance_by(1)
    }

    pub fn next_page(&mut self, height: i32)
        ensures
            final(self).items@ == old(self).items@,
            final(self).state.selected == Some(
                advanced_index(
                    old(self).state.selected,
                    old(self).items@.len() as int,
                    height as int,
                ) as usize,
            ),
    {
        self.advance_by(height)
    }

    pub fn previous(&mut self)
        ensures
            final(self).items@ == old(self).items@,
            final(self).state.selected == Some(
                advanced_index(old(self).state.selected, old(self).items@.len() as int, -1) as usize,
            ),
    {
        self.advance_by(-1)
    }

    pub fn previous_page(&mut self, height: i32)
        requires
            height > i32::MIN,
        ensures
            final(self).items@ == old(self).items@,
            final(self).state.selected == Some(
                advanced_index(
                    old(self).state.selected,
                    old(self).items@.len() as int,
                    -height,
                ) as usize,
            ),
    {
        self.advance_by(-height)
    }

    pub fn unselect(&mut self)
        ensures
            final(self).items@ == old(self).items@,
            final(self).state.selected is None,
    {
        self.state.select(None);
    }
}

} // verus!
