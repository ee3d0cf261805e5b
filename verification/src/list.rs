//! A navigable list: the items on display plus the cursor position.

use vstd::prelude::*;

verus! {

/// An ordered list of displayed items together with the selected position.
/// The cursor clamps at both ends instead of wrapping.
#[derive(Debug)]
pub struct StatefulList<T> {
    pub items: Vec<T>,
    pub selected: Option<usize>,
}

impl<T> StatefulList<T> {
    /// A selected position, when there is one, points into the items
    /// (position zero is also allowed while the list is empty).
    pub open spec fn wf(&self) -> bool {
        match self.selected {
            Some(i) => if self.items@.len() == 0 {
                i == 0
            } else {
                i < self.items@.len()
            },
            None => true,
        }
    }

    /// A fresh list over the given items, with nothing selected yet.
    pub fn with_items(items: Vec<T>) -> (r: StatefulList<T>)
        ensures
            r.items == items,
            r.selected is None,
            r.wf(),
    {
        StatefulList { items, selected: None }
    }

    /// Moves the cursor one position down, clamping at the last index.
    /// An unset cursor is repaired to the first position.
    pub fn next(&mut self)
        requires
            old(self).wf(),
        ensures
            final(self).wf(),
            final(self).items == old(self).items,
            final(self).selected == Some(
                match old(self).selected {
                    Some(i) => if old(self).items@.len() > 0 && i + 1 < old(self).items@.len() {
                        (i + 1) as usize
                    } else {
                        i
                    },
                    None => 0usize,
                },
            ),
    {
        let i = match self.selected {
            Some(i) => if self.items.len() > 0 && i + 1 < self.items.len() {
                i + 1
            } else {
                i
            },
            None => 0,
        };
        self.selected = Some(i);
    }

    /// Moves the cursor one position up, clamping at the first index.
    /// An unset cursor is repaired to the first position.
    pub fn previous(&mut self)
        requires
            old(self).wf(),
        ensures
            final(self).wf(),
            final(self).items == old(self).items,
            final(self).selected == Some(
                match old(self).selected {
                    Some(i) => if i > 0 {
                        (i - 1) as usize
                    } else {
                        0usize
                    },
                    None => 0usize,
                },
            ),
    {
        let i = match self.selected {
            Some(i) => if i > 0 {
                i - 1
            } else {
                0
            },
            None => 0,
        };
        self.selected = Some(i);
    }
}

} // verus!
