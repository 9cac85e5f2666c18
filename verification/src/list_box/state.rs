//! The state behind a list pane: its items with their cursor, and whether
//! the pane is the active one.

use vstd::prelude::*;

use crate::stateful_list::{next_index, prev_index, StatefulList};

verus! {

/// The state a list pane is drawn from: the list with its cursor, and
/// whether this pane currently takes the navigation keys.
pub struct ListBoxState<T> {
    pub list: StatefulList<T>,
    pub active: bool,
}

impl<T> ListBoxState<T> {
    /// The item under the cursor, or `None` when the list is empty or the
    /// cursor points past its end.
    pub fn get_selected(&self) -> (r: Option<&T>)
        ensures
            r is Some <==> (self.list.state.selected is Some && self.list.state.selected->0
                < self.list.items.len()),
            r is Some ==> *r->0 == self.list.items[self.list.state.selected->0 as int],
    {
        self.list.get_selected()
    }

    /// Move the cursor one step backward, wrapping to the last item; on an
    /// empty list nothing changes.
    pub fn prev(&mut self)
        ensures
            final(self).active == old(self).active,
            final(self).list.items == old(self).list.items,
            old(self).list.items.len() == 0 ==> final(self).list.state == old(self).list.state,
            old(self).list.items.len() > 0 ==> final(self).list.state.selected == Some(
                (match old(self).list.state.selected {
                    Some(i) => prev_index(i as nat, old(self).list.items.len() as nat),
                    None => 0,
                }) as usize,
            ),
            old(self).list.wf() ==> final(self).list.wf(),
    {
        self.list.prev();
    }

    /// Move the cursor one step forward, wrapping to the first item; on an
    /// empty list nothing changes.
    pub fn next(&mut self)
        ensures
            final(self).active == old(self).active,
            final(self).list.items == old(self).list.items,
            old(self).list.items.len() == 0 ==> final(self).list.state == old(self).list.state,
            old(self).list.items.len() > 0 ==> final(self).list.state.selected == Some(
                (match old(self).list.state.selected {
                    Some(i) => next_index(i as nat, old(self).list.items.len() as nat),
                    None => 0,
                }) as usize,
            ),
            old(self).list.wf() ==> final(self).list.wf(),
    {
        self.list.next();
    }
}

impl<T> Default for ListBoxState<T> {
    /// An empty, active pane with no selection.
    fn default() -> (r: Self)
        ensures
            r.active == true,
            r.list.items.len() == 0,
            r.list.state.selected is None,
            r.list.wf(),
    {
        ListBoxState { list: Default::default(), active: true }
    }
}

} // verus!
