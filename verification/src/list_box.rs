//! A bordered list pane: what it shows and how it is described for
//! drawing.

use vstd::prelude::*;

use core::marker::PhantomData;

pub mod state;

use state::ListBoxState;

verus! {

/// An item that can show itself as one line of a list pane.
pub trait ListItemProvider {
    /// The label in specifications.
    spec fn label_spec(&self) -> Seq<char>;

    /// The label shown for this item.
    fn as_str(&self) -> (r: &str)
        ensures
            r@ == self.label_spec(),
    ;
}

/// Which border a pane is drawn with: the active pane is set apart from
/// the inactive ones.
#[derive(Clone, Copy, PartialEq, Eq, Structural, Debug)]
pub enum BorderKind {
    Active,
    Inactive,
}

/// A declarative description of one list pane, ready to draw: its title,
/// its border, the item labels in order, and the selected row.
pub struct ListPane {
    pub title: &'static str,
    pub border: BorderKind,
    pub labels: Vec<String>,
    pub selected: Option<usize>,
}

/// A list pane by title, drawing items of one kind.
pub struct ListBox<T> {
    pub title: &'static str,
    pub phantom: PhantomData<T>,
}

impl<T> ListBox<T> {
    /// A pane with the given title.
    pub fn new(title: &'static str) -> (r: ListBox<T>)
        ensures
            r.title == title,
    {
        ListBox { title, phantom: PhantomData }
    }
}

impl<T: ListItemProvider> ListBox<T> {
    /// Describe this pane for drawing from its state: the border follows
    /// the active flag, the labels are the items' labels in order, and the
    /// selection is the cursor's.
    pub fn render_model(&self, state: &ListBoxState<T>) -> (r: ListPane)
        ensures
            r.title == self.title,
            r.border == (if state.active {
                BorderKind::Active
            } else {
                BorderKind::Inactive
            }),
            r.labels@.len() == state.list.items@.len(),
            forall|i: int|
                0 <= i < r.labels@.len() ==> r.labels@[i]@ == state.list.items@[i].label_spec(),
            r.selected == state.list.state.selected,
    {
        let border = if state.active {
            BorderKind::Active
        } else {
            BorderKind::Inactive
        };
        let mut labels: Vec<String> = Vec::new();
        let mut i: usize = 0;
        while i < state.list.items.len()
            invariant
                0 <= i <= state.list.items.len(),
                labels@.len() == i,
                forall|j: int|
                    0 <= j < i as int ==> labels@[j]@ == state.list.items@[j].label_spec(),
            decreases state.list.items.len() - i,
        {
            labels.push(state.list.items[i].as_str().to_owned());
            i = i + 1;
        }
        ListPane { title: self.title, border, labels, selected: state.list.state.selected() }
    }
}

} // verus!
