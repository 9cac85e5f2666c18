//! A list of items paired with a cyclic selection cursor.

use vstd::prelude::*;

verus! {

/// The position of the selection in a list: `None` exactly when the list is
/// empty, otherwise an index into the list.
pub struct SelectionCursor {
    pub selected: Option<usize>,
}

impl SelectionCursor {
    /// The currently selected index, if any.
    pub fn selected(&self) -> (r: Option<usize>)
        ensures
            r == self.selected,
    {
        self.selected
    }

    /// Move the cursor to the given position.
    pub fn select(&mut self, index: Option<usize>)
        ensures
            final(self).selected == index,
    {
        self.selected = index;
    }
}

/// The index reached from `i` by one backward step over a list of `n`
/// items, wrapping from the first item to the last.
pub open spec fn prev_index(i: nat, n: nat) -> nat {
    if i == 0 {
        (n - 1) as nat
    } else {
        (i - 1) as nat
    }
}

/// The index reached from `i` by one forward step over a list of `n`
/// items, wrapping from the last item to the first.
pub open spec fn next_index(i: nat, n: nat) -> nat {
    if i + 1 >= n {
        0
    } else {
        i + 1
    }
}

/// The index reached from `i` by `k` forward steps over a list of `n` items.
pub open spec fn next_index_iter(i: nat, n: nat, k: nat) -> nat
    decreases k,
{
    if k == 0 {
        i
    } else {
        next_index(next_index_iter(i, n, (k - 1) as nat), n)
    }
}

/// An ordered list of items together with its selection cursor.
pub struct StatefulList<T> {
    pub state: SelectionCursor,
    pub items: Vec<T>,
}

impl<T> StatefulList<T> {
    /// The cursor points inside the list, and is absent exactly when the
    /// list is empty.
    pub open spec fn wf(&self) -> bool {
        match self.state.selected {
            None => self.items.len() == 0,
            Some(i) => i < self.items.len(),
        }
    }

    /// The item under the cursor, or `None` when the list is empty or the
    /// cursor points past its end.
    pub fn get_selected(&self) -> (r: Option<&T>)
        ensures
            r is Some <==> (self.state.selected is Some && self.state.selected->0
                < self.items.len()),
            r is Some ==> *r->0 == self.items[self.state.selected->0 as int],
    {
        match self.state.selected() {
            Some(i) => {
                if i < self.items.len() {
                    Some(&self.items[i])
                } else {
                    None
                }
            },
            None => None,
        }
    }

    /// Move the cursor one step backward, wrapping to the last item; on an
    /// empty list nothing changes.
    pub fn prev(&mut self)
        ensures
            final(self).items == old(self).items,
            old(self).items.len() == 0 ==> final(self).state == old(self).state,
            old(self).items.len() > 0 ==> final(self).state.selected == Some(
                (match old(self).state.selected {
                    Some(i) => prev_index(i as nat, old(self).items.len() as nat),
                    None => 0,
                }) as usize,
            ),
            old(self).wf() ==> final(self).wf(),
    {
        if self.items.len() == 0 {
            return ;
        }
        let i: usize = match self.state.selected() {
            Some(i) => {
                if i == 0 {
                    self.items.len() - 1
                } else {
                    i - 1
                }
            },
            None => 0,
        };
        self.state.select(Some(i));
    }

    /// Move the cursor one step forward, wrapping to the first item; on an
    /// empty list nothing changes.
    pub fn next(&mut self)
        ensures
            final(self).items == old(self).items,
            old(self).items.len() == 0 ==> final(self).state == old(self).state,
            old(self).items.len() > 0 ==> final(self).state.selected == Some(
                (match old(self).state.selected {
                    Some(i) => next_index(i as nat, old(self).items.len() as nat),
                    None => 0,
                }) as usize,
            ),
            old(self).wf() ==> final(self).wf(),
    {
        if self.items.len() == 0 {
            return ;
        }
        let i: usize = match self.state.selected() {
            Some(i) => {
                if i >= self.items.len() - 1 {
                    0
                } else {
                    i + 1
                }
            },
            None => 0,
        };
        self.state.select(Some(i));
    }

    /// Replace the items and re-establish the cursor: an empty list clears
    /// the selection, a cursor that would point past the new end moves to
    /// the first item, and an in-range cursor is kept.
    pub fn set_items(&mut self, items: Vec<T>)
        ensures
            final(self).items == items,
            final(self).wf(),
            final(self).state.selected == (if items.len() == 0 {
                None::<usize>
            } else {
                match old(self).state.selected {
                    Some(i) => if i < items.len() {
                        Some(i)
                    } else {
                        Some(0usize)
                    },
                    None => Some(0usize),
                }
            }),
    {
        self.items = items;
        if self.items.len() == 0 {
            self.state.select(None);
        } else {
            match self.state.selected() {
                Some(i) => {
                    if i >= self.items.len() {
                        self.state.select(Some(0));
                    }
                },
                None => {
                    self.state.select(Some(0));
                },
            }
        }
    }
}

impl<T> Default for StatefulList<T> {
    /// An empty list with no selection.
    fn default() -> (r: Self)
        ensures
            r.items.len() == 0,
            r.state.selected is None,
            r.wf(),
    {
        StatefulList { state: SelectionCursor { selected: None }, items: Vec::new() }
    }
}

/// Stepping forward never leaves the list: from an in-range index, the next
/// index is in range, and so is the previous one.
pub proof fn lemma_step_in_range(i: nat, n: nat)
    requires
        i < n,
    ensures
        next_index(i, n) < n,
        prev_index(i, n) < n,
{
}

/// `k` forward steps from `i` over `n` items land on `(i + k) % n`.
pub proof fn lemma_next_index_iter_mod(i: nat, n: nat, k: nat)
    requires
        0 < n,
        i < n,
    ensures
        next_index_iter(i, n, k) == ((i + k) as int) % (n as int),
    decreases k,
{
    let ni: int = n as int;
    if k == 0 {
        vstd::arithmetic::div_mod::lemma_small_mod(i, n);
    } else {
        lemma_next_index_iter_mod(i, n, (k - 1) as nat);
        let prev = next_index_iter(i, n, (k - 1) as nat);
        assert(prev == ((i + k - 1) as int) % ni);
        vstd::arithmetic::div_mod::lemma_mod_bound((i + k - 1) as int, ni);
        assert(next_index(prev, n) == ((prev + 1) as int) % ni) by {
            if prev + 1 >= n {
                assert(prev + 1 == n);
                vstd::arithmetic::div_mod::lemma_mod_self_0(ni);
            } else {
                vstd::arithmetic::div_mod::lemma_small_mod((prev + 1) as nat, n);
            }
        }
        assert(((prev + 1) as int) % ni == ((i + k) as int) % ni) by {
            vstd::arithmetic::div_mod::lemma_add_mod_noop((i + k - 1) as int, 1, ni);
            vstd::arithmetic::div_mod::lemma_mod_twice((i + k - 1) as int, ni);
            if n == 1 {
                vstd::arithmetic::div_mod::lemma_mod_bound(1, ni);
            } else {
                vstd::arithmetic::div_mod::lemma_small_mod(1nat, n);
            }
        }
    }
}

/// Cyclicity of the cursor: stepping forward once per item returns to the
/// starting index.
pub proof fn lemma_next_full_cycle(i: nat, n: nat)
    requires
        0 < n,
        i < n,
    ensures
        next_index_iter(i, n, n) == i,
{
    lemma_next_index_iter_mod(i, n, n);
    vstd::arithmetic::div_mod::lemma_mod_add_multiples_vanish(i as int, n as int);
    assert(((i + n) as int) % (n as int) == (i as int) % (n as int));
    vstd::arithmetic::div_mod::lemma_small_mod(i, n);
}

} // verus!
