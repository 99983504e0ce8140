//! An ordered, append-only collection of items with a single movable focus
//! cursor: wraparound `next`/`prev`, indexed access, and iteration in
//! insertion order independent of the focus.

use vstd::arithmetic::div_mod::{
    lemma_add_mod_noop, lemma_mod_add_multiples_vanish, lemma_mod_bound, lemma_mod_self_0,
    lemma_mod_sub_multiples_vanish, lemma_small_mod, lemma_sub_mod_noop,
};
use vstd::prelude::*;

verus! {

/// Focus index after one step forward, wrapping around modulo the length.
pub open spec fn next_focus(i: int, len: int) -> int {
    (i + 1) % len
}

/// Focus index after one step backward, wrapping around at zero.
pub open spec fn prev_focus(i: int, len: int) -> int {
    if i == 0 {
        len - 1
    } else {
        i - 1
    }
}

/// Focus index after `n` forward steps.
pub open spec fn next_focus_n(i: int, n: nat, len: int) -> int
    decreases n,
{
    if n == 0 {
        i
    } else {
        next_focus(next_focus_n(i, (n - 1) as nat, len), len)
    }
}

/// Focus index after `n` backward steps.
pub open spec fn prev_focus_n(i: int, n: nat, len: int) -> int
    decreases n,
{
    if n == 0 {
        i
    } else {
        prev_focus(prev_focus_n(i, (n - 1) as nat, len), len)
    }
}

proof fn lemma_next_focus_n_adds(i: int, n: nat, len: int)
    requires
        0 <= i < len,
    ensures
        next_focus_n(i, n, len) == (i + n) % len,
    decreases n,
{
    if n == 0 {
        lemma_small_mod(i as nat, len as nat);
    } else {
        lemma_next_focus_n_adds(i, (n - 1) as nat, len);
        if len == 1 {
            lemma_mod_bound(i + n - 1, 1);
            lemma_mod_bound((i + n - 1) % 1 + 1, 1);
            lemma_mod_bound(i + n, 1);
        } else {
            lemma_small_mod(1, len as nat);
            lemma_add_mod_noop(i + n - 1, 1, len);
        }
    }
}

proof fn lemma_prev_focus_is_mod(i: int, len: int)
    requires
        0 <= i < len,
    ensures
        prev_focus(i, len) == (i - 1) % len,
{
    if i == 0 {
        lemma_small_mod((len - 1) as nat, len as nat);
        lemma_mod_sub_multiples_vanish(len - 1, len);
    } else {
        lemma_small_mod((i - 1) as nat, len as nat);
    }
}

proof fn lemma_prev_focus_n_subs(i: int, n: nat, len: int)
    requires
        0 <= i < len,
    ensures
        prev_focus_n(i, n, len) == (i - n) % len,
    decreases n,
{
    if n == 0 {
        lemma_small_mod(i as nat, len as nat);
    } else {
        lemma_prev_focus_n_subs(i, (n - 1) as nat, len);
        let j = (i - (n - 1)) % len;
        lemma_mod_bound(i - (n - 1), len);
        lemma_prev_focus_is_mod(j, len);
        if len == 1 {
            lemma_mod_bound(j - 1, 1);
            lemma_mod_bound(i - n, 1);
        } else {
            lemma_small_mod(1, len as nat);
            lemma_sub_mod_noop(i - (n - 1), 1, len);
        }
    }
}

/// Law: from any valid focus in a non-empty list, stepping forward once per
/// item returns the focus to where it began; stepping backward once per item
/// does likewise; and one forward step followed by one backward step (or the
/// reverse) leaves the focus unchanged.
pub proof fn lemma_focus_cycle(i: int, len: int)
    requires
        0 <= i < len,
    ensures
        next_focus_n(i, len as nat, len) == i,
        prev_focus_n(i, len as nat, len) == i,
        prev_focus(next_focus(i, len), len) == i,
        next_focus(prev_focus(i, len), len) == i,
{
    lemma_next_focus_n_adds(i, len as nat, len);
    lemma_mod_add_multiples_vanish(i, len);
    lemma_mod_sub_multiples_vanish(i, len);
    lemma_small_mod(i as nat, len as nat);
    lemma_prev_focus_n_subs(i, len as nat, len);
    if i == len - 1 {
        lemma_mod_self_0(len);
    } else {
        lemma_small_mod((i + 1) as nat, len as nat);
    }
    if i == 0 {
        lemma_mod_self_0(len);
    } else {
        lemma_small_mod(i as nat, len as nat);
    }
}

/// An ordered sequence of items plus one focus cursor into it. Items are
/// only ever appended, so an item's index never changes.
pub struct List<T> {
    items: Vec<T>,
    index: usize,
}

impl<T> View for List<T> {
    type V = Seq<T>;

    closed spec fn view(&self) -> Seq<T> {
        self.items@
    }
}

impl<T> List<T> {
    /// The current focus index.
    pub closed spec fn focus(&self) -> int {
        self.index as int
    }

    /// The focus cursor is a valid index whenever the list is non-empty,
    /// and rests at zero while the list is empty.
    pub open spec fn wf(&self) -> bool {
        if self@.len() == 0 {
            self.focus() == 0
        } else {
            0 <= self.focus() < self@.len()
        }
    }

    /// Creates an empty list with the focus at zero.
    pub fn new() -> (r: Self)
        ensures
            r@ == Seq::<T>::empty(),
            r.focus() == 0,
            r.wf(),
    {
        Self { items: Vec::new(), index: 0 }
    }

    /// The item at `index`, or `None` past the end. Independent of the focus.
    pub fn get(&self, index: usize) -> (r: Option<&T>)
        ensures
            index < self@.len() ==> (r matches Some(item) && *item == self@[index as int]),
            index >= self@.len() ==> r is None,
    {
        if index < self.items.len() {
            Some(&self.items[index])
        } else {
            None
        }
    }

    /// A mutable borrow of the item at `index`, or `None` past the end.
    /// Neither the length nor the focus moves.
    pub fn get_mut(&mut self, index: usize) -> (r: Option<&mut T>)
        ensures
            old(self)@.len() == final(self)@.len(),
            final(self).focus() == old(self).focus(),
            index < old(self)@.len() ==> (r matches Some(item) && *item == old(self)@[index as int]
                && final(self)@ == old(self)@.update(index as int, *final(item))),
            index >= old(self)@.len() ==> r is None && final(self)@ == old(self)@,
    {
        if index < self.items.len() {
            Some(&mut self.items[index])
        } else {
            None
        }
    }

    /// Appends an item; the focus does not move, and no existing index
    /// changes.
    pub fn add(&mut self, item: T)
        requires
            old(self)@.len() < usize::MAX,
        ensures
            final(self)@ == old(self)@.push(item),
            final(self).focus() == old(self).focus(),
            old(self).wf() ==> final(self).wf(),
    {
        self.items.push(item);
    }

    /// Moves the focus one step forward with wraparound; a no-op on an
    /// empty list.
    pub fn next(&mut self)
        requires
            old(self).wf(),
        ensures
            final(self)@ == old(self)@,
            final(self).wf(),
            old(self)@.len() == 0 ==> final(self).focus() == old(self).focus(),
            old(self)@.len() > 0 ==> final(self).focus() == next_focus(
                old(self).focus(),
                old(self)@.len() as int,
            ),
    {
        if self.items.len() > 0 {
            self.index = (self.index + 1) % self.items.len();
        }
    }

    /// Moves the focus one step backward with wraparound; a no-op on an
    /// empty list.
    pub fn prev(&mut self)
        requires
            old(self).wf(),
        ensures
            final(self)@ == old(self)@,
            final(self).wf(),
            old(self)@.len() == 0 ==> final(self).focus() == old(self).focus(),
            old(self)@.len() > 0 ==> final(self).focus() == prev_focus(
                old(self).focus(),
                old(self)@.len() as int,
            ),
    {
        if self.items.len() > 0 {
            if self.index == 0 {
                self.index = self.items.len() - 1;
            } else {
                self.index = self.index - 1;
            }
        }
    }

    /// The focused item. The list must be non-empty.
    pub fn focused(&self) -> (r: &T)
        requires
            self.wf(),
            self@.len() > 0,
        ensures
            *r == self@[self.focus()],
    {
        &self.items[self.index]
    }

    /// A mutable borrow of the focused item. The list must be non-empty;
    /// the length and the focus do not change.
    pub fn focused_mut(&mut self) -> (r: &mut T)
        requires
            old(self).wf(),
            old(self)@.len() > 0,
        ensures
            *r == old(self)@[old(self).focus()],
            final(self)@ == old(self)@.update(old(self).focus(), *final(r)),
            final(self).focus() == old(self).focus(),
    {
        let i = self.index;
        &mut self.items[i]
    }

    /// The focus index as a plain value.
    pub fn focus_index(&self) -> (i: usize)
        ensures
            i as int == self.focus(),
    {
        self.index
    }

    /// All items in insertion order, independent of the focus.
    pub fn iter(&self) -> (r: &Vec<T>)
        ensures
            r@ == self@,
    {
        &self.items
    }

    /// Mutable access to all items in insertion order. The focus does not
    /// move; the caller is responsible for keeping the length unchanged if
    /// it relies on `wf`.
    pub fn iter_mut(&mut self) -> (r: &mut Vec<T>)
        ensures
            r@ == old(self)@,
            final(self)@ == final(r)@,
            final(self).focus() == old(self).focus(),
    {
        &mut self.items
    }
}

impl<T> Default for List<T> {
    /// An empty list with the focus at zero.
    fn default() -> (r: Self)
        ensures
            r@ == Seq::<T>::empty(),
            r.focus() == 0,
            r.wf(),
    {
        List::new()
    }
}

} // verus!
