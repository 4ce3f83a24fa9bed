//! Item-slot bookkeeping of the large-screen review backend.
//!
//! The device's review flow renders up to [`MAX_ITEMS`] title/message
//! pairs at once; this models the slot management — which slot is
//! current, when the slots are full, and how they are reset — that the
//! rendering calls rely on.

use vstd::prelude::*;

verus! {

/// Title buffer size, null terminator included.
pub const KEY_SIZE: usize = 64;

/// Message buffer size, null terminator included.
pub const MESSAGE_SIZE: usize = 4096;

/// How many title/message slots the screen offers.
pub const MAX_ITEMS: usize = 4;

/// One title/message slot.
pub struct Item {
    pub title: Vec<u8>,
    pub message: Vec<u8>,
}

impl Item {
    /// Both buffers at their fixed sizes.
    pub open spec fn wf(self) -> bool {
        self.title@.len() == KEY_SIZE && self.message@.len() == MESSAGE_SIZE
    }

    /// A fresh zero-filled slot.
    pub fn new() -> (r: Item)
        ensures
            r.wf(),
    {
        Item { title: zero_vec(KEY_SIZE), message: zero_vec(MESSAGE_SIZE) }
    }

    /// Empty the slot's strings by null-terminating them at the front.
    pub fn reset_contents(&mut self)
        requires
            old(self).wf(),
        ensures
            final(self).wf(),
            final(self).title@[0] == 0u8,
            final(self).message@[0] == 0u8,
            forall|i: int|
                1 <= i < KEY_SIZE ==> final(self).title@[i] == old(self).title@[i],
            forall|i: int|
                1 <= i < MESSAGE_SIZE ==> final(self).message@[i] == old(self).message@[i],
    {
        self.title.set(0, 0);
        self.message.set(0, 0);
    }
}

/// Slot state of the review backend: the item buffers, the index of the
/// slot being written, and the expert-mode flag.
pub struct StaxBackend {
    items: Vec<Item>,
    items_len: usize,
    viewable_size: usize,
    expert_mode: bool,
}

impl StaxBackend {
    /// The index of the slot being written.
    pub closed spec fn spec_items_len(self) -> nat {
        self.items_len as nat
    }

    /// The slots.
    pub closed spec fn spec_items(self) -> Seq<Item> {
        self.items@
    }

    /// Whether expert mode is on.
    pub closed spec fn spec_expert(self) -> bool {
        self.expert_mode
    }

    /// There are [`MAX_ITEMS`] well-formed slots, and the write index is
    /// at most one past the last.
    pub open spec fn wf(self) -> bool {
        &&& self.spec_items().len() == MAX_ITEMS
        &&& self.spec_items_len() <= MAX_ITEMS + 1
        &&& forall|i: int| 0 <= i < MAX_ITEMS ==> (#[trigger] self.spec_items()[i]).wf()
    }

    /// A fresh backend: zeroed slots, write index at the first.
    pub fn new() -> (r: StaxBackend)
        ensures
            r.wf(),
            r.spec_items_len() == 0,
            !r.spec_expert(),
    {
        let mut items: Vec<Item> = Vec::new();
        let mut i: usize = 0;
        while i < MAX_ITEMS
            invariant
                i <= MAX_ITEMS,
                items@.len() == i,
                forall|j: int| 0 <= j < i ==> (#[trigger] items@[j]).wf(),
            decreases MAX_ITEMS - i,
        {
            items.push(Item::new());
            i += 1;
        }
        StaxBackend { items, items_len: 0, viewable_size: 0, expert_mode: false }
    }

    /// Reset every slot and rewind the write index.
    pub fn reset_ui(&mut self)
        requires
            old(self).wf(),
        ensures
            final(self).wf(),
            final(self).spec_items_len() == 0,
            final(self).spec_expert() == old(self).spec_expert(),
    {
        let n = self.items.len();
        let mut i: usize = 0;
        while i < n
            invariant
                i <= n,
                n == self.items@.len() == MAX_ITEMS,
                self.items_len == old(self).items_len,
                self.expert_mode == old(self).expert_mode,
                forall|j: int| 0 <= j < n ==> (#[trigger] self.items@[j]).wf(),
            decreases n - i,
        {
            let mut item = self.items.remove(i);
            item.reset_contents();
            self.items.insert(i, item);
            i += 1;
        }
        self.items_len = 0;
    }

    /// Make `idx` the slot being written and reset it.
    pub fn set_item(&mut self, idx: usize)
        requires
            old(self).wf(),
            idx < MAX_ITEMS,
        ensures
            final(self).wf(),
            final(self).spec_items_len() == idx,
            final(self).spec_expert() == old(self).spec_expert(),
    {
        self.items_len = idx;
        let mut item = self.items.remove(idx);
        item.reset_contents();
        self.items.insert(idx, item);
    }

    /// Move the write index to the next slot; says whether a slot is
    /// still available there. The index saturates one past the last
    /// slot, so repeated calls keep reporting that the slots are full.
    pub fn advance_item(&mut self) -> (r: bool)
        requires
            old(self).wf(),
        ensures
            final(self).wf(),
            final(self).spec_items_len() == if old(self).spec_items_len() <= MAX_ITEMS {
                old(self).spec_items_len() + 1
            } else {
                old(self).spec_items_len()
            },
            r == (final(self).spec_items_len() < MAX_ITEMS),
            final(self).spec_expert() == old(self).spec_expert(),
    {
        if self.items_len <= MAX_ITEMS {
            self.items_len = self.items_len + 1;
        }
        self.items_len < self.items.len()
    }

    /// Borrow the slot being written, while one is available.
    pub fn current_item(&self) -> (r: Option<&Item>)
        requires
            self.wf(),
        ensures
            self.spec_items_len() < MAX_ITEMS <==> (r matches Some(item) && item
                == self.spec_items()[self.spec_items_len() as int]),
            self.spec_items_len() >= MAX_ITEMS <==> r is None,
    {
        if self.items_len < self.items.len() {
            Some(&self.items[self.items_len])
        } else {
            None
        }
    }

    /// Whether another item fits on the screen.
    pub fn can_fit_item(&self) -> (r: bool)
        requires
            self.wf(),
        ensures
            r == (self.spec_items_len() < MAX_ITEMS),
    {
        self.items_len < self.items.len()
    }

    /// Whether expert mode is on.
    pub fn expert(&self) -> (r: bool)
        ensures
            r == self.spec_expert(),
    {
        self.expert_mode
    }

    /// Toggle expert mode.
    pub fn toggle_expert(&mut self)
        ensures
            final(self).spec_expert() == !old(self).spec_expert(),
            final(self).spec_items() == old(self).spec_items(),
            final(self).spec_items_len() == old(self).spec_items_len(),
    {
        self.expert_mode = !self.expert_mode;
    }
}

/// A zero-filled byte vector of the given length.
fn zero_vec(n: usize) -> (r: Vec<u8>)
    ensures
        r@.len() == n,
        forall|i: int| 0 <= i < n ==> r@[i] == 0u8,
{
    let mut v: Vec<u8> = Vec::new();
    let mut i: usize = 0;
    while i < n
        invariant
            i <= n,
            v@.len() == i,
            forall|j: int| 0 <= j < i ==> v@[j] == 0u8,
        decreases n - i,
    {
        v.push(0);
        i += 1;
    }
    v
}

} // verus!
