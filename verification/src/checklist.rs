//! The reorderable checklist that accompanies the timer.
//!
//! A [`Checklist`] is an ordered list of entries, each with a stable
//! identifier, a description and a completion flag. Entries are addressed by
//! identifier when edited and by position when reordered, exactly the two
//! access paths a list widget needs. Identifiers are handed out by an
//! ever-growing counter, so they are unique for the life of the list.

use vstd::prelude::*;
use vstd::string::StrSliceExecFns;

verus! {

/// An ASCII whitespace character: space, tab, line feed or carriage return.
pub open spec fn is_space(c: char) -> bool {
    c == ' ' || c == '\t' || c == '\n' || c == '\r'
}

/// Text that holds nothing visible: every character is whitespace. Empty
/// text is blank.
pub open spec fn blank(s: Seq<char>) -> bool {
    forall|i: int| 0 <= i < s.len() ==> is_space(#[trigger] s[i])
}

/// Whether `s` is blank: empty or whitespace throughout.
fn is_blank(s: &str) -> (b: bool)
    ensures
        b == blank(s@),
{
    let n = s.unicode_len();
    let mut i: usize = 0;
    while i < n
        invariant
            n == s@.len(),
            i <= n,
            forall|k: int| 0 <= k < i ==> is_space(#[trigger] s@[k]),
        decreases n - i,
    {
        let c = s.get_char(i);
        if !(c == ' ' || c == '\t' || c == '\n' || c == '\r') {
            return false;
        }
        i = i + 1;
    }
    true
}

/// One checklist entry.
pub struct ChecklistItem {
    /// Stable identifier, unique within its checklist.
    pub id: u64,
    /// The entry's text.
    pub description: String,
    /// Whether the entry has been checked off.
    pub completed: bool,
}

/// No two positions hold the same identifier.
pub open spec fn distinct_ids(s: Seq<ChecklistItem>) -> bool {
    forall|i: int, j: int|
        #![trigger s[i].id, s[j].id]
        0 <= i < j < s.len() ==> s[i].id != s[j].id
}

/// Every identifier is below `bound`.
pub open spec fn ids_below(s: Seq<ChecklistItem>, bound: int) -> bool {
    forall|i: int| 0 <= i < s.len() ==> #[trigger] s[i].id < bound
}

/// An ordered list of entries with stable, unique identifiers.
pub struct Checklist {
    items: Vec<ChecklistItem>,
    next_id: u64,
}

impl View for Checklist {
    type V = Seq<ChecklistItem>;

    closed spec fn view(&self) -> Seq<ChecklistItem> {
        self.items@
    }
}

impl Checklist {
    /// The identifier the next added entry will receive.
    pub closed spec fn spec_next_id(&self) -> u64 {
        self.next_id
    }

    /// Well-formedness: identifiers are pairwise distinct and all below the
    /// counter that mints the next one.
    pub open spec fn wf(&self) -> bool {
        &&& distinct_ids(self@)
        &&& ids_below(self@, self.spec_next_id() as int)
    }

    /// An empty checklist.
    pub fn new() -> (c: Self)
        ensures
            c.wf(),
            c@ == Seq::<ChecklistItem>::empty(),
            c.spec_next_id() == 0,
    {
        Checklist { items: Vec::new(), next_id: 0 }
    }

    /// The number of entries.
    pub fn len(&self) -> (n: usize)
        ensures
            n == self@.len(),
    {
        self.items.len()
    }

    /// The entry at position `i`.
    pub fn get(&self, i: usize) -> (it: &ChecklistItem)
        requires
            i < self@.len(),
        ensures
            *it == self@[i as int],
    {
        &self.items[i]
    }

    /// The position of the entry with identifier `id`, if there is one.
    pub fn find(&self, id: u64) -> (r: Option<usize>)
        requires
            self.wf(),
        ensures
            match r {
                Some(i) => i < self@.len() && self@[i as int].id == id,
                None => forall|k: int| 0 <= k < self@.len() ==> #[trigger] self@[k].id != id,
            },
    {
        let n = self.items.len();
        let mut i: usize = 0;
        while i < n
            invariant
                n == self@.len(),
                i <= n,
                forall|k: int| 0 <= k < i ==> #[trigger] self@[k].id != id,
            decreases n - i,
        {
            if self.items[i].id == id {
                return Some(i);
            }
            i = i + 1;
        }
        None
    }

    /// Append a new, unchecked entry with the given description and a fresh
    /// identifier. A blank description (empty or whitespace throughout) is
    /// ignored: nothing is added. The text is stored as given; a host that
    /// wants surrounding whitespace gone trims before calling.
    pub fn add(&mut self, description: String)
        requires
            old(self).wf(),
            old(self).spec_next_id() < u64::MAX,
        ensures
            final(self).wf(),
            blank(description@) ==> final(self)@ == old(self)@ && final(self).spec_next_id()
                == old(self).spec_next_id(),
            !blank(description@) ==> final(self)@ == old(self)@.push(
                ChecklistItem { id: old(self).spec_next_id(), description, completed: false },
            ) && final(self).spec_next_id() == old(self).spec_next_id() + 1,
    {
        if !is_blank(description.as_str()) {
            let id = self.next_id;
            self.next_id = self.next_id + 1;
            self.items.push(ChecklistItem { id, description, completed: false });
        }
    }

    /// Check or uncheck the entry with identifier `id`; without such an
    /// entry, nothing changes. Order, texts and identifiers are untouched.
    pub fn set_completed(&mut self, id: u64, done: bool)
        requires
            old(self).wf(),
        ensures
            final(self).wf(),
            final(self).spec_next_id() == old(self).spec_next_id(),
            final(self)@.len() == old(self)@.len(),
            forall|k: int|
                0 <= k < old(self)@.len() ==> #[trigger] final(self)@[k].id == old(self)@[k].id
                    && final(self)@[k].description == old(self)@[k].description
                    && final(self)@[k].completed == (if old(self)@[k].id == id {
                    done
                } else {
                    old(self)@[k].completed
                }),
    {
        if let Some(i) = self.find(id) {
            let it = &mut self.items[i];
            it.completed = done;
        }
    }

    /// Replace the text of the entry with identifier `id`; without such an
    /// entry, nothing changes. Order, flags and identifiers are untouched.
    pub fn set_description(&mut self, id: u64, text: String)
        requires
            old(self).wf(),
        ensures
            final(self).wf(),
            final(self).spec_next_id() == old(self).spec_next_id(),
            final(self)@.len() == old(self)@.len(),
            forall|k: int|
                0 <= k < old(self)@.len() ==> #[trigger] final(self)@[k].id == old(self)@[k].id
                    && final(self)@[k].completed == old(self)@[k].completed
                    && final(self)@[k].description == (if old(self)@[k].id == id {
                    text
                } else {
                    old(self)@[k].description
                }),
    {
        if let Some(i) = self.find(id) {
            let it = &mut self.items[i];
            it.description = text;
        }
    }

    /// Drop the entry with identifier `id`; without such an entry, nothing
    /// changes.
    pub fn remove(&mut self, id: u64)
        requires
            old(self).wf(),
        ensures
            final(self).wf(),
            final(self).spec_next_id() == old(self).spec_next_id(),
            (forall|k: int| 0 <= k < old(self)@.len() ==> #[trigger] old(self)@[k].id != id)
                ==> final(self)@ == old(self)@,
            forall|i: int|
                0 <= i < old(self)@.len() && #[trigger] old(self)@[i].id == id ==> final(self)@
                    == old(self)@.remove(i),
    {
        if let Some(i) = self.find(id) {
            self.items.remove(i);
            proof {
                lemma_remove_keeps_wf(old(self)@, i as int, old(self).spec_next_id() as int);
                assert forall|j: int|
                    0 <= j < old(self)@.len() && #[trigger] old(self)@[j].id == id implies self@
                    == old(self)@.remove(j) by {
                    assert(j == i);
                }
            }
        }
    }

    /// Close an edit of the entry with identifier `id`: an entry left with
    /// a blank description (empty or whitespace throughout) is dropped, any
    /// other entry is kept as it is.
    pub fn finish_edit(&mut self, id: u64)
        requires
            old(self).wf(),
        ensures
            final(self).wf(),
            final(self).spec_next_id() == old(self).spec_next_id(),
            (forall|k: int| 0 <= k < old(self)@.len() ==> #[trigger] old(self)@[k].id != id)
                ==> final(self)@ == old(self)@,
            forall|i: int|
                0 <= i < old(self)@.len() && #[trigger] old(self)@[i].id == id ==> final(self)@
                    == (if blank(old(self)@[i].description@) {
                    old(self)@.remove(i)
                } else {
                    old(self)@
                }),
    {
        if let Some(i) = self.find(id) {
            if is_blank(self.items[i].description.as_str()) {
                self.items.remove(i);
                proof {
                    lemma_remove_keeps_wf(old(self)@, i as int, old(self).spec_next_id() as int);
                }
            }
            proof {
                assert forall|j: int|
                    0 <= j < old(self)@.len() && #[trigger] old(self)@[j].id == id implies self@
                    == (if blank(old(self)@[j].description@) {
                    old(self)@.remove(j)
                } else {
                    old(self)@
                }) by {
                    assert(j == i);
                }
            }
        }
    }

    /// Move the entry at position `from` out of the list and put it back in
    /// at position `to`, shifting the entries in between.
    pub fn reorder(&mut self, from: usize, to: usize)
        requires
            old(self).wf(),
            from < old(self)@.len(),
            to < old(self)@.len(),
        ensures
            final(self).wf(),
            final(self).spec_next_id() == old(self).spec_next_id(),
            from == to ==> final(self)@ == old(self)@,
            from != to ==> final(self)@ == old(self)@.remove(from as int).insert(
                to as int,
                old(self)@[from as int],
            ),
    {
        if from != to {
            let it = self.items.remove(from);
            self.items.insert(to, it);
            proof {
                let s = old(self)@;
                let bound = old(self).spec_next_id() as int;
                lemma_remove_keeps_wf(s, from as int, bound);
                lemma_insert_keeps_wf(s.remove(from as int), to as int, s[from as int], bound);
            }
        }
    }
}

/// Dropping a position keeps identifiers distinct and below their bound,
/// and no surviving entry carries the dropped entry's identifier.
proof fn lemma_remove_keeps_wf(s: Seq<ChecklistItem>, i: int, bound: int)
    requires
        distinct_ids(s),
        ids_below(s, bound),
        0 <= i < s.len(),
    ensures
        distinct_ids(s.remove(i)),
        ids_below(s.remove(i), bound),
        forall|k: int| 0 <= k < s.remove(i).len() ==> #[trigger] s.remove(i)[k].id != s[i].id,
{
    s.remove_ensures(i);
}

/// Inserting an entry whose identifier occurs nowhere in the list keeps
/// identifiers distinct and below their bound.
proof fn lemma_insert_keeps_wf(s: Seq<ChecklistItem>, i: int, x: ChecklistItem, bound: int)
    requires
        distinct_ids(s),
        ids_below(s, bound),
        forall|k: int| 0 <= k < s.len() ==> #[trigger] s[k].id != x.id,
        x.id < bound,
        0 <= i <= s.len(),
    ensures
        distinct_ids(s.insert(i, x)),
        ids_below(s.insert(i, x), bound),
{
    s.insert_ensures(i, x);
}

} // verus!
