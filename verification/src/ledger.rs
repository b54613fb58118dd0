//! Who is to release what came back from the foreign side.
//!
//! A buffer that a boundary call returns was allocated over there and is the
//! caller's to release, once, through the foreign side's own deallocation. The
//! ledger keeps the books: a handle is entered when it comes back, and struck
//! when its release is asked for. A release is granted only for a handle on
//! the books, so nothing is released twice and nothing that never came back is
//! released at all; books that are settled show that nothing was left behind.

use vstd::prelude::*;

verus! {

/// One line in the books.
pub enum Entry {
    /// The handle came back from a boundary call.
    Adopted(usize),
    /// The release of the handle was asked for.
    Released(usize),
}

/// The handles on the books after `handle` came back, and whether it was not
/// there before.
pub open spec fn spec_adopt(held: Set<usize>, handle: usize) -> (Set<usize>, bool) {
    (held.insert(handle), !held.contains(handle))
}

/// The handles on the books after the release of `handle` was asked for, and
/// whether it is granted.
pub open spec fn spec_release(held: Set<usize>, handle: usize) -> (Set<usize>, bool) {
    (held.remove(handle), held.contains(handle))
}

/// The handles on books that were empty before `entries`.
pub open spec fn held_after(entries: Seq<Entry>) -> Set<usize>
    decreases entries.len(),
{
    if entries.len() == 0 {
        Set::empty()
    } else {
        match entries.last() {
            Entry::Adopted(handle) => spec_adopt(held_after(entries.drop_last()), handle).0,
            Entry::Released(handle) => spec_release(held_after(entries.drop_last()), handle).0,
        }
    }
}

/// How often `handle` was entered in `entries` while it was not on the books.
pub open spec fn times_adopted(entries: Seq<Entry>, handle: usize) -> nat
    decreases entries.len(),
{
    if entries.len() == 0 {
        0
    } else {
        let before = entries.drop_last();
        if entries.last() == Entry::Adopted(handle) && spec_adopt(held_after(before), handle).1 {
            times_adopted(before, handle) + 1
        } else {
            times_adopted(before, handle)
        }
    }
}

/// How often a release of `handle` was granted in `entries`.
pub open spec fn times_released(entries: Seq<Entry>, handle: usize) -> nat
    decreases entries.len(),
{
    if entries.len() == 0 {
        0
    } else {
        let before = entries.drop_last();
        if entries.last() == Entry::Released(handle) && spec_release(held_after(before), handle).1 {
            times_released(before, handle) + 1
        } else {
            times_released(before, handle)
        }
    }
}

/// Every handle is released once for each time it came back, but for the one
/// release that is still owed while the handle is on the books.
pub proof fn lemma_released_once_each(entries: Seq<Entry>, handle: usize)
    ensures
        times_adopted(entries, handle) == times_released(entries, handle) + (if held_after(
            entries,
        ).contains(handle) {
            1nat
        } else {
            0nat
        }),
    decreases entries.len(),
{
    if entries.len() > 0 {
        lemma_released_once_each(entries.drop_last(), handle);
    }
}

/// On settled books every handle that came back was released exactly as often
/// as it came back: none twice, none never.
pub proof fn lemma_settled_books_balance(entries: Seq<Entry>, handle: usize)
    requires
        held_after(entries) =~= Set::<usize>::empty(),
    ensures
        times_released(entries, handle) == times_adopted(entries, handle),
{
    lemma_released_once_each(entries, handle);
}

/// A handle that came back is released once: the first release is granted,
/// a second one is not.
pub proof fn lemma_second_release_refused(held: Set<usize>, handle: usize)
    ensures
        ({
            let adopted = spec_adopt(held, handle).0;
            let first = spec_release(adopted, handle);
            let second = spec_release(first.0, handle);
            first.1 && !second.1
        }),
{
}

/// The books of one caller.
#[derive(Debug)]
pub struct Ledger {
    held: Vec<usize>,
}

impl View for Ledger {
    type V = Set<usize>;

    /// The handles that are the caller's to release.
    closed spec fn view(&self) -> Set<usize> {
        self.held@.to_set()
    }
}

impl Ledger {
    /// The books are in order: no handle stands on them twice.
    pub closed spec fn wf(&self) -> bool {
        self.held@.no_duplicates()
    }

    /// Opens empty books.
    pub fn new() -> (r: Ledger)
        ensures
            r.wf(),
            r@ == Set::<usize>::empty(),
    {
        let r = Ledger { held: Vec::new() };
        assert(r.held@.to_set() =~= Set::<usize>::empty());
        r
    }

    fn position(&self, handle: usize) -> (found: Option<usize>)
        ensures
            match found {
                Some(i) => i < self.held@.len() && self.held@[i as int] == handle,
                None => !self.held@.contains(handle),
            },
    {
        let mut i: usize = 0;
        while i < self.held.len()
            invariant
                i <= self.held@.len(),
                forall|j: int| 0 <= j < i ==> self.held@[j] != handle,
            decreases self.held@.len() - i,
        {
            if self.held[i] == handle {
                return Some(i);
            }
            i += 1;
        }
        None
    }

    /// Enters a handle that a boundary call returned. Says whether it was not
    /// on the books already.
    pub fn adopt(&mut self, handle: usize) -> (fresh: bool)
        requires
            old(self).wf(),
        ensures
            final(self).wf(),
            (final(self)@, fresh) == spec_adopt(old(self)@, handle),
    {
        match self.position(handle) {
            Some(i) => {
                assert(self.held@.to_set() =~= self.held@.to_set().insert(handle));
                false
            },
            None => {
                let ghost before = self.held@;
                self.held.push(handle);
                assert(self.held@.no_duplicates());
                assert(self.held@.to_set() =~= before.to_set().insert(handle)) by {
                    assert forall|h: usize| self.held@.contains(h) implies before.contains(h) || h
                        == handle by {
                        let i = choose|i: int| 0 <= i < self.held@.len() && self.held@[i] == h;
                        if i < before.len() {
                            assert(before[i] == h);
                        }
                    }
                    assert(self.held@[before.len() as int] == handle);
                    assert forall|h: usize| before.contains(h) implies self.held@.contains(h) by {
                        let i = choose|i: int| 0 <= i < before.len() && before[i] == h;
                        assert(self.held@[i] == h);
                    }
                }
                true
            },
        }
    }

    /// Asks for the release of `handle`. It is granted where the handle is on
    /// the books, and then struck from them; only then may the foreign side's
    /// deallocation be called on it.
    pub fn release(&mut self, handle: usize) -> (granted: bool)
        requires
            old(self).wf(),
        ensures
            final(self).wf(),
            (final(self)@, granted) == spec_release(old(self)@, handle),
    {
        match self.position(handle) {
            Some(i) => {
                let ghost before = self.held@;
                self.held.swap_remove(i);
                assert(self.held@.no_duplicates());
                assert(self.held@.to_set() =~= before.to_set().remove(handle)) by {
                    assert forall|h: usize| self.held@.contains(h) implies before.contains(h) && h
                        != handle by {
                        let j = choose|j: int| 0 <= j < self.held@.len() && self.held@[j] == h;
                        if j == i {
                            assert(before[before.len() - 1] == h);
                        } else {
                            assert(before[j] == h);
                        }
                    }
                    assert forall|h: usize| before.contains(h) && h != handle implies self.held@.contains(
                        h,
                    ) by {
                        let j = choose|j: int| 0 <= j < before.len() && before[j] == h;
                        if j == before.len() - 1 {
                            assert(self.held@[i as int] == h);
                        } else {
                            assert(self.held@[j] == h);
                        }
                    }
                }
                true
            },
            None => {
                assert(self.held@.to_set() =~= self.held@.to_set().remove(handle));
                false
            },
        }
    }

    /// Whether nothing is left to release.
    pub fn is_settled(&self) -> (settled: bool)
        ensures
            settled == (self@ =~= Set::<usize>::empty()),
    {
        let settled = self.held.len() == 0;
        proof {
            if settled {
                assert(self.held@.to_set() =~= Set::<usize>::empty());
            } else {
                assert(self.held@.contains(self.held@[0]));
                assert(self.held@.to_set().contains(self.held@[0]));
            }
        }
        settled
    }
}

} // verus!
