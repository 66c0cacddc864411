//! The working set of pending channel identifiers.
//!
//! The set is created once from the input identifiers, with duplicates
//! dropped, and only ever shrinks: after each round the identifiers that
//! produced a record are removed.  Uniqueness of the stored identifiers is
//! the invariant that keeps every channel's record unique in the output.

use vstd::prelude::*;

verus! {

/// The input identifiers with every repeated occurrence dropped: the first
/// occurrence is kept, in input order.
pub open spec fn dedup_first(ids: Seq<Seq<char>>) -> Seq<Seq<char>>
    decreases ids.len(),
{
    if ids.len() == 0 {
        ids
    } else {
        let rest = dedup_first(ids.drop_last());
        if rest.contains(ids.last()) {
            rest
        } else {
            rest.push(ids.last())
        }
    }
}

/// What is left of `pending` after the identifiers in `gone` are removed;
/// order is kept.
pub open spec fn remaining_after(pending: Seq<Seq<char>>, gone: Seq<Seq<char>>) -> Seq<Seq<char>>
    decreases pending.len(),
{
    if pending.len() == 0 {
        pending
    } else {
        let rest = remaining_after(pending.drop_last(), gone);
        if gone.contains(pending.last()) {
            rest
        } else {
            rest.push(pending.last())
        }
    }
}

/// An identifier survives the removal exactly when it was pending and is
/// not among the removed ones.
pub proof fn lemma_remaining_contains(pending: Seq<Seq<char>>, gone: Seq<Seq<char>>, x: Seq<char>)
    ensures
        remaining_after(pending, gone).contains(x) <==> pending.contains(x) && !gone.contains(x),
    decreases pending.len(),
{
    broadcast use vstd::seq_lib::group_seq_properties;

    if pending.len() > 0 {
        let rest = pending.drop_last();
        let last = pending.last();
        lemma_remaining_contains(rest, gone, x);
        assert(rest.contains(x) ==> pending.contains(x)) by {
            if rest.contains(x) {
                let i = choose|i: int| 0 <= i < rest.len() && rest[i] == x;
                assert(pending[i] == x);
            }
        }
        assert(pending.contains(x) && x != last ==> rest.contains(x)) by {
            if pending.contains(x) && x != last {
                let i = choose|i: int| 0 <= i < pending.len() && pending[i] == x;
                assert(rest[i] == x);
            }
        }
        assert(pending[pending.len() - 1] == last);
    }
}

/// Removal keeps the identifiers distinct.
pub proof fn lemma_remaining_no_duplicates(pending: Seq<Seq<char>>, gone: Seq<Seq<char>>)
    requires
        pending.no_duplicates(),
    ensures
        remaining_after(pending, gone).no_duplicates(),
    decreases pending.len(),
{
    if pending.len() > 0 {
        let rest = pending.drop_last();
        assert(forall|i: int, j: int|
            0 <= i < rest.len() && 0 <= j < rest.len() && i != j ==> rest[i] != rest[j]);
        lemma_remaining_no_duplicates(rest, gone);
        if !gone.contains(pending.last()) {
            assert(!rest.contains(pending.last())) by {
                if rest.contains(pending.last()) {
                    let i = choose|i: int| 0 <= i < rest.len() && rest[i] == pending.last();
                    assert(pending[i] == pending.last());
                }
            }
            lemma_remaining_contains(rest, gone, pending.last());
            let out = remaining_after(rest, gone).push(pending.last());
            assert(forall|i: int|
                0 <= i < out.len() - 1 ==> out[i] == remaining_after(rest, gone)[i]);
        }
    }
}

/// Removing nothing that is pending leaves the pending set unchanged.
pub proof fn lemma_remaining_unchanged(pending: Seq<Seq<char>>, gone: Seq<Seq<char>>)
    requires
        forall|i: int| 0 <= i < pending.len() ==> !gone.contains(#[trigger] pending[i]),
    ensures
        remaining_after(pending, gone) == pending,
    decreases pending.len(),
{
    if pending.len() > 0 {
        let rest = pending.drop_last();
        lemma_remaining_unchanged(rest, gone);
        assert(rest.push(pending.last()) =~= pending);
    }
}

/// Removing a single pending identifier shrinks the set by exactly one.
pub proof fn lemma_remaining_removes_one(pending: Seq<Seq<char>>, x: Seq<char>)
    requires
        pending.no_duplicates(),
        pending.contains(x),
    ensures
        remaining_after(pending, seq![x]).len() == pending.len() - 1,
    decreases pending.len(),
{
    broadcast use vstd::seq_lib::group_seq_properties;

    let rest = pending.drop_last();
    assert(forall|i: int, j: int|
        0 <= i < rest.len() && 0 <= j < rest.len() && i != j ==> rest[i] != rest[j]);
    if pending.last() == x {
        assert(seq![x].contains(pending.last()));
        assert(!rest.contains(x)) by {
            if rest.contains(x) {
                let i = choose|i: int| 0 <= i < rest.len() && rest[i] == x;
                assert(pending[i] == pending.last());
            }
        }
        assert(forall|i: int|
            0 <= i < rest.len() ==> !seq![x].contains(#[trigger] rest[i])) by {
            assert(forall|y: Seq<char>| seq![x].contains(y) ==> y == x);
        }
        lemma_remaining_unchanged(rest, seq![x]);
    } else {
        let i = choose|i: int| 0 <= i < pending.len() && pending[i] == x;
        assert(rest[i] == x);
        assert(rest.contains(x));
        lemma_remaining_removes_one(rest, x);
        assert(!seq![x].contains(pending.last())) by {
            assert(forall|y: Seq<char>| seq![x].contains(y) ==> y == x);
        }
    }
}

/// The orchestrator's working set: channel identifiers, each held once.
pub struct PendingSet {
    ids: Vec<String>,
}

impl View for PendingSet {
    type V = Seq<Seq<char>>;

    closed spec fn view(&self) -> Seq<Seq<char>> {
        crate::views_of(self.ids@)
    }
}

/// Whether a list of identifier strings holds one whose characters are `x`.
fn contains_str(ids: &Vec<String>, x: &String) -> (r: bool)
    ensures
        r == crate::views_of(ids@).contains(x@),
{
    let mut i: usize = 0;
    while i < ids.len()
        invariant
            i <= ids.len(),
            forall|j: int| 0 <= j < i ==> crate::views_of(ids@)[j] != x@,
        decreases ids.len() - i,
    {
        if ids[i].eq(x) {
            proof {
                assert(crate::views_of(ids@)[i as int] == x@);
            }
            return true;
        }
        i = i + 1;
    }
    proof {
        assert forall|j: int| 0 <= j < ids@.len() implies crate::views_of(ids@)[j] != x@ by {}
    }
    false
}

impl PendingSet {
    /// The set never holds an identifier twice.
    pub open spec fn wf(&self) -> bool {
        self@.no_duplicates()
    }

    /// Builds the working set from the input identifiers, dropping every
    /// repeated occurrence.
    #[verifier::loop_isolation(false)]
    pub fn from_links(links: Vec<String>) -> (r: PendingSet)
        ensures
            r@ == dedup_first(crate::views_of(links@)),
            r.wf(),
    {
        let mut ids: Vec<String> = Vec::new();
        let mut i: usize = 0;
        while i < links.len()
            invariant
                i <= links.len(),
                crate::views_of(ids@) =~= dedup_first(crate::views_of(links@.take(i as int))),
                crate::views_of(ids@).no_duplicates(),
            decreases links.len() - i,
        {
            proof {
                assert(links@.take(i as int + 1).drop_last() =~= links@.take(i as int));
                assert(crate::views_of(links@.take(i as int + 1)).drop_last() =~= crate::views_of(
                    links@.take(i as int),
                ));
            }
            let ghost ids_before = ids@;
            if !contains_str(&ids, &links[i]) {
                ids.push(links[i].clone());
                proof {
                    assert(crate::views_of(ids@) =~= crate::views_of(ids_before).push(
                        links@[i as int]@,
                    ));
                }
            }
            i = i + 1;
        }
        proof {
            assert(links@.take(links@.len() as int) =~= links@);
        }
        PendingSet { ids }
    }

    /// How many identifiers are still pending.
    pub fn len(&self) -> (r: usize)
        ensures
            r == self@.len(),
    {
        self.ids.len()
    }

    /// Whether the run has converged.
    pub fn is_empty(&self) -> (r: bool)
        ensures
            r == (self@.len() == 0),
    {
        self.ids.len() == 0
    }

    /// Whether an identifier is still pending.
    pub fn contains(&self, id: &String) -> (r: bool)
        ensures
            r == self@.contains(id@),
    {
        contains_str(&self.ids, id)
    }

    /// The first `n` pending identifiers, or all of them if fewer are
    /// pending: the identifiers attempted in one round.
    #[verifier::loop_isolation(false)]
    pub fn take_up_to(&self, n: usize) -> (r: Vec<String>)
        ensures
            crate::views_of(r@) == self@.take(if n as int <= self@.len() {
                n as int
            } else {
                self@.len() as int
            }),
    {
        let count = if n <= self.ids.len() {
            n
        } else {
            self.ids.len()
        };
        let mut r: Vec<String> = Vec::new();
        let mut i: usize = 0;
        while i < count
            invariant
                i <= count,
                count <= self.ids.len(),
                crate::views_of(r@) =~= self@.take(count as int).take(i as int),
            decreases count - i,
        {
            let ghost r_before = r@;
            r.push(self.ids[i].clone());
            proof {
                assert(crate::views_of(r@) =~= crate::views_of(r_before).push(
                    self.ids@[i as int]@,
                ));
                assert(self@.take(count as int).take(i as int + 1) =~= self@.take(
                    count as int,
                ).take(i as int).push(self@[i as int]));
            }
            i = i + 1;
        }
        proof {
            assert(self@.take(count as int).take(count as int) =~= self@.take(count as int));
        }
        r
    }

    /// Removes every identifier in `gone` from the set; the others keep
    /// their order.
    #[verifier::loop_isolation(false)]
    pub fn remove_ids(&mut self, gone: &Vec<String>)
        ensures
            final(self)@ == remaining_after(old(self)@, crate::views_of(gone@)),
            old(self).wf() ==> final(self).wf(),
    {
        let mut kept: Vec<String> = Vec::new();
        let mut i: usize = 0;
        while i < self.ids.len()
            invariant
                i <= self.ids.len(),
                crate::views_of(kept@) =~= remaining_after(
                    self@.take(i as int),
                    crate::views_of(gone@),
                ),
            decreases self.ids.len() - i,
        {
            proof {
                assert(self.ids@.take(i as int + 1).drop_last() =~= self.ids@.take(i as int));
                assert(self@.take(i as int + 1).drop_last() =~= self@.take(i as int));
                assert(self@.take(i as int + 1).last() == self@[i as int]);
            }
            let ghost kept_before = kept@;
            if !contains_str(gone, &self.ids[i]) {
                kept.push(self.ids[i].clone());
                proof {
                    assert(crate::views_of(kept@) =~= crate::views_of(kept_before).push(
                        self.ids@[i as int]@,
                    ));
                }
            }
            i = i + 1;
        }
        proof {
            assert(self@.take(self@.len() as int) =~= self@);
        }
        self.ids = kept;
        proof {
            if old(self).wf() {
                lemma_remaining_no_duplicates(old(self)@, crate::views_of(gone@));
            }
        }
    }
}

} // verus!
