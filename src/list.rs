//! Intrusive circular doubly linked queue over a fixed table of link words.
//!
//! Slot `HEAD` of the table is the list head; slots `1..=slots()` are the
//! buffer slots that may be linked. An unlinked slot points to itself.
use vstd::prelude::*;

verus! {

/// Slot of the list head inside its link table.
pub const HEAD: usize = 0;

spec fn ring_of(elems: Seq<usize>) -> Seq<usize> {
    seq![HEAD].add(elems)
}

/// The link words `next` / `prev` chain the head and `elems` into one
/// circle, in order, and every other slot points to itself.
#[verifier::opaque]
spec fn links_ok(next: Seq<usize>, prev: Seq<usize>, elems: Seq<usize>) -> bool {
    let r = ring_of(elems);
    let n = next.len();
    &&& n == prev.len()
    &&& n >= 1
    &&& forall|i: int| 0 <= i < elems.len() ==> 1 <= #[trigger] elems[i] < n
    &&& elems.no_duplicates()
    &&& forall|i: int| 0 <= i < r.len() - 1 ==> next[#[trigger] r[i] as int] == r[i + 1]
    &&& next[r.last() as int] == HEAD
    &&& forall|i: int| 1 <= i < r.len() ==> prev[#[trigger] r[i] as int] == r[i - 1]
    &&& prev[HEAD as int] == r.last()
    &&& forall|s: usize| 1 <= s < n && !elems.contains(s) ==> #[trigger] next[s as int] == s
    &&& forall|s: usize| 1 <= s < n && !elems.contains(s) ==> #[trigger] prev[s as int] == s
}

proof fn lemma_ring_distinct(elems: Seq<usize>, n: int)
    requires
        forall|i: int| 0 <= i < elems.len() ==> 1 <= #[trigger] elems[i] < n,
        elems.no_duplicates(),
    ensures
        forall|i: int, j: int|
            0 <= i < j < ring_of(elems).len() ==> #[trigger] ring_of(elems)[i] != #[trigger] ring_of(elems)[j],
{
    let r = ring_of(elems);
    assert forall|i: int, j: int| 0 <= i < j < r.len() implies #[trigger] r[i] != #[trigger] r[j] by {
        assert(r[j] == elems[j - 1]);
        if i > 0 {
            assert(r[i] == elems[i - 1]);
        }
    }
}

proof fn lemma_ends(next: Seq<usize>, prev: Seq<usize>, elems: Seq<usize>)
    requires
        links_ok(next, prev, elems),
    ensures
        next.len() == prev.len(),
        next.len() >= 1,
        next[HEAD as int] == (if elems.len() == 0 { HEAD } else { elems[0] }),
        prev[HEAD as int] == (if elems.len() == 0 { HEAD } else { elems.last() }),
        elems.len() > 0 ==> next[elems[0] as int] == (if elems.len() == 1 { HEAD } else { elems[1] }),
        forall|i: int| 0 <= i < elems.len() ==> 1 <= #[trigger] elems[i] < next.len(),
        elems.no_duplicates(),
{
    reveal(links_ok);
    let r = ring_of(elems);
    assert(r[0] == HEAD);
    if elems.len() > 0 {
        assert(r[1] == elems[0]);
        assert(r.last() == elems.last());
        if elems.len() > 1 {
            assert(r[2] == elems[1]);
        }
    }
}

proof fn lemma_unlinked(next: Seq<usize>, prev: Seq<usize>, elems: Seq<usize>, s: usize)
    requires
        links_ok(next, prev, elems),
        1 <= s < next.len(),
        !elems.contains(s),
    ensures
        next[s as int] == s,
        prev[s as int] == s,
{
    reveal(links_ok);
}

proof fn lemma_insert_head(next: Seq<usize>, prev: Seq<usize>, elems: Seq<usize>, node: usize)
    requires
        links_ok(next, prev, elems),
        1 <= node < next.len(),
        !elems.contains(node),
    ensures
        links_ok(
            next.update(node as int, next[HEAD as int]).update(HEAD as int, node),
            prev.update(node as int, HEAD).update(next[HEAD as int] as int, node),
            seq![node].add(elems),
        ),
{
    reveal(links_ok);
    let first = next[HEAD as int];
    let r = ring_of(elems);
    lemma_ring_distinct(elems, next.len() as int);
    assert(r[0] == HEAD);
    let next2 = next.update(node as int, first).update(HEAD as int, node);
    let prev2 = prev.update(node as int, HEAD).update(first as int, node);
    let elems2 = seq![node].add(elems);
    let r2 = ring_of(elems2);
    assert(r2 =~= seq![HEAD, node].add(elems));
    assert forall|i: int| 0 <= i < elems2.len() implies 1 <= #[trigger] elems2[i] < next2.len() by {
        if i > 0 {
            assert(elems2[i] == elems[i - 1]);
        }
    }
    assert forall|i: int, j: int| 0 <= i < elems2.len() && 0 <= j < elems2.len() && i != j
        implies elems2[i] != elems2[j] by {
        if i > 0 && j > 0 {
            assert(elems2[i] == elems[i - 1]);
            assert(elems2[j] == elems[j - 1]);
        } else if i == 0 {
            assert(elems2[j] == elems[j - 1]);
        } else {
            assert(elems2[i] == elems[i - 1]);
        }
    }
    assert forall|i: int| 0 <= i < r2.len() - 1 implies next2[#[trigger] r2[i] as int] == r2[i + 1] by {
        if i >= 2 {
            assert(r2[i] == r[i - 1]);
            assert(r2[i + 1] == r[i]);
            assert(r[i - 1] != HEAD);
        } else if i == 1 {
            if elems.len() > 0 {
                assert(first == r[1]);
            }
        }
    }
    assert forall|i: int| 1 <= i < r2.len() implies prev2[#[trigger] r2[i] as int] == r2[i - 1] by {
        if i >= 3 {
            assert(r2[i] == r[i - 1]);
            assert(r2[i - 1] == r[i - 2]);
            assert(r[i - 1] != r[1]);
        } else if i == 2 {
            assert(r2[i] == r[1]);
            assert(first == r[1]);
        }
    }
    if elems.len() > 0 {
        assert(r2.last() == r.last());
        assert(r.last() != HEAD);
        assert(r.last() != node);
    }
    assert forall|s: usize| 1 <= s < next2.len() && !elems2.contains(s)
        implies next2[s as int] == s && prev2[s as int] == s by {
        if elems.contains(s) {
            let k = choose|k: int| 0 <= k < elems.len() && elems[k] == s;
            assert(elems2[k + 1] == s);
            assert(elems2.contains(s));
        }
        assert(s != node) by {
            assert(elems2[0] == node);
        }
        if elems.len() > 0 {
            assert(first == elems[0]);
            assert(elems.contains(first));
        }
    }
}

proof fn lemma_insert_tail(next: Seq<usize>, prev: Seq<usize>, elems: Seq<usize>, node: usize)
    requires
        links_ok(next, prev, elems),
        1 <= node < next.len(),
        !elems.contains(node),
    ensures
        links_ok(
            next.update(prev[HEAD as int] as int, node).update(node as int, HEAD),
            prev.update(node as int, prev[HEAD as int]).update(HEAD as int, node),
            elems.push(node),
        ),
{
    reveal(links_ok);
    let last = prev[HEAD as int];
    let r = ring_of(elems);
    lemma_ring_distinct(elems, next.len() as int);
    assert(r[0] == HEAD);
    let next2 = next.update(last as int, node).update(node as int, HEAD);
    let prev2 = prev.update(node as int, last).update(HEAD as int, node);
    let elems2 = elems.push(node);
    let r2 = ring_of(elems2);
    assert(r2 =~= r.push(node));
    assert forall|i: int| 0 <= i < elems2.len() implies 1 <= #[trigger] elems2[i] < next2.len() by {
        if i < elems.len() {
            assert(elems2[i] == elems[i]);
        }
    }
    assert forall|i: int, j: int| 0 <= i < elems2.len() && 0 <= j < elems2.len() && i != j
        implies elems2[i] != elems2[j] by {
        if i < elems.len() {
            assert(elems2[i] == elems[i]);
        }
        if j < elems.len() {
            assert(elems2[j] == elems[j]);
        }
    }
    assert forall|i: int| 0 <= i < r2.len() - 1 implies next2[#[trigger] r2[i] as int] == r2[i + 1] by {
        assert(r2[i] == r[i]);
        if i < r.len() - 1 {
            assert(r[i] != r[r.len() - 1]);
            assert(r2[i + 1] == r[i + 1]);
            if i > 0 {
                assert(r[i] == elems[i - 1]);
            }
        }
    }
    assert forall|i: int| 1 <= i < r2.len() implies prev2[#[trigger] r2[i] as int] == r2[i - 1] by {
        if i < r.len() {
            assert(r2[i] == r[i]);
            assert(r2[i - 1] == r[i - 1]);
            assert(r[i] == elems[i - 1]);
        }
    }
    assert(r2.last() == node);
    assert forall|s: usize| 1 <= s < next2.len() && !elems2.contains(s)
        implies next2[s as int] == s && prev2[s as int] == s by {
        if elems.contains(s) {
            let k = choose|k: int| 0 <= k < elems.len() && elems[k] == s;
            assert(elems2[k] == s);
            assert(elems2.contains(s));
        }
        assert(s != node) by {
            assert(elems2[elems.len() as int] == node);
        }
        if elems.len() > 0 {
            assert(last == elems.last());
            assert(elems.contains(last));
        }
        assert(!elems.contains(s));
        lemma_unlinked(next, prev, elems, s);
        assert(s != last);
    }
}

proof fn lemma_remove_head(next: Seq<usize>, prev: Seq<usize>, elems: Seq<usize>)
    requires
        links_ok(next, prev, elems),
        elems.len() > 0,
    ensures
        ({
            let first = next[HEAD as int];
            let second = next[first as int];
            links_ok(
                next.update(HEAD as int, second).update(first as int, first),
                prev.update(second as int, HEAD).update(first as int, first),
                elems.drop_first(),
            )
        }),
{
    reveal(links_ok);
    let r = ring_of(elems);
    lemma_ring_distinct(elems, next.len() as int);
    assert(r[0] == HEAD);
    assert(r[1] == elems[0]);
    let first = next[HEAD as int];
    let second = next[first as int];
    let next2 = next.update(HEAD as int, second).update(first as int, first);
    let prev2 = prev.update(second as int, HEAD).update(first as int, first);
    let elems2 = elems.drop_first();
    let r2 = ring_of(elems2);
    assert(r2 =~= seq![HEAD].add(r.subrange(2, r.len() as int)));
    if elems.len() > 1 {
        assert(r[2] == second);
    } else {
        assert(second == HEAD);
    }
    assert forall|i: int| 0 <= i < elems2.len() implies 1 <= #[trigger] elems2[i] < next2.len() by {
        assert(elems2[i] == elems[i + 1]);
    }
    assert forall|i: int, j: int| 0 <= i < elems2.len() && 0 <= j < elems2.len() && i != j
        implies elems2[i] != elems2[j] by {
        assert(elems2[i] == elems[i + 1]);
        assert(elems2[j] == elems[j + 1]);
    }
    assert forall|i: int| 0 <= i < r2.len() - 1 implies next2[#[trigger] r2[i] as int] == r2[i + 1] by {
        if i > 0 {
            assert(r2[i] == r[i + 1]);
            assert(r2[i + 1] == r[i + 2]);
            assert(r[i + 1] != r[1]);
        } else {
            assert(r2[1] == r[2]);
        }
    }
    if elems2.len() > 0 {
        assert(r2.last() == r.last());
        assert(r.last() != r[1]);
    }
    assert forall|i: int| 1 <= i < r2.len() implies prev2[#[trigger] r2[i] as int] == r2[i - 1] by {
        assert(r2[i] == r[i + 1]);
        assert(r[i + 1] != r[1]);
        if i > 1 {
            assert(r2[i - 1] == r[i]);
            assert(r[i + 1] != r[2]);
        }
    }
    assert forall|s: usize| 1 <= s < next2.len() && !elems2.contains(s)
        implies next2[s as int] == s && prev2[s as int] == s by {
        if s != first {
            if elems.contains(s) {
                let k = choose|k: int| 0 <= k < elems.len() && elems[k] == s;
                assert(k != 0);
                assert(elems2[k - 1] == s);
                assert(elems2.contains(s));
            }
            if elems.len() > 1 {
                assert(elems.contains(second)) by {
                    assert(elems[1] == second);
                }
            }
            assert(!elems.contains(s));
            lemma_unlinked(next, prev, elems, s);
            assert(s != second);
        }
    }
}

pub struct LinkedList {
    next: Vec<usize>,
    prev: Vec<usize>,
    elems: Ghost<Seq<usize>>,
}

impl View for LinkedList {
    type V = Seq<usize>;

    /// The linked slots, from the head's `next` onwards.
    closed spec fn view(&self) -> Seq<usize> {
        self.elems@
    }
}

impl LinkedList {
    /// Number of buffer slots that the table can link.
    pub closed spec fn slots(&self) -> nat {
        (self.next@.len() - 1) as nat
    }

    spec fn ring(&self) -> Seq<usize> {
        ring_of(self.elems@)
    }

    pub closed spec fn wf(&self) -> bool {
        links_ok(self.next@, self.prev@, self.elems@)
    }


    /// The linked slots are distinct buffer slots.
    pub proof fn lemma_slots(&self)
        requires
            self.wf(),
        ensures
            self@.no_duplicates(),
            forall|i: int| 0 <= i < self@.len() ==> 1 <= #[trigger] self@[i] <= self.slots(),
    {
        lemma_ends(self.next@, self.prev@, self.elems@);
    }

    /// A table of `slots` buffer slots whose head is an empty list.
    pub fn init_head(slots: usize) -> (r: LinkedList)
        requires
            slots < usize::MAX,
        ensures
            r.wf(),
            r@ == Seq::<usize>::empty(),
            r.slots() == slots,
    {
        let mut next: Vec<usize> = Vec::new();
        let mut prev: Vec<usize> = Vec::new();
        let mut i: usize = 0;
        while i <= slots
            invariant
                slots < usize::MAX,
                i <= slots + 1,
                next@.len() == i,
                prev@.len() == i,
                forall|j: int| 0 <= j < i ==> next@[j] == j && prev@[j] == j,
            decreases slots + 1 - i,
        {
            next.push(i);
            prev.push(i);
            i = i + 1;
        }
        let r = LinkedList { next, prev, elems: Ghost(Seq::empty()) };
        proof {
            reveal(links_ok);
            assert(r.ring() =~= seq![HEAD]);
        }
        r
    }

    /// Whether the list holds no slot.
    pub fn is_empty(&self) -> (r: bool)
        requires
            self.wf(),
        ensures
            r == (self@.len() == 0),
    {
        proof {
            lemma_ends(self.next@, self.prev@, self.elems@);
            if self.elems@.len() > 0 {
                assert(self.elems@[0] >= 1);
            }
        }
        self.next[HEAD] == HEAD
    }

    /// Whether `slot` is linked into the list.
    pub fn is_linked(&self, slot: usize) -> (r: bool)
        requires
            self.wf(),
            1 <= slot <= self.slots(),
        ensures
            r == self@.contains(slot),
    {
        proof {
            reveal(links_ok);
            if self@.contains(slot) {
                let k = choose|k: int| 0 <= k < self@.len() && self@[k] == slot;
                let r = self.ring();
                assert(r[k + 1] == slot);
                lemma_ring_distinct(self.elems@, self.next@.len() as int);
                if k + 1 < r.len() - 1 {
                    assert(self.next@[slot as int] == r[k + 2]);
                    assert(r[k + 2] != r[k + 1]);
                } else {
                    assert(self.next@[slot as int] == HEAD);
                }
            }
        }
        self.next[slot] != slot
    }

    /// Links the unlinked `node` right after the head.
    pub fn insert_head(&mut self, node: usize)
        requires
            old(self).wf(),
            1 <= node <= old(self).slots(),
            !old(self)@.contains(node),
        ensures
            final(self).wf(),
            final(self)@ == seq![node].add(old(self)@),
            final(self).slots() == old(self).slots(),
    {
        proof {
            lemma_ends(self.next@, self.prev@, self.elems@);
            lemma_insert_head(self.next@, self.prev@, self.elems@, node);
        }
        let first = self.next[HEAD];
        self.next.set(node, first);
        self.prev.set(node, HEAD);
        self.prev.set(first, node);
        self.next.set(HEAD, node);
        self.elems = Ghost(seq![node].add(self.elems@));
    }

    /// Links the unlinked `node` right before the head, that is, last.
    pub fn insert_tail(&mut self, node: usize)
        requires
            old(self).wf(),
            1 <= node <= old(self).slots(),
            !old(self)@.contains(node),
        ensures
            final(self).wf(),
            final(self)@ == old(self)@.push(node),
            final(self).slots() == old(self).slots(),
    {
        proof {
            lemma_ends(self.next@, self.prev@, self.elems@);
            lemma_insert_tail(self.next@, self.prev@, self.elems@, node);
        }
        let last = self.prev[HEAD];
        self.next.set(last, node);
        self.prev.set(node, last);
        self.next.set(node, HEAD);
        self.prev.set(HEAD, node);
        self.elems = Ghost(self.elems@.push(node));
    }

    /// Unlinks the first slot of the list and hands it out, or `None` when
    /// the list is empty.
    pub fn remove_head(&mut self) -> (r: Option<usize>)
        requires
            old(self).wf(),
        ensures
            final(self).wf(),
            final(self).slots() == old(self).slots(),
            old(self)@.len() == 0 ==> r.is_none() && final(self)@ == old(self)@,
            old(self)@.len() > 0 ==> r == Some(old(self)@[0]) && final(self)@ == old(self)@.drop_first(),
            r.is_some() ==> 1 <= r.unwrap() <= old(self).slots(),
    {
        proof {
            lemma_ends(self.next@, self.prev@, self.elems@);
        }
        let first = self.next[HEAD];
        if first == HEAD {
            proof {
                if self.elems@.len() > 0 {
                    assert(self.elems@[0] >= 1);
                }
            }
            return None;
        }
        proof {
            lemma_remove_head(self.next@, self.prev@, self.elems@);
            if self.elems@.len() > 1 {
                assert(self.elems@[1] < self.next@.len());
            }
        }
        let second = self.next[first];
        self.next.set(HEAD, second);
        self.prev.set(second, HEAD);
        self.next.set(first, first);
        self.prev.set(first, first);
        self.elems = Ghost(self.elems@.drop_first());
        Some(first)
    }
}

/// The list after linking `nodes` in turn into `start`, each one at the head
/// where `at_head` says so and at the tail otherwise, as `insert_head` and
/// `insert_tail` state it.
pub open spec fn after_inserts(start: Seq<usize>, nodes: Seq<usize>, at_head: Seq<bool>) -> Seq<usize>
    decreases nodes.len(),
{
    if nodes.len() == 0 {
        start
    } else {
        let rest = after_inserts(start, nodes.drop_last(), at_head.drop_last());
        if at_head.len() > 0 && at_head.last() {
            seq![nodes.last()].add(rest)
        } else {
            rest.push(nodes.last())
        }
    }
}

/// The list after `k` calls of `remove_head`, as `remove_head` states it.
pub open spec fn after_removals(s: Seq<usize>, k: nat) -> Seq<usize>
    decreases k,
{
    if k == 0 || s.len() == 0 {
        s
    } else {
        after_removals(s.drop_first(), (k - 1) as nat)
    }
}

/// Any interleaving of `n` head and tail insertions into an empty list,
/// followed by `n` removals of the head, leaves the list empty; and while
/// fewer than `n` removals have been made the list is not empty, so every
/// one of them hands out a slot.
pub proof fn lemma_inserts_then_removals(nodes: Seq<usize>, at_head: Seq<bool>)
    ensures
        after_inserts(Seq::empty(), nodes, at_head).len() == nodes.len(),
        forall|k: nat| k <= nodes.len() ==>
            (#[trigger] after_removals(after_inserts(Seq::empty(), nodes, at_head), k)).len()
                == nodes.len() - k,
        after_removals(after_inserts(Seq::empty(), nodes, at_head), nodes.len()).len() == 0,
{
    lemma_inserts_len(Seq::empty(), nodes, at_head);
    let s = after_inserts(Seq::empty(), nodes, at_head);
    assert forall|k: nat| k <= nodes.len() implies
        (#[trigger] after_removals(s, k)).len() == nodes.len() - k by {
        lemma_removals_len(s, k);
    }
    lemma_removals_len(s, nodes.len());
}

proof fn lemma_inserts_len(start: Seq<usize>, nodes: Seq<usize>, at_head: Seq<bool>)
    ensures
        after_inserts(start, nodes, at_head).len() == start.len() + nodes.len(),
    decreases nodes.len(),
{
    if nodes.len() > 0 {
        lemma_inserts_len(start, nodes.drop_last(), at_head.drop_last());
    }
}

proof fn lemma_removals_len(s: Seq<usize>, k: nat)
    requires
        k <= s.len(),
    ensures
        after_removals(s, k).len() == s.len() - k,
    decreases k,
{
    if k > 0 {
        lemma_removals_len(s.drop_first(), (k - 1) as nat);
    }
}

} // verus!
