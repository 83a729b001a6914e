use vstd::prelude::*;
use vstd::multiset::Multiset;

use crate::inner::RcuInner;

verus! {

broadcast use vstd::multiset::group_multiset_axioms, vstd::multiset::group_multiset_properties;

/// How many of the payloads in `s` are still live (not yet destroyed).
spec fn count_live<T>(s: Seq<RcuInner<T>>) -> nat
    decreases s.len(),
{
    if s.len() == 0 {
        0
    } else {
        count_live(s.drop_last()) + (if s.last().live() {
            1nat
        } else {
            0nat
        })
    }
}

/// A read-copy-update cell. Readers take a snapshot of the current value
/// without blocking writers; a writer installs a replacement value without
/// waiting for readers, and a superseded payload survives until its last
/// reader releases it.
///
/// Payloads live in a slot arena; each slot carries the payload and its
/// share count. The cell itself holds one share of the slot it currently
/// publishes, and every outstanding `RcuReader` holds one share of the slot
/// it captured.
pub struct RcuCell<T> {
    slots: Vec<RcuInner<T>>,
    current: usize,
    active: bool,
    readers: Ghost<Multiset<int>>,
}

/// A snapshot handle returned by [`RcuCell::read`]. It holds one share of
/// the payload it captured, so that payload stays readable until the guard
/// is given back with [`RcuCell::release`] — no matter how many updates
/// happen in between. A guard is deliberately neither `Copy` nor `Clone`:
/// each one stands for exactly one share and must be released exactly once.
pub struct RcuReader<T> {
    slot: usize,
    val: Ghost<T>,
}

impl<T> RcuReader<T> {
    /// The slot this guard captured.
    pub closed spec fn slot_id(self) -> int {
        self.slot as int
    }

    /// The value this guard observed when it was created.
    pub closed spec fn value(self) -> T {
        self.val@
    }

    /// Reads the payload this guard captured. The guard pins that payload,
    /// so the same value is observed however many updates — or a close —
    /// have happened since the guard was taken (snapshot isolation).
    pub fn get<'a>(&self, cell: &'a RcuCell<T>) -> (r: &'a T)
        requires
            cell.holds(*self),
        ensures
            *r == self.value(),
    {
        cell.slots[self.slot].data.as_ref().unwrap()
    }
}

impl<T> RcuCell<T> {
    /// The slot the cell currently publishes.
    pub closed spec fn cur(self) -> int {
        self.current as int
    }

    /// Whether the cell still holds its own share of the current slot.
    /// `new` makes the cell active; `close` is the one operation that ends
    /// that state.
    pub closed spec fn is_active(self) -> bool {
        self.active
    }

    /// The multiset of slots captured by outstanding guards: one occurrence
    /// per unreleased guard.
    pub closed spec fn guards(self) -> Multiset<int> {
        self.readers@
    }

    /// The cell's own share of slot `i`: one on the published slot while
    /// the cell is active, none otherwise.
    pub closed spec fn slot_share(self, i: int) -> nat {
        if self.active && i == self.cur() {
            1nat
        } else {
            0nat
        }
    }

    /// All shares held on slot `i`: one per outstanding guard plus the
    /// cell's own.
    pub closed spec fn shares(self, i: int) -> nat {
        self.guards().count(i) + self.slot_share(i)
    }

    /// Whether slot `i` still holds a payload value.
    pub closed spec fn slot_live(self, i: int) -> bool {
        0 <= i < self.slots@.len() && self.slots@[i].live()
    }

    /// How many payloads have been created but not yet destroyed.
    pub closed spec fn live_count(self) -> nat {
        count_live(self.slots@)
    }

    /// The value currently published by the cell.
    pub closed spec fn current_value(self) -> T {
        self.slots@[self.cur()].data.unwrap()
    }

    /// The cell's invariant: every slot's share count equals the shares
    /// actually held on it (guards plus the cell's own), a payload is
    /// destroyed exactly when its share count is zero, and no guard points
    /// outside the arena.
    pub closed spec fn wf(self) -> bool {
        &&& self.slots@.len() >= 1
        &&& self.cur() < self.slots@.len()
        &&& forall|i: int|
            0 <= i < self.slots@.len() ==> (#[trigger] self.slots@[i]).refs == self.shares(i)
        &&& forall|i: int|
            0 <= i < self.slots@.len() ==> ((#[trigger] self.slots@[i]).refs == 0
                <==> !self.slots@[i].live())
        &&& forall|i: int|
            i < 0 || i >= self.slots@.len() ==> #[trigger] self.guards().count(i) == 0
    }

    /// Whether `g` is an outstanding guard of this cell: it points at a
    /// slot of the arena, at least one guard share is held on that slot,
    /// and the slot still carries the exact value the guard observed.
    pub closed spec fn holds(self, g: RcuReader<T>) -> bool {
        &&& 0 <= g.slot_id() < self.slots@.len()
        &&& self.guards().count(g.slot_id()) >= 1
        &&& self.slots@[g.slot_id()].data == Some(g.value())
    }

    /// Creates a cell publishing `data`. The one share on the fresh payload
    /// is the cell's own.
    pub fn new(data: T) -> (c: RcuCell<T>)
        ensures
            c.wf(),
            c.is_active(),
            c.current_value() == data,
            c.guards() == Multiset::<int>::empty(),
            c.shares(c.cur()) == 1,
            c.live_count() == 1,
    {
        let mut slots: Vec<RcuInner<T>> = Vec::new();
        slots.push(RcuInner::new(data));
        let c = RcuCell { slots, current: 0, active: true, readers: Ghost(Multiset::empty()) };
        proof {
            assert(c.slots@.drop_last() =~= Seq::<RcuInner<T>>::empty());
            assert(count_live(Seq::<RcuInner<T>>::empty()) == 0);
            assert(count_live(c.slots@) == 1);
        }
        c
    }

    /// Takes a snapshot of the current value: one more share is taken on
    /// the published slot and handed to the caller as a guard. Nothing is
    /// destroyed, no other guard is disturbed, and the published value is
    /// unchanged. Taking the share updates the payload's bookkeeping, which
    /// is why the cell is borrowed mutably.
    pub fn read(&mut self) -> (g: RcuReader<T>)
        requires
            old(self).wf(),
            old(self).is_active(),
            old(self).shares(old(self).cur()) < usize::MAX,
        ensures
            final(self).wf(),
            final(self).is_active(),
            final(self).cur() == old(self).cur(),
            final(self).current_value() == old(self).current_value(),
            final(self).guards() == old(self).guards().insert(old(self).cur()),
            final(self).shares(final(self).cur()) == old(self).shares(old(self).cur()) + 1,
            g.slot_id() == old(self).cur(),
            g.value() == old(self).current_value(),
            final(self).holds(g),
            forall|h: RcuReader<T>| #[trigger] old(self).holds(h) ==> final(self).holds(h),
            forall|i: int| #[trigger] final(self).slot_live(i) <==> old(self).slot_live(i),
    {
        let idx = self.current;
        let slot = &mut self.slots[idx];
        slot.add_ref();
        let g = RcuReader { slot: idx, val: Ghost(self.slots@[idx as int].data.unwrap()) };
        proof {
            self.readers@ = self.readers@.insert(idx as int);
        }
        g
    }

    /// Gives back one share of slot `idx` and destroys its payload if that
    /// was the last share. This is the one place a payload is ever
    /// destroyed; `release`, `update` and `close` all relinquish shares
    /// through it.
    fn drop_share(&mut self, idx: usize) -> (remaining: usize)
        requires
            (idx as int) < old(self).slots@.len(),
            old(self).slots@[idx as int].refs >= 1,
        ensures
            final(self).slots@.len() == old(self).slots@.len(),
            forall|i: int|
                0 <= i < old(self).slots@.len() && i != idx as int
                    ==> #[trigger] final(self).slots@[i] == old(self).slots@[i],
            remaining == old(self).slots@[idx as int].refs - 1,
            final(self).slots@[idx as int].refs == remaining,
            remaining == 0 ==> final(self).slots@[idx as int].data is None,
            remaining >= 1 ==> final(self).slots@[idx as int].data
                == old(self).slots@[idx as int].data,
            final(self).current == old(self).current,
            final(self).active == old(self).active,
            final(self).readers@ == old(self).readers@,
    {
        let slot = &mut self.slots[idx];
        let remaining = slot.release();
        if remaining == 0 {
            slot.data = None;
        }
        remaining
    }

    /// Gives back a guard's share. If no share remains — the guard was the
    /// last borrower of a payload the cell no longer publishes — that
    /// payload is destroyed, exactly once. Returns how many shares remain
    /// on the guard's slot.
    pub fn release(&mut self, g: RcuReader<T>) -> (remaining: usize)
        requires
            old(self).wf(),
            old(self).holds(g),
        ensures
            final(self).wf(),
            final(self).is_active() == old(self).is_active(),
            final(self).cur() == old(self).cur(),
            final(self).guards() == old(self).guards().remove(g.slot_id()),
            remaining == old(self).shares(g.slot_id()) - 1,
            final(self).shares(g.slot_id()) == old(self).shares(g.slot_id()) - 1,
            forall|i: int|
                i != g.slot_id() ==> #[trigger] final(self).shares(i) == old(self).shares(i),
            final(self).slot_live(g.slot_id()) <==> remaining != 0,
            old(self).is_active() ==> final(self).current_value() == old(self).current_value(),
            forall|h: RcuReader<T>|
                old(self).holds(h) && (h.slot_id() != g.slot_id()
                    || old(self).guards().count(g.slot_id()) >= 2)
                    ==> #[trigger] final(self).holds(h),
            forall|i: int|
                i != g.slot_id()
                    ==> (#[trigger] final(self).slot_live(i) <==> old(self).slot_live(i)),
            forall|i: int| !old(self).slot_live(i) ==> !(#[trigger] final(self).slot_live(i)),
    {
        let remaining = self.drop_share(g.slot);
        proof {
            self.readers@ = self.readers@.remove(g.slot as int);
        }
        remaining
    }

    /// Publishes `data` as the cell's new value. Readers are neither
    /// blocked nor disturbed: every outstanding guard keeps observing the
    /// value it captured. The cell moves its own share from the superseded
    /// payload to the fresh one; if no guard holds the superseded payload
    /// it is destroyed right here, otherwise it survives until its last
    /// guard is released.
    pub fn update(&mut self, data: T)
        requires
            old(self).wf(),
            old(self).is_active(),
        ensures
            final(self).wf(),
            final(self).is_active(),
            final(self).current_value() == data,
            final(self).guards() == old(self).guards(),
            final(self).shares(final(self).cur()) == 1,
            final(self).cur() != old(self).cur(),
            !old(self).slot_live(final(self).cur()),
            final(self).slot_live(final(self).cur()),
            forall|h: RcuReader<T>| #[trigger] old(self).holds(h) ==> final(self).holds(h),
            final(self).slot_live(old(self).cur())
                <==> old(self).guards().count(old(self).cur()) >= 1,
            forall|i: int|
                i != old(self).cur() && i != final(self).cur()
                    ==> (#[trigger] final(self).slot_live(i) <==> old(self).slot_live(i)),
    {
        let fresh = RcuInner::new(data);
        let prev = self.current;
        self.current = self.slots.len();
        self.slots.push(fresh);
        let _released: usize = self.drop_share(prev);
    }

    /// Ends the cell's own hold on the published payload, exactly as an
    /// update does for a superseded one: if no guard holds it, it is
    /// destroyed here; otherwise it stays live for those guards alone and
    /// is destroyed when the last of them is released — possibly long
    /// after the cell stopped being used. After `close` the cell publishes
    /// nothing and accepts no further reads or updates.
    pub fn close(&mut self)
        requires
            old(self).wf(),
            old(self).is_active(),
        ensures
            final(self).wf(),
            !final(self).is_active(),
            final(self).guards() == old(self).guards(),
            final(self).cur() == old(self).cur(),
            forall|h: RcuReader<T>| #[trigger] old(self).holds(h) ==> final(self).holds(h),
            final(self).slot_live(old(self).cur())
                <==> old(self).guards().count(old(self).cur()) >= 1,
            forall|i: int|
                i != old(self).cur()
                    ==> (#[trigger] final(self).slot_live(i) <==> old(self).slot_live(i)),
    {
        self.active = false;
        let _released: usize = self.drop_share(self.current);
    }

    /// Counts the payloads created by this cell and not yet destroyed:
    /// the published one (while the cell is active) plus every superseded
    /// or relinquished payload kept live by an outstanding guard.
    pub fn live_payloads(&self) -> (n: usize)
        ensures
            n == self.live_count(),
    {
        let mut n: usize = 0;
        let mut k: usize = 0;
        proof {
            assert(self.slots@.subrange(0, 0) =~= Seq::<RcuInner<T>>::empty());
        }
        while k < self.slots.len()
            invariant
                k <= self.slots@.len(),
                n <= k,
                n == count_live(self.slots@.subrange(0, k as int)),
            decreases self.slots@.len() - k,
        {
            proof {
                lemma_count_live_step(self.slots@, k as int);
            }
            if self.slots[k].data.is_some() {
                n = n + 1;
            }
            k = k + 1;
        }
        proof {
            assert(self.slots@.subrange(0, self.slots@.len() as int) =~= self.slots@);
        }
        n
    }

    /// How many shares are held on the currently published payload: the
    /// cell's own plus one per outstanding guard that captured it.
    pub fn current_refs(&self) -> (n: usize)
        requires
            self.wf(),
            self.is_active(),
        ensures
            n == self.shares(self.cur()),
    {
        self.slots[self.current].refs
    }
}

/// Unfolds one step of `count_live` along a growing prefix.
proof fn lemma_count_live_step<T>(s: Seq<RcuInner<T>>, k: int)
    requires
        0 <= k < s.len(),
    ensures
        count_live(s.subrange(0, k + 1)) == count_live(s.subrange(0, k)) + (if s[k].live() {
            1nat
        } else {
            0nat
        }),
{
    let t = s.subrange(0, k + 1);
    assert(t.drop_last() =~= s.subrange(0, k));
    assert(t.last() == s[k]);
}

/// If no payload in `s` is live, the live count is zero.
proof fn lemma_count_live_none<T>(s: Seq<RcuInner<T>>)
    requires
        forall|i: int| 0 <= i < s.len() ==> !(#[trigger] s[i]).live(),
    ensures
        count_live(s) == 0,
    decreases s.len(),
{
    if s.len() > 0 {
        assert(forall|i: int|
            0 <= i < s.drop_last().len() ==> !(#[trigger] s.drop_last()[i]).live());
        lemma_count_live_none(s.drop_last());
    }
}

/// If exactly the payload at `j` is live, the live count is one.
proof fn lemma_count_live_one<T>(s: Seq<RcuInner<T>>, j: int)
    requires
        0 <= j < s.len(),
        s[j].live(),
        forall|i: int| 0 <= i < s.len() && i != j ==> !(#[trigger] s[i]).live(),
    ensures
        count_live(s) == 1,
    decreases s.len(),
{
    if j == s.len() - 1 {
        assert(forall|i: int|
            0 <= i < s.drop_last().len() ==> !(#[trigger] s.drop_last()[i]).live());
        lemma_count_live_none(s.drop_last());
    } else {
        assert(forall|i: int|
            0 <= i < s.drop_last().len() && i != j ==> !(#[trigger] s.drop_last()[i]).live());
        lemma_count_live_one(s.drop_last(), j);
    }
}

/// Law: a payload is live exactly while at least one share is held on it,
/// by the cell itself or by an outstanding guard. In particular a share
/// count can never be taken below zero: whoever asks to release a share
/// of some slot must hold one, and destroyed payloads carry none.
pub proof fn law_live_iff_shared<T>(c: RcuCell<T>, i: int)
    requires
        c.wf(),
    ensures
        c.slot_live(i) <==> c.shares(i) >= 1,
{
}

/// Law: no guard is ever held on a destroyed payload, so no payload can be
/// released — let alone destroyed — a second time.
pub proof fn law_no_guard_on_freed<T>(c: RcuCell<T>, g: RcuReader<T>)
    requires
        c.wf(),
        !c.slot_live(g.slot_id()),
    ensures
        !c.holds(g),
{
}

/// Law: an outstanding guard keeps its payload live, whether or not the
/// cell is still active and however many updates have superseded it.
pub proof fn law_guard_keeps_payload<T>(c: RcuCell<T>, g: RcuReader<T>)
    requires
        c.holds(g),
    ensures
        c.slot_live(g.slot_id()),
{
}

/// Law: once every guard has been released, exactly the published payload
/// is live — one payload carrying exactly the cell's own share while the
/// cell is active, and no payload at all once the cell has been closed.
/// Nothing leaks and nothing is destroyed early.
pub proof fn law_quiescent<T>(c: RcuCell<T>)
    requires
        c.wf(),
        forall|i: int| #[trigger] c.guards().count(i) == 0,
    ensures
        c.is_active() ==> c.live_count() == 1 && c.shares(c.cur()) == 1,
        !c.is_active() ==> c.live_count() == 0,
{
    if c.is_active() {
        assert(forall|i: int|
            0 <= i < c.slots@.len() && i != c.cur() ==> !(#[trigger] c.slots@[i]).live());
        assert(c.slots@[c.cur()].live());
        lemma_count_live_one(c.slots@, c.cur());
    } else {
        assert(forall|i: int| 0 <= i < c.slots@.len() ==> !(#[trigger] c.slots@[i]).live());
        lemma_count_live_none(c.slots@);
    }
}

} // verus!
