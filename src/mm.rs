//! Memory manager: hands event buffers back to the coprocessor through the
//! shared free-buffer queue and the buffer release channel.
use crate::channels::cpu1;
use crate::ipcc::Ipcc;
use crate::list::LinkedList;
use vstd::prelude::*;

verus! {

/// No slot of `a` is linked in `b`.
pub open spec fn disjoint(a: Seq<usize>, b: Seq<usize>) -> bool {
    forall|i: int| 0 <= i < a.len() ==> !b.contains(#[trigger] a[i])
}

pub struct MemoryManager {
    /// Shared with the coprocessor, which takes the buffers linked here.
    pub free_buf_queue: LinkedList,
    /// Buffers released while the release channel is still busy.
    pub local_free_buf_queue: LinkedList,
}

impl MemoryManager {
    pub open spec fn wf(&self) -> bool {
        &&& self.free_buf_queue.wf()
        &&& self.local_free_buf_queue.wf()
        &&& self.free_buf_queue.slots() == self.local_free_buf_queue.slots()
        &&& disjoint(self.local_free_buf_queue@, self.free_buf_queue@)
    }

    pub open spec fn slots(&self) -> nat {
        self.free_buf_queue.slots()
    }

    pub fn new(slots: usize) -> (r: MemoryManager)
        requires
            slots < usize::MAX,
        ensures
            r.wf(),
            r.slots() == slots,
            r.free_buf_queue@ == Seq::<usize>::empty(),
            r.local_free_buf_queue@ == Seq::<usize>::empty(),
    {
        MemoryManager {
            free_buf_queue: LinkedList::init_head(slots),
            local_free_buf_queue: LinkedList::init_head(slots),
        }
    }

    /// Moves every locally held buffer, in order, to the shared free queue
    /// and signals the coprocessor on the release channel.
    pub fn send_free_buf(&mut self, ipcc: &mut Ipcc)
        requires
            old(self).wf(),
            old(ipcc).wf(),
        ensures
            final(self).wf(),
            final(self).slots() == old(self).slots(),
            final(self).free_buf_queue@ == old(self).free_buf_queue@ + old(self).local_free_buf_queue@,
            final(self).local_free_buf_queue@ == Seq::<usize>::empty(),
            final(ipcc).wf(),
            final(ipcc).c1_flags() == old(ipcc).c1_flags().update(
                cpu1::IPCC_MM_RELEASE_BUFFER_CHANNEL.spec_index(),
                true,
            ),
            final(ipcc).c2_flags() == old(ipcc).c2_flags(),
            final(ipcc).rx_enabled() == old(ipcc).rx_enabled(),
            final(ipcc).tx_enabled() == old(ipcc).tx_enabled(),
    {
        let ghost f0 = self.free_buf_queue@;
        let ghost l0 = self.local_free_buf_queue@;
        proof {
            self.local_free_buf_queue.lemma_slots();
        }
        let ghost mut n: int = 0;
        while !self.local_free_buf_queue.is_empty()
            invariant
                self.free_buf_queue.wf(),
                self.local_free_buf_queue.wf(),
                self.free_buf_queue.slots() == old(self).slots(),
                self.local_free_buf_queue.slots() == old(self).slots(),
                f0 == old(self).free_buf_queue@,
                l0 == old(self).local_free_buf_queue@,
                l0.no_duplicates(),
                disjoint(l0, f0),
                0 <= n <= l0.len(),
                self.local_free_buf_queue@ == l0.skip(n),
                self.free_buf_queue@ == f0 + l0.take(n),
            decreases self.local_free_buf_queue@.len(),
        {
            let slot = match self.local_free_buf_queue.remove_head() {
                Some(s) => s,
                None => 0,
            };
            assert(slot == l0[n]);
            assert(!(f0 + l0.take(n)).contains(slot)) by {
                if (f0 + l0.take(n)).contains(slot) {
                    let k = choose|k: int| 0 <= k < (f0 + l0.take(n)).len() && (f0 + l0.take(n))[k] == slot;
                    if k < f0.len() {
                        assert(f0.contains(l0[n]));
                    } else {
                        assert(l0[k - f0.len()] == l0[n]);
                    }
                }
            }
            self.free_buf_queue.insert_tail(slot);
            proof {
                assert(l0.take(n + 1) =~= l0.take(n).push(slot));
                assert(f0 + l0.take(n + 1) =~= (f0 + l0.take(n)).push(slot));
                assert(l0.skip(n + 1) =~= l0.skip(n).drop_first());
                n = n + 1;
            }
        }
        assert(l0.take(n) =~= l0);
        ipcc.c1_set_flag_channel(cpu1::IPCC_MM_RELEASE_BUFFER_CHANNEL);
    }

    /// Takes back the buffer in `slot`: it is handed to the coprocessor at
    /// once if the release channel is free, else kept locally until the
    /// channel's interrupt reports it free.
    pub fn evt_drop(&mut self, ipcc: &mut Ipcc, slot: usize)
        requires
            old(self).wf(),
            old(ipcc).wf(),
            1 <= slot <= old(self).slots(),
            !old(self).free_buf_queue@.contains(slot),
            !old(self).local_free_buf_queue@.contains(slot),
        ensures
            final(self).wf(),
            final(self).slots() == old(self).slots(),
            final(ipcc).wf(),
            final(ipcc).c2_flags() == old(ipcc).c2_flags(),
            final(ipcc).rx_enabled() == old(ipcc).rx_enabled(),
            old(ipcc).c1_flags()[cpu1::IPCC_MM_RELEASE_BUFFER_CHANNEL.spec_index()] ==> {
                &&& final(self).local_free_buf_queue@ == old(self).local_free_buf_queue@.push(slot)
                &&& final(self).free_buf_queue@ == old(self).free_buf_queue@
                &&& final(ipcc).c1_flags() == old(ipcc).c1_flags()
                &&& final(ipcc).tx_enabled() == old(ipcc).tx_enabled().update(
                    cpu1::IPCC_MM_RELEASE_BUFFER_CHANNEL.spec_index(),
                    true,
                )
            },
            !old(ipcc).c1_flags()[cpu1::IPCC_MM_RELEASE_BUFFER_CHANNEL.spec_index()] ==> {
                &&& final(self).local_free_buf_queue@ == Seq::<usize>::empty()
                &&& final(self).free_buf_queue@ == old(self).free_buf_queue@ + old(
                    self,
                ).local_free_buf_queue@.push(slot)
                &&& final(ipcc).c1_flags() == old(ipcc).c1_flags().update(
                    cpu1::IPCC_MM_RELEASE_BUFFER_CHANNEL.spec_index(),
                    true,
                )
                &&& final(ipcc).tx_enabled() == old(ipcc).tx_enabled()
            },
    {
        self.local_free_buf_queue.insert_tail(slot);
        proof {
            let l = self.local_free_buf_queue@;
            assert forall|i: int| 0 <= i < l.len() implies !self.free_buf_queue@.contains(#[trigger] l[i]) by {
                if i < l.len() - 1 {
                    assert(l[i] == old(self).local_free_buf_queue@[i]);
                }
            }
        }
        if ipcc.c1_is_active_flag(cpu1::IPCC_MM_RELEASE_BUFFER_CHANNEL) {
            ipcc.c1_set_tx_channel(cpu1::IPCC_MM_RELEASE_BUFFER_CHANNEL, true);
        } else {
            self.send_free_buf(ipcc);
        }
    }

    /// Handles the interrupt that reports the release channel free: masks it
    /// and hands over the locally held buffers.
    pub fn free_buf_handler(&mut self, ipcc: &mut Ipcc)
        requires
            old(self).wf(),
            old(ipcc).wf(),
        ensures
            final(self).wf(),
            final(self).slots() == old(self).slots(),
            final(self).free_buf_queue@ == old(self).free_buf_queue@ + old(self).local_free_buf_queue@,
            final(self).local_free_buf_queue@ == Seq::<usize>::empty(),
            final(ipcc).wf(),
            final(ipcc).c1_flags() == old(ipcc).c1_flags().update(
                cpu1::IPCC_MM_RELEASE_BUFFER_CHANNEL.spec_index(),
                true,
            ),
            final(ipcc).tx_enabled() == old(ipcc).tx_enabled().update(
                cpu1::IPCC_MM_RELEASE_BUFFER_CHANNEL.spec_index(),
                false,
            ),
            final(ipcc).c2_flags() == old(ipcc).c2_flags(),
            final(ipcc).rx_enabled() == old(ipcc).rx_enabled(),
    {
        ipcc.c1_set_tx_channel(cpu1::IPCC_MM_RELEASE_BUFFER_CHANNEL, false);
        self.send_free_buf(ipcc);
    }
}

} // verus!
