//! System channel: the command / response handshake on the command channel
//! and the drain of the system event queue into the application ring.
use crate::channels::{cpu1, cpu2};
use crate::evt::{
    decode_cc_evt, evt_kind, evt_queue_items, frame_cc_evt, frame_kind, CcEvt, EvtBox, EvtQueue,
    EVT_QUEUE_CAPACITY, TL_CMD_BUF_SIZE, TL_EVT_MAX_PAYLOAD_SIZE,
};
use crate::ipcc::Ipcc;
use crate::list::LinkedList;
use vstd::prelude::*;

verus! {

/// Packet type of a system command frame.
pub const TL_SYSCMD_PKT_TYPE: u8 = 0x10;

/// Offset of the first payload byte of a command frame.
pub const CMD_PAYLOAD_OFFSET: usize = 12;

#[derive(Debug, Copy, Clone, PartialEq, Eq, Structural)]
pub enum SysState {
    /// No command outstanding: the command buffer is free.
    Idle,
    /// A command was written and signalled; the buffer belongs to the
    /// coprocessor until its response arrives.
    AwaitingResponse,
}

#[derive(Debug, Copy, Clone, PartialEq, Eq, Structural)]
pub enum CmdError {
    /// A command is still waiting for its response.
    Busy,
    /// The payload is longer than a frame can carry.
    PayloadTooLong,
}

/// The handle that the drain makes of the event in `slot`.
pub open spec fn evt_handle(pool: Seq<Vec<u8>>, slot: usize) -> (usize, u8) {
    (slot, frame_kind(pool[slot - 1]@).unwrap())
}

pub open spec fn evt_handles(pool: Seq<Vec<u8>>, slots: Seq<usize>) -> Seq<(usize, u8)> {
    slots.map_values(|slot: usize| evt_handle(pool, slot))
}

/// What a drain of the system event queue `s` into a ring holding `q` does:
/// every event goes into the ring as a handle, in link order, and the signal
/// is acknowledged; or, where the ring has room for fewer, those go in, the
/// next one is handed back, the rest stay linked and the signal stays raised.
pub open spec fn drained(
    s: Seq<usize>,
    q: Seq<(usize, u8)>,
    pool: Seq<Vec<u8>>,
    r: Result<usize, EvtBox>,
    s2: Seq<usize>,
    q2: Seq<(usize, u8)>,
    flags: Seq<bool>,
    flags2: Seq<bool>,
) -> bool {
    let room = EVT_QUEUE_CAPACITY - q.len();
    &&& s.len() <= room ==> {
        &&& r is Ok
        &&& r->Ok_0 == s.len()
        &&& q2 == q + evt_handles(pool, s)
        &&& s2 == Seq::<usize>::empty()
        &&& flags2 == flags.update(cpu2::IPCC_SYSTEM_EVENT_CHANNEL.spec_index(), false)
    }
    &&& s.len() > room ==> {
        &&& r is Err
        &&& r->Err_0 == (EvtBox { slot: s[room], kind: evt_handle(pool, s[room]).1 })
        &&& q2 == q + evt_handles(pool, s.take(room))
        &&& s2 == s.skip(room + 1)
        &&& flags2 == flags
    }
}

/// A drain of `k > 0` linked events into a ring with room for them puts
/// exactly `k` handles into the ring, after what it held, in link order,
/// and leaves the system event queue empty.
pub proof fn lemma_drain_fifo(
    s: Seq<usize>,
    q: Seq<(usize, u8)>,
    pool: Seq<Vec<u8>>,
    r: Result<usize, EvtBox>,
    s2: Seq<usize>,
    q2: Seq<(usize, u8)>,
    flags: Seq<bool>,
    flags2: Seq<bool>,
)
    requires
        drained(s, q, pool, r, s2, q2, flags, flags2),
        s.len() > 0,
        q.len() + s.len() <= EVT_QUEUE_CAPACITY,
    ensures
        r is Ok,
        r->Ok_0 == s.len(),
        q2.len() == q.len() + s.len(),
        q2.take(q.len() as int) == q,
        forall|i: int| 0 <= i < s.len() ==> (#[trigger] q2[q.len() + i]).0 == s[i],
        s2.len() == 0,
{
    assert(q2.take(q.len() as int) =~= q);
    assert forall|i: int| 0 <= i < s.len() implies (#[trigger] q2[q.len() + i]).0 == s[i] by {
        assert(q2[q.len() + i] == evt_handles(pool, s)[i]);
    }
}

/// A drain that finds the ring full enqueues nothing: the first linked
/// event is handed back as the overflow, the ring keeps exactly what it
/// held, in order, and the other events stay linked.
pub proof fn lemma_drain_overflow(
    s: Seq<usize>,
    q: Seq<(usize, u8)>,
    pool: Seq<Vec<u8>>,
    r: Result<usize, EvtBox>,
    s2: Seq<usize>,
    q2: Seq<(usize, u8)>,
    flags: Seq<bool>,
    flags2: Seq<bool>,
)
    requires
        drained(s, q, pool, r, s2, q2, flags, flags2),
        s.len() > 0,
        q.len() == EVT_QUEUE_CAPACITY,
    ensures
        r is Err,
        r->Err_0.slot == s[0],
        q2 == q,
        s2 == s.drop_first(),
        flags2 == flags,
{
    assert(evt_handles(pool, s.take(0)) =~= Seq::<(usize, u8)>::empty());
    assert(q + Seq::<(usize, u8)>::empty() =~= q);
    assert(s.skip(1) =~= s.drop_first());
}

/// Every buffer of the pool is long enough to hold a packet type.
pub open spec fn pool_ok(pool: Seq<Vec<u8>>) -> bool {
    forall|i: int| 0 <= i < pool.len() ==> (#[trigger] frame_kind(pool[i]@)).is_some()
}

/// The command frame that carries `cmdcode` and `payload`: the packet type
/// after the two link words, the command code little endian, the payload
/// length, the payload, and zeros up to the buffer's size.
pub open spec fn cmd_frame(cmdcode: u16, payload: Seq<u8>) -> Seq<u8> {
    Seq::new(
        TL_CMD_BUF_SIZE as nat,
        |i: int|
            if i == 8 {
                TL_SYSCMD_PKT_TYPE
            } else if i == 9 {
                (cmdcode % 256) as u8
            } else if i == 10 {
                (cmdcode / 256) as u8
            } else if i == 11 {
                payload.len() as u8
            } else if 12 <= i < 12 + payload.len() {
                payload[i - 12]
            } else {
                0u8
            },
    )
}

/// Writes a system command frame.
pub fn encode_cmd(cmdcode: u16, payload: &Vec<u8>) -> (r: Vec<u8>)
    requires
        payload.len() <= TL_EVT_MAX_PAYLOAD_SIZE,
    ensures
        r@ == cmd_frame(cmdcode, payload@),
{
    let mut r: Vec<u8> = Vec::new();
    let mut i: usize = 0;
    while i < TL_CMD_BUF_SIZE
        invariant
            payload.len() <= TL_EVT_MAX_PAYLOAD_SIZE,
            i <= TL_CMD_BUF_SIZE,
            r@.len() == i,
            forall|j: int| 0 <= j < i ==> r@[j] == cmd_frame(cmdcode, payload@)[j],
        decreases TL_CMD_BUF_SIZE - i,
    {
        let b: u8 = if i == 8 {
            TL_SYSCMD_PKT_TYPE
        } else if i == 9 {
            (cmdcode % 256) as u8
        } else if i == 10 {
            (cmdcode / 256) as u8
        } else if i == 11 {
            payload.len() as u8
        } else if CMD_PAYLOAD_OFFSET <= i && i < CMD_PAYLOAD_OFFSET + payload.len() {
            payload[i - CMD_PAYLOAD_OFFSET]
        } else {
            0u8
        };
        r.push(b);
        i = i + 1;
    }
    assert(r@ =~= cmd_frame(cmdcode, payload@));
    r
}

/// Signals a command on the system channel and unmasks the interrupt that
/// reports its response.
pub fn send_cmd(ipcc: &mut Ipcc)
    requires
        old(ipcc).wf(),
    ensures
        final(ipcc).wf(),
        final(ipcc).c1_flags() == old(ipcc).c1_flags().update(
            cpu1::IPCC_SYSTEM_CMD_RSP_CHANNEL.spec_index(),
            true,
        ),
        final(ipcc).tx_enabled() == old(ipcc).tx_enabled().update(
            cpu1::IPCC_SYSTEM_CMD_RSP_CHANNEL.spec_index(),
            true,
        ),
        final(ipcc).c2_flags() == old(ipcc).c2_flags(),
        final(ipcc).rx_enabled() == old(ipcc).rx_enabled(),
{
    ipcc.c1_set_flag_channel(cpu1::IPCC_SYSTEM_CMD_RSP_CHANNEL);
    ipcc.c1_set_tx_channel(cpu1::IPCC_SYSTEM_CMD_RSP_CHANNEL, true);
}

pub struct Sys {
    /// Queue in shared memory where the coprocessor links system events.
    pub sys_evt_queue: LinkedList,
    pub state: SysState,
    /// The last command-complete record received, for the layer above.
    pub last_response: Option<CcEvt>,
}

impl Sys {
    pub open spec fn wf(&self) -> bool {
        self.sys_evt_queue.wf()
    }

    /// Sets up an empty system event queue over `slots` event buffers and
    /// unmasks the system event interrupt.
    pub fn new(ipcc: &mut Ipcc, slots: usize) -> (r: Sys)
        requires
            old(ipcc).wf(),
            slots < usize::MAX,
        ensures
            r.wf(),
            r.sys_evt_queue@ == Seq::<usize>::empty(),
            r.sys_evt_queue.slots() == slots,
            r.state == SysState::Idle,
            r.last_response.is_none(),
            final(ipcc).wf(),
            final(ipcc).rx_enabled() == old(ipcc).rx_enabled().update(
                cpu2::IPCC_SYSTEM_EVENT_CHANNEL.spec_index(),
                true,
            ),
            final(ipcc).tx_enabled() == old(ipcc).tx_enabled(),
            final(ipcc).c1_flags() == old(ipcc).c1_flags(),
            final(ipcc).c2_flags() == old(ipcc).c2_flags(),
    {
        let sys_evt_queue = LinkedList::init_head(slots);
        ipcc.c1_set_rx_channel(cpu2::IPCC_SYSTEM_EVENT_CHANNEL, true);
        Sys { sys_evt_queue, state: SysState::Idle, last_response: None }
    }

    /// Writes a command into the command buffer and signals it, unless a
    /// command is outstanding or the payload does not fit.
    pub fn send_command(
        &mut self,
        ipcc: &mut Ipcc,
        cmd_buf: &mut Vec<u8>,
        cmdcode: u16,
        payload: &Vec<u8>,
    ) -> (r: Result<(), CmdError>)
        requires
            old(ipcc).wf(),
        ensures
            final(ipcc).wf(),
            final(self).sys_evt_queue == old(self).sys_evt_queue,
            final(self).last_response == old(self).last_response,
            old(self).state != SysState::Idle ==> r == Err::<(), CmdError>(CmdError::Busy),
            old(self).state == SysState::Idle && payload.len() > TL_EVT_MAX_PAYLOAD_SIZE ==> r
                == Err::<(), CmdError>(CmdError::PayloadTooLong),
            r.is_err() ==> final(self).state == old(self).state && final(cmd_buf)@ == old(cmd_buf)@ && *final(ipcc) == *old(ipcc),
            old(self).state == SysState::Idle && payload.len() <= TL_EVT_MAX_PAYLOAD_SIZE ==> r
                is Ok && final(self).state == SysState::AwaitingResponse && final(cmd_buf)@
                == cmd_frame(cmdcode, payload@) && final(ipcc).c1_flags() == old(ipcc).c1_flags().update(cpu1::IPCC_SYSTEM_CMD_RSP_CHANNEL.spec_index(), true)
                && final(ipcc).tx_enabled() == old(ipcc).tx_enabled().update(
                cpu1::IPCC_SYSTEM_CMD_RSP_CHANNEL.spec_index(),
                true,
            ) && final(ipcc).c2_flags() == old(ipcc).c2_flags() && final(ipcc).rx_enabled()
                == old(ipcc).rx_enabled(),
    {
        if self.state != SysState::Idle {
            return Err(CmdError::Busy);
        }
        if payload.len() > TL_EVT_MAX_PAYLOAD_SIZE {
            return Err(CmdError::PayloadTooLong);
        }
        *cmd_buf = encode_cmd(cmdcode, payload);
        send_cmd(ipcc);
        self.state = SysState::AwaitingResponse;
        Ok(())
    }

    /// Handles the interrupt that reports the coprocessor's response: masks
    /// it, reads the command-complete record that the coprocessor wrote over
    /// the command, keeps it as the last response and frees the channel.
    pub fn cmd_evt_handler(&mut self, ipcc: &mut Ipcc, cmd_buf: &Vec<u8>) -> (r: Option<CcEvt>)
        requires
            old(ipcc).wf(),
        ensures
            r == frame_cc_evt(cmd_buf@),
            final(self).last_response == r,
            final(self).state == SysState::Idle,
            final(self).sys_evt_queue == old(self).sys_evt_queue,
            final(ipcc).wf(),
            final(ipcc).tx_enabled() == old(ipcc).tx_enabled().update(
                cpu1::IPCC_SYSTEM_CMD_RSP_CHANNEL.spec_index(),
                false,
            ),
            final(ipcc).rx_enabled() == old(ipcc).rx_enabled(),
            final(ipcc).c1_flags() == old(ipcc).c1_flags(),
            final(ipcc).c2_flags() == old(ipcc).c2_flags(),
    {
        ipcc.c1_set_tx_channel(cpu1::IPCC_SYSTEM_CMD_RSP_CHANNEL, false);
        let cc = decode_cc_evt(cmd_buf);
        self.last_response = cc;
        self.state = SysState::Idle;
        cc
    }

    /// Drains the whole system event queue in link order into `queue`, one
    /// handle per event, then acknowledges the system event signal.
    ///
    /// Where the ring fills up first, the drain stops: the event that found
    /// no room is handed back as the error, the events after it stay linked,
    /// and the signal is left raised.
    pub fn evt_handler(&mut self, ipcc: &mut Ipcc, pool: &Vec<Vec<u8>>, queue: &mut EvtQueue) -> (r:
        Result<usize, EvtBox>)
        requires
            old(self).wf(),
            old(ipcc).wf(),
            old(self).sys_evt_queue.slots() == pool@.len(),
            pool_ok(pool@),
            evt_queue_items(*old(queue)).len() <= EVT_QUEUE_CAPACITY,
        ensures
            ({
                let s = old(self).sys_evt_queue@;
                let q = evt_queue_items(*old(queue));
                &&& final(self).wf()
                &&& final(self).sys_evt_queue.slots() == old(self).sys_evt_queue.slots()
                &&& final(self).state == old(self).state
                &&& final(self).last_response == old(self).last_response
                &&& final(ipcc).wf()
                &&& final(ipcc).c1_flags() == old(ipcc).c1_flags()
                &&& final(ipcc).rx_enabled() == old(ipcc).rx_enabled()
                &&& final(ipcc).tx_enabled() == old(ipcc).tx_enabled()
                &&& drained(
                    s,
                    q,
                    pool@,
                    r,
                    final(self).sys_evt_queue@,
                    evt_queue_items(*final(queue)),
                    old(ipcc).c2_flags(),
                    final(ipcc).c2_flags(),
                )
            }),
    {
        let ghost s = self.sys_evt_queue@;
        let ghost q = evt_queue_items(*queue);
        let mut n: usize = 0;
        while !self.sys_evt_queue.is_empty()
            invariant
                self.wf(),
                self.sys_evt_queue.slots() == pool@.len(),
                self.state == old(self).state,
                self.last_response == old(self).last_response,
                pool_ok(pool@),
                s == old(self).sys_evt_queue@,
                q == evt_queue_items(*old(queue)),
                q.len() <= EVT_QUEUE_CAPACITY,
                n <= s.len(),
                n + q.len() <= EVT_QUEUE_CAPACITY,
                self.sys_evt_queue@ == s.skip(n as int),
                evt_queue_items(*queue) == q + evt_handles(pool@, s.take(n as int)),
                *ipcc == *old(ipcc),
                old(ipcc).wf(),
                old(self).sys_evt_queue.slots() == pool@.len(),
            decreases self.sys_evt_queue@.len(),
        {
            let slot = match self.sys_evt_queue.remove_head() {
                Some(slot) => slot,
                None => {
                    return Ok(n);
                },
            };
            assert(slot == s[n as int]);
            assert(frame_kind(pool@[slot - 1]@).is_some());
            let kind = match evt_kind(&pool[slot - 1]) {
                Some(k) => k,
                None => 0,
            };
            assert(s.take(n + 1) =~= s.take(n as int).push(slot));
            assert(evt_handles(pool@, s.take(n + 1)) =~= evt_handles(pool@, s.take(n as int)).push(
                evt_handle(pool@, slot),
            ));
            assert(s.skip(n + 1) =~= s.skip(n as int).drop_first());
            match queue.enqueue((slot, kind)) {
                Ok(()) => {},
                Err(_) => {
                    assert(n == EVT_QUEUE_CAPACITY - q.len());
                    assert(kind == frame_kind(pool@[slot - 1]@).unwrap());
                    return Err(EvtBox { slot, kind });
                },
            }
            n = n + 1;
        }
        assert(n == s.len());
        assert(self.sys_evt_queue@ =~= Seq::<usize>::empty());
        assert(s.take(n as int) =~= s);
        ipcc.c1_clear_flag_channel(cpu2::IPCC_SYSTEM_EVENT_CHANNEL);
        Ok(n)
    }
}

} // verus!
