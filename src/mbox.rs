//! The transport state: tables, queues and buffers shared with the
//! coprocessor, the handlers that serve its doorbell interrupts, and the
//! application's side of the event ring.
use crate::channels::{cpu1, cpu2};
use crate::evt::{
    evt_queue_items, frame_cc_evt, CcEvt, EvtBox, EvtQueue, EVT_QUEUE_CAPACITY, KIND_OFFSET,
    TL_CMD_BUF_SIZE, TL_EVT_BUF_SIZE, TL_EVT_MAX_PAYLOAD_SIZE,
};
use crate::info::{DeviceInfoTable, WirelessFwInfoTable};
use crate::ipcc::{Ipcc, IpccChannel};
use crate::mm::{disjoint, MemoryManager};
use crate::sys::{cmd_frame, drained, pool_ok, CmdError, Sys, SysState};
use vstd::prelude::*;

verus! {

/// Number of event buffers in the pool.
pub const CFG_TLBLE_EVT_QUEUE_LENGTH: usize = 5;

/// Bytes of each sub-table in shared memory, with 32-bit addresses.
pub const DEVICE_INFO_TABLE_SIZE: u32 = 32;

pub const BLE_TABLE_SIZE: u32 = 16;

pub const THREAD_TABLE_SIZE: u32 = 12;

pub const SYS_TABLE_SIZE: u32 = 8;

pub const MEM_MANAGER_TABLE_SIZE: u32 = 28;

pub const TRACES_TABLE_SIZE: u32 = 4;

pub const MAC_802_15_4_TABLE_SIZE: u32 = 12;

/// Reference table: where each sub-table lies, as an offset into the shared
/// mailbox region. The sub-tables follow one another in this order.
#[derive(Debug, Copy, Clone, PartialEq, Eq, Structural)]
pub struct RefTable {
    pub device_info_table: u32,
    pub ble_table: u32,
    pub thread_table: u32,
    pub sys_table: u32,
    pub mem_manager_table: u32,
    pub traces_table: u32,
    pub mac_802_15_4_table: u32,
}

impl RefTable {
    pub open spec fn spec_layout() -> RefTable {
        RefTable {
            device_info_table: 0,
            ble_table: 32,
            thread_table: 48,
            sys_table: 60,
            mem_manager_table: 68,
            traces_table: 96,
            mac_802_15_4_table: 100,
        }
    }

    /// Places the sub-tables one after another from the region's start.
    pub fn layout() -> (r: RefTable)
        ensures
            r == RefTable::spec_layout(),
    {
        let device_info_table: u32 = 0;
        let ble_table = device_info_table + DEVICE_INFO_TABLE_SIZE;
        let thread_table = ble_table + BLE_TABLE_SIZE;
        let sys_table = thread_table + THREAD_TABLE_SIZE;
        let mem_manager_table = sys_table + SYS_TABLE_SIZE;
        let traces_table = mem_manager_table + MEM_MANAGER_TABLE_SIZE;
        let mac_802_15_4_table = traces_table + TRACES_TABLE_SIZE;
        RefTable {
            device_info_table,
            ble_table,
            thread_table,
            sys_table,
            mem_manager_table,
            traces_table,
            mac_802_15_4_table,
        }
    }
}

pub struct TlMboxConfig {}

impl TlMboxConfig {
    pub fn new() -> TlMboxConfig {
        TlMboxConfig {  }
    }
}

/// What the receive interrupt found to do.
#[derive(Debug, Copy, Clone)]
pub enum RxDispatch {
    /// The system event queue was drained; the result of the drain.
    SystemEvents(Result<usize, EvtBox>),
    /// A channel of the table that has no handler yet.
    Inert(IpccChannel),
    /// A channel that the table does not assign in this direction.
    Unexpected(IpccChannel),
    /// No channel pending.
    Idle,
}

/// What the transmit interrupt found to do.
#[derive(Debug, Copy, Clone)]
pub enum TxDispatch {
    /// The response to the system command, as read from the command buffer.
    SystemResponse(Option<CcEvt>),
    /// The release channel was free again and the held buffers went out.
    BuffersReleased,
    /// A channel of the table that has no handler yet.
    Inert(IpccChannel),
    /// A channel that the table does not assign in this direction.
    Unexpected(IpccChannel),
    /// No channel pending.
    Idle,
}

/// The receive channels after the system event channel, in the order they
/// are served, and what is reported for each.
pub open spec fn rx_other(ipcc: Ipcc) -> RxDispatch {
    if ipcc.spec_rx_pending(cpu2::IPCC_THREAD_NOTIFICATION_ACK_CHANNEL) {
        RxDispatch::Inert(cpu2::IPCC_THREAD_NOTIFICATION_ACK_CHANNEL)
    } else if ipcc.spec_rx_pending(cpu2::IPCC_BLE_EVENT_CHANNEL) {
        RxDispatch::Inert(cpu2::IPCC_BLE_EVENT_CHANNEL)
    } else if ipcc.spec_rx_pending(cpu2::IPCC_TRACES_CHANNEL) {
        RxDispatch::Inert(cpu2::IPCC_TRACES_CHANNEL)
    } else if ipcc.spec_rx_pending(cpu2::IPCC_THREAD_CLI_NOTIFICATION_ACK_CHANNEL) {
        RxDispatch::Inert(cpu2::IPCC_THREAD_CLI_NOTIFICATION_ACK_CHANNEL)
    } else if ipcc.spec_rx_pending(IpccChannel::Channel6) {
        RxDispatch::Unexpected(IpccChannel::Channel6)
    } else {
        RxDispatch::Idle
    }
}

/// The transmit channels after the system and release channels, in the
/// order they are served, and what is reported for each.
pub open spec fn tx_other(ipcc: Ipcc) -> TxDispatch {
    if ipcc.spec_tx_pending(cpu1::IPCC_HCI_ACL_DATA_CHANNEL) {
        TxDispatch::Inert(cpu1::IPCC_HCI_ACL_DATA_CHANNEL)
    } else if ipcc.spec_tx_pending(cpu1::IPCC_BLE_CMD_CHANNEL) {
        TxDispatch::Inert(cpu1::IPCC_BLE_CMD_CHANNEL)
    } else if ipcc.spec_tx_pending(IpccChannel::Channel5) {
        TxDispatch::Unexpected(IpccChannel::Channel5)
    } else {
        TxDispatch::Idle
    }
}

proof fn lemma_disjoint_skip(s: Seq<usize>, x: Seq<usize>, k: int)
    requires
        disjoint(s, x),
        0 <= k <= s.len(),
    ensures
        disjoint(s.skip(k), x),
{
    assert forall|i: int| 0 <= i < s.skip(k).len() implies !x.contains(#[trigger] s.skip(k)[i]) by {
        assert(s.skip(k)[i] == s[i + k]);
    }
}

proof fn lemma_disjoint_concat(s: Seq<usize>, a: Seq<usize>, b: Seq<usize>)
    requires
        disjoint(s, a),
        disjoint(s, b),
    ensures
        disjoint(s, a + b),
{
    assert forall|i: int| 0 <= i < s.len() implies !(a + b).contains(#[trigger] s[i]) by {
        if (a + b).contains(s[i]) {
            let k = choose|k: int| 0 <= k < (a + b).len() && (a + b)[k] == s[i];
            if k < a.len() {
                assert(a.contains(s[i]));
            } else {
                assert(b[k - a.len()] == s[i]);
                assert(b.contains(s[i]));
            }
        }
    }
}

proof fn lemma_disjoint_push(s: Seq<usize>, x: Seq<usize>, v: usize)
    requires
        disjoint(s, x),
        !s.contains(v),
    ensures
        disjoint(s, x.push(v)),
{
    assert forall|i: int| 0 <= i < s.len() implies !x.push(v).contains(#[trigger] s[i]) by {
        if x.push(v).contains(s[i]) {
            let k = choose|k: int| 0 <= k < x.push(v).len() && x.push(v)[k] == s[i];
            if k < x.len() {
                assert(x.contains(s[i]));
            }
        }
    }
}

proof fn lemma_disjoint_extend(s: Seq<usize>, x: Seq<usize>, v: usize)
    requires
        disjoint(s, x),
        !x.contains(v),
    ensures
        disjoint(s.push(v), x),
{
    assert forall|i: int| 0 <= i < s.push(v).len() implies !x.contains(#[trigger] s.push(v)[i]) by {
        if i < s.len() {
            assert(s.push(v)[i] == s[i]);
        }
    }
}

/// The firmware information that a read of `d` reports.
pub open spec fn fw_info_of(d: DeviceInfoTable) -> Option<WirelessFwInfoTable> {
    if d.wireless_fw_info_table.version == 0 {
        None
    } else {
        Some(d.wireless_fw_info_table)
    }
}

/// A read of the firmware information reports nothing while its version
/// word is zero, and after the coprocessor writes a record with a nonzero
/// version it reports exactly that record.
pub proof fn lemma_fw_info_after_write(d: DeviceInfoTable, info: WirelessFwInfoTable)
    ensures
        d.wireless_fw_info_table.version == 0 ==> fw_info_of(d).is_none(),
        ({
            let d2 = DeviceInfoTable { wireless_fw_info_table: info, ..d };
            &&& info.version == 0 ==> fw_info_of(d2).is_none()
            &&& info.version != 0 ==> fw_info_of(d2) == Some(info)
        }),
{
}

/// The shared tables and buffers of `b` are those of `a`.
pub open spec fn shared_same(a: TlMbox, b: TlMbox) -> bool {
    &&& b.ref_table == a.ref_table
    &&& b.device_info == a.device_info
    &&& b.evt_pool == a.evt_pool
    &&& b.sys_cmd_buf == a.sys_cmd_buf
}

pub struct TlMbox {
    pub sys: Sys,
    pub mm: MemoryManager,
    pub config: TlMboxConfig,
    /// Decoded events waiting for the application.
    pub evt_queue: EvtQueue,
    pub ref_table: RefTable,
    pub device_info: DeviceInfoTable,
    /// Event buffers; slot `i` of the queues is `evt_pool[i - 1]`.
    pub evt_pool: Vec<Vec<u8>>,
    /// The system command buffer, which the response overwrites.
    pub sys_cmd_buf: Vec<u8>,
}

impl TlMbox {
    pub open spec fn wf(&self) -> bool {
        &&& self.sys.wf()
        &&& self.mm.wf()
        &&& self.sys.sys_evt_queue.slots() == self.evt_pool@.len()
        &&& self.mm.slots() == self.evt_pool@.len()
        &&& pool_ok(self.evt_pool@)
        &&& evt_queue_items(self.evt_queue).len() <= EVT_QUEUE_CAPACITY
        &&& disjoint(self.sys.sys_evt_queue@, self.mm.free_buf_queue@)
        &&& disjoint(self.sys.sys_evt_queue@, self.mm.local_free_buf_queue@)
    }

    /// Initializes the transport: zeroes the shared tables and buffers,
    /// publishes the reference table, then arms the system channel.
    pub fn tl_init(ipcc: &mut Ipcc, config: TlMboxConfig) -> (r: TlMbox)
        requires
            old(ipcc).wf(),
        ensures
            r.wf(),
            r.ref_table == RefTable::spec_layout(),
            r.device_info.wireless_fw_info_table.version == 0,
            r.evt_pool@.len() == CFG_TLBLE_EVT_QUEUE_LENGTH,
            forall|i: int| 0 <= i < r.evt_pool@.len() ==> #[trigger] r.evt_pool@[i]@ == Seq::new(
                TL_EVT_BUF_SIZE as nat,
                |j: int| 0u8,
            ),
            r.sys_cmd_buf@ == Seq::new(TL_CMD_BUF_SIZE as nat, |j: int| 0u8),
            r.sys.sys_evt_queue@ == Seq::<usize>::empty(),
            r.sys.state == SysState::Idle,
            r.sys.last_response.is_none(),
            r.mm.free_buf_queue@ == Seq::<usize>::empty(),
            r.mm.local_free_buf_queue@ == Seq::<usize>::empty(),
            evt_queue_items(r.evt_queue) == Seq::<(usize, u8)>::empty(),
            final(ipcc).wf(),
            final(ipcc).rx_enabled() == old(ipcc).rx_enabled().update(
                cpu2::IPCC_SYSTEM_EVENT_CHANNEL.spec_index(),
                true,
            ),
            final(ipcc).tx_enabled() == old(ipcc).tx_enabled(),
            final(ipcc).c1_flags() == old(ipcc).c1_flags(),
            final(ipcc).c2_flags() == old(ipcc).c2_flags(),
    {
        let device_info = DeviceInfoTable::zeroed();
        let mut evt_pool: Vec<Vec<u8>> = Vec::new();
        let mut i: usize = 0;
        while i < CFG_TLBLE_EVT_QUEUE_LENGTH
            invariant
                i <= CFG_TLBLE_EVT_QUEUE_LENGTH,
                evt_pool@.len() == i,
                forall|k: int| 0 <= k < i ==> #[trigger] evt_pool@[k]@ == Seq::new(
                    TL_EVT_BUF_SIZE as nat,
                    |j: int| 0u8,
                ),
            decreases CFG_TLBLE_EVT_QUEUE_LENGTH - i,
        {
            let buf: Vec<u8> = vec![0u8; TL_EVT_BUF_SIZE];
            assert(buf@ =~= Seq::new(TL_EVT_BUF_SIZE as nat, |j: int| 0u8));
            evt_pool.push(buf);
            i = i + 1;
        }
        let sys_cmd_buf: Vec<u8> = vec![0u8; TL_CMD_BUF_SIZE];
        assert(sys_cmd_buf@ =~= Seq::new(TL_CMD_BUF_SIZE as nat, |j: int| 0u8));
        let ref_table = RefTable::layout();
        let sys = Sys::new(ipcc, CFG_TLBLE_EVT_QUEUE_LENGTH);
        let mm = MemoryManager::new(CFG_TLBLE_EVT_QUEUE_LENGTH);
        let evt_queue = EvtQueue::new();
        assert forall|k: int| 0 <= k < evt_pool@.len() implies (#[trigger] crate::evt::frame_kind(
            evt_pool@[k]@,
        )).is_some() by {
            assert(evt_pool@[k]@.len() == TL_EVT_BUF_SIZE);
        }
        TlMbox { sys, mm, config, evt_queue, ref_table, device_info, evt_pool, sys_cmd_buf }
    }

    /// Serves the receive interrupt: the first pending channel in the order
    /// system event, thread acknowledgement, link-layer event, traces, CLI
    /// acknowledgement. Only the system event channel has a handler.
    pub fn interrupt_ipcc_rx_handler(&mut self, ipcc: &mut Ipcc) -> (r: RxDispatch)
        requires
            old(self).wf(),
            old(ipcc).wf(),
        ensures
            final(self).wf(),
            final(ipcc).wf(),
            old(ipcc).spec_rx_pending(cpu2::IPCC_SYSTEM_EVENT_CHANNEL) ==> {
                &&& r is SystemEvents
                &&& drained(
                    old(self).sys.sys_evt_queue@,
                    evt_queue_items(old(self).evt_queue),
                    old(self).evt_pool@,
                    r->SystemEvents_0,
                    final(self).sys.sys_evt_queue@,
                    evt_queue_items(final(self).evt_queue),
                    old(ipcc).c2_flags(),
                    final(ipcc).c2_flags(),
                )
                &&& shared_same(*old(self), *final(self))
                &&& final(self).mm == old(self).mm
                &&& final(self).sys.state == old(self).sys.state
                &&& final(self).sys.last_response == old(self).sys.last_response
                &&& final(ipcc).c1_flags() == old(ipcc).c1_flags()
                &&& final(ipcc).rx_enabled() == old(ipcc).rx_enabled()
                &&& final(ipcc).tx_enabled() == old(ipcc).tx_enabled()
            },
            !old(ipcc).spec_rx_pending(cpu2::IPCC_SYSTEM_EVENT_CHANNEL) ==> r == rx_other(*old(ipcc))
                && *final(self) == *old(self) && *final(ipcc) == *old(ipcc),
    {
        if ipcc.is_rx_pending(cpu2::IPCC_SYSTEM_EVENT_CHANNEL) {
            let ghost s = self.sys.sys_evt_queue@;
            let ghost q = evt_queue_items(self.evt_queue);
            let d = self.sys.evt_handler(ipcc, &self.evt_pool, &mut self.evt_queue);
            proof {
                let room = EVT_QUEUE_CAPACITY - q.len();
                if s.len() <= room {
                    assert(disjoint(self.sys.sys_evt_queue@, self.mm.free_buf_queue@));
                    assert(disjoint(self.sys.sys_evt_queue@, self.mm.local_free_buf_queue@));
                } else {
                    lemma_disjoint_skip(s, self.mm.free_buf_queue@, room + 1);
                    lemma_disjoint_skip(s, self.mm.local_free_buf_queue@, room + 1);
                }
            }
            RxDispatch::SystemEvents(d)
        } else if ipcc.is_rx_pending(cpu2::IPCC_THREAD_NOTIFICATION_ACK_CHANNEL) {
            RxDispatch::Inert(cpu2::IPCC_THREAD_NOTIFICATION_ACK_CHANNEL)
        } else if ipcc.is_rx_pending(cpu2::IPCC_BLE_EVENT_CHANNEL) {
            RxDispatch::Inert(cpu2::IPCC_BLE_EVENT_CHANNEL)
        } else if ipcc.is_rx_pending(cpu2::IPCC_TRACES_CHANNEL) {
            RxDispatch::Inert(cpu2::IPCC_TRACES_CHANNEL)
        } else if ipcc.is_rx_pending(cpu2::IPCC_THREAD_CLI_NOTIFICATION_ACK_CHANNEL) {
            RxDispatch::Inert(cpu2::IPCC_THREAD_CLI_NOTIFICATION_ACK_CHANNEL)
        } else if ipcc.is_rx_pending(IpccChannel::Channel6) {
            RxDispatch::Unexpected(IpccChannel::Channel6)
        } else {
            RxDispatch::Idle
        }
    }

    /// Serves the transmit interrupt: the first pending channel in the order
    /// system command, thread command, buffer release, bulk data,
    /// link-layer command.
    pub fn interrupt_ipcc_tx_handler(&mut self, ipcc: &mut Ipcc) -> (r: TxDispatch)
        requires
            old(self).wf(),
            old(ipcc).wf(),
        ensures
            final(self).wf(),
            final(ipcc).wf(),
            final(ipcc).c2_flags() == old(ipcc).c2_flags(),
            final(ipcc).rx_enabled() == old(ipcc).rx_enabled(),
            shared_same(*old(self), *final(self)),
            final(self).evt_queue == old(self).evt_queue,
            final(self).sys.sys_evt_queue == old(self).sys.sys_evt_queue,
            old(ipcc).spec_tx_pending(cpu1::IPCC_SYSTEM_CMD_RSP_CHANNEL) ==> {
                &&& r == TxDispatch::SystemResponse(frame_cc_evt(old(self).sys_cmd_buf@))
                &&& final(self).sys.last_response == frame_cc_evt(old(self).sys_cmd_buf@)
                &&& final(self).sys.state == SysState::Idle
                &&& final(self).mm == old(self).mm
                &&& final(ipcc).c1_flags() == old(ipcc).c1_flags()
                &&& final(ipcc).tx_enabled() == old(ipcc).tx_enabled().update(
                    cpu1::IPCC_SYSTEM_CMD_RSP_CHANNEL.spec_index(),
                    false,
                )
            },
            !old(ipcc).spec_tx_pending(cpu1::IPCC_SYSTEM_CMD_RSP_CHANNEL)
                && old(ipcc).spec_tx_pending(cpu1::IPCC_THREAD_OT_CMD_RSP_CHANNEL) ==> r
                == TxDispatch::Inert(cpu1::IPCC_THREAD_OT_CMD_RSP_CHANNEL) && *final(self) == *old(self) && *final(ipcc) == *old(ipcc),
            !old(ipcc).spec_tx_pending(cpu1::IPCC_SYSTEM_CMD_RSP_CHANNEL)
                && !old(ipcc).spec_tx_pending(cpu1::IPCC_THREAD_OT_CMD_RSP_CHANNEL)
                && old(ipcc).spec_tx_pending(cpu1::IPCC_MM_RELEASE_BUFFER_CHANNEL) ==> {
                &&& r == TxDispatch::BuffersReleased
                &&& final(self).sys == old(self).sys
                &&& final(self).mm.free_buf_queue@ == old(self).mm.free_buf_queue@ + old(self).mm.local_free_buf_queue@
                &&& final(self).mm.local_free_buf_queue@ == Seq::<usize>::empty()
                &&& final(ipcc).c1_flags() == old(ipcc).c1_flags().update(
                    cpu1::IPCC_MM_RELEASE_BUFFER_CHANNEL.spec_index(),
                    true,
                )
                &&& final(ipcc).tx_enabled() == old(ipcc).tx_enabled().update(
                    cpu1::IPCC_MM_RELEASE_BUFFER_CHANNEL.spec_index(),
                    false,
                )
            },
            !old(ipcc).spec_tx_pending(cpu1::IPCC_SYSTEM_CMD_RSP_CHANNEL)
                && !old(ipcc).spec_tx_pending(cpu1::IPCC_THREAD_OT_CMD_RSP_CHANNEL)
                && !old(ipcc).spec_tx_pending(cpu1::IPCC_MM_RELEASE_BUFFER_CHANNEL) ==> r == tx_other(
                *old(ipcc),
            ) && *final(self) == *old(self) && *final(ipcc) == *old(ipcc),
    {
        if ipcc.is_tx_pending(cpu1::IPCC_SYSTEM_CMD_RSP_CHANNEL) {
            let cc = self.sys.cmd_evt_handler(ipcc, &self.sys_cmd_buf);
            TxDispatch::SystemResponse(cc)
        } else if ipcc.is_tx_pending(cpu1::IPCC_THREAD_OT_CMD_RSP_CHANNEL) {
            TxDispatch::Inert(cpu1::IPCC_THREAD_OT_CMD_RSP_CHANNEL)
        } else if ipcc.is_tx_pending(cpu1::IPCC_MM_RELEASE_BUFFER_CHANNEL) {
            let ghost old_mm = self.mm;
            self.mm.free_buf_handler(ipcc);
            proof {
                lemma_disjoint_concat(
                    self.sys.sys_evt_queue@,
                    old_mm.free_buf_queue@,
                    old_mm.local_free_buf_queue@,
                );
            }
            TxDispatch::BuffersReleased
        } else if ipcc.is_tx_pending(cpu1::IPCC_HCI_ACL_DATA_CHANNEL) {
            TxDispatch::Inert(cpu1::IPCC_HCI_ACL_DATA_CHANNEL)
        } else if ipcc.is_tx_pending(cpu1::IPCC_BLE_CMD_CHANNEL) {
            TxDispatch::Inert(cpu1::IPCC_BLE_CMD_CHANNEL)
        } else if ipcc.is_tx_pending(IpccChannel::Channel5) {
            TxDispatch::Unexpected(IpccChannel::Channel5)
        } else {
            TxDispatch::Idle
        }
    }

    /// Returns the coprocessor's wireless firmware information, once the
    /// coprocessor has filled it in (its version word is no longer zero).
    pub fn wireless_fw_info(&self) -> (r: Option<WirelessFwInfoTable>)
        ensures
            r == fw_info_of(self.device_info),
    {
        let info = self.device_info.wireless_fw_info_table;
        if info.version != 0 {
            Some(info)
        } else {
            None
        }
    }

    /// The coprocessor's write of its firmware information record, whole
    /// words at a time.
    pub fn write_wireless_fw_info(&mut self, info: WirelessFwInfoTable)
        requires
            old(self).wf(),
        ensures
            final(self).wf(),
            final(self).device_info == (DeviceInfoTable {
                wireless_fw_info_table: info,
                ..old(self).device_info
            }),
            final(self).sys == old(self).sys,
            final(self).mm == old(self).mm,
            final(self).evt_queue == old(self).evt_queue,
            final(self).evt_pool == old(self).evt_pool,
    {
        self.device_info.wireless_fw_info_table = info;
    }

    /// Picks the oldest decoded event, if any.
    pub fn dequeue_event(&mut self) -> (r: Option<EvtBox>)
        requires
            old(self).wf(),
        ensures
            final(self).wf(),
            shared_same(*old(self), *final(self)),
            final(self).sys == old(self).sys,
            final(self).mm == old(self).mm,
            evt_queue_items(old(self).evt_queue).len() == 0 ==> r.is_none()
                && evt_queue_items(final(self).evt_queue) == evt_queue_items(old(self).evt_queue),
            evt_queue_items(old(self).evt_queue).len() > 0 ==> r == Some(
                (EvtBox {
                    slot: evt_queue_items(old(self).evt_queue)[0].0,
                    kind: evt_queue_items(old(self).evt_queue)[0].1,
                }),
            ) && evt_queue_items(final(self).evt_queue) == evt_queue_items(
                old(self).evt_queue,
            ).drop_first(),
    {
        match self.evt_queue.dequeue() {
            Some((slot, kind)) => Some(EvtBox { slot, kind }),
            None => None,
        }
    }

    /// The coprocessor's side of posting a system event: writes `frame` into
    /// the event buffer `slot` and links it last in the system event queue.
    /// Refused, with nothing changed, where `slot` is not a buffer of the
    /// pool or is linked in some queue, or the frame is too short to carry a
    /// packet type or longer than a buffer.
    pub fn link_system_event(&mut self, slot: usize, frame: Vec<u8>) -> (r: bool)
        requires
            old(self).wf(),
        ensures
            final(self).wf(),
            r == (1 <= slot <= old(self).evt_pool@.len()
                && !old(self).sys.sys_evt_queue@.contains(slot)
                && !old(self).mm.free_buf_queue@.contains(slot)
                && !old(self).mm.local_free_buf_queue@.contains(slot) && KIND_OFFSET < frame@.len()
                <= TL_EVT_BUF_SIZE),
            r ==> final(self).sys.sys_evt_queue@ == old(self).sys.sys_evt_queue@.push(slot)
                && final(self).evt_pool@.len() == old(self).evt_pool@.len()
                && final(self).evt_pool@[slot - 1]@ == frame@ && forall|i: int|
                0 <= i < old(self).evt_pool@.len() && i != slot - 1 ==> #[trigger] final(self).evt_pool@[i] == old(self).evt_pool@[i],
            !r ==> *final(self) == *old(self),
            final(self).mm == old(self).mm,
            final(self).evt_queue == old(self).evt_queue,
    {
        if slot < 1 || slot > self.evt_pool.len() {
            return false;
        }
        if self.sys.sys_evt_queue.is_linked(slot) || self.mm.free_buf_queue.is_linked(slot)
            || self.mm.local_free_buf_queue.is_linked(slot) {
            return false;
        }
        if frame.len() <= KIND_OFFSET || frame.len() > TL_EVT_BUF_SIZE {
            return false;
        }
        let ghost old_pool = self.evt_pool@;
        self.evt_pool.set(slot - 1, frame);
        self.sys.sys_evt_queue.insert_tail(slot);
        proof {
            lemma_disjoint_extend(
                old(self).sys.sys_evt_queue@,
                self.mm.free_buf_queue@,
                slot,
            );
            lemma_disjoint_extend(
                old(self).sys.sys_evt_queue@,
                self.mm.local_free_buf_queue@,
                slot,
            );
            assert forall|i: int| 0 <= i < self.evt_pool@.len() implies (
            #[trigger] crate::evt::frame_kind(self.evt_pool@[i]@)).is_some() by {
                if i != slot - 1 {
                    assert(self.evt_pool@[i] == old_pool[i]);
                    assert(crate::evt::frame_kind(old_pool[i]@).is_some());
                }
            }
        }
        true
    }

    /// Hands the buffer of a consumed event back to the coprocessor.
    /// Refused, with nothing changed, where its slot is not a buffer of the
    /// pool or is still linked in some queue.
    pub fn release_event(&mut self, ipcc: &mut Ipcc, evt: EvtBox) -> (r: bool)
        requires
            old(self).wf(),
            old(ipcc).wf(),
        ensures
            final(self).wf(),
            final(ipcc).wf(),
            r == (1 <= evt.slot <= old(self).evt_pool@.len()
                && !old(self).sys.sys_evt_queue@.contains(evt.slot)
                && !old(self).mm.free_buf_queue@.contains(evt.slot)
                && !old(self).mm.local_free_buf_queue@.contains(evt.slot)),
            !r ==> *final(self) == *old(self) && *final(ipcc) == *old(ipcc),
            r ==> final(self).mm.free_buf_queue@ + final(self).mm.local_free_buf_queue@ == old(self).mm.free_buf_queue@ + old(self).mm.local_free_buf_queue@.push(evt.slot),
            r ==> final(ipcc).c1_flags()[cpu1::IPCC_MM_RELEASE_BUFFER_CHANNEL.spec_index()],
            final(self).sys == old(self).sys,
            final(self).evt_queue == old(self).evt_queue,
            shared_same(*old(self), *final(self)),
            final(ipcc).c2_flags() == old(ipcc).c2_flags(),
            final(ipcc).rx_enabled() == old(ipcc).rx_enabled(),
    {
        let slot = evt.slot;
        if slot < 1 || slot > self.evt_pool.len() {
            return false;
        }
        if self.sys.sys_evt_queue.is_linked(slot) || self.mm.free_buf_queue.is_linked(slot)
            || self.mm.local_free_buf_queue.is_linked(slot) {
            return false;
        }
        let ghost old_mm = self.mm;
        self.mm.evt_drop(ipcc, slot);
        proof {
            let s = self.sys.sys_evt_queue@;
            lemma_disjoint_push(s, old_mm.local_free_buf_queue@, slot);
            if old(ipcc).c1_flags()[cpu1::IPCC_MM_RELEASE_BUFFER_CHANNEL.spec_index()] {
                assert(old_mm.free_buf_queue@ + old_mm.local_free_buf_queue@.push(slot)
                    =~= (old_mm.free_buf_queue@ + old_mm.local_free_buf_queue@).push(slot));
                assert(self.mm.free_buf_queue@ + self.mm.local_free_buf_queue@
                    =~= (old_mm.free_buf_queue@ + old_mm.local_free_buf_queue@).push(slot));
            } else {
                lemma_disjoint_concat(
                    s,
                    old_mm.free_buf_queue@,
                    old_mm.local_free_buf_queue@.push(slot),
                );
                assert(self.mm.free_buf_queue@ + self.mm.local_free_buf_queue@
                    =~= self.mm.free_buf_queue@);
            }
        }
        true
    }

    /// Writes a system command into the command buffer and signals it,
    /// unless a command is outstanding or the payload does not fit.
    pub fn send_system_command(&mut self, ipcc: &mut Ipcc, cmdcode: u16, payload: &Vec<u8>) -> (r:
        Result<(), CmdError>)
        requires
            old(self).wf(),
            old(ipcc).wf(),
        ensures
            final(self).wf(),
            final(ipcc).wf(),
            final(self).sys.sys_evt_queue == old(self).sys.sys_evt_queue,
            final(self).sys.last_response == old(self).sys.last_response,
            final(self).mm == old(self).mm,
            final(self).evt_queue == old(self).evt_queue,
            final(self).evt_pool == old(self).evt_pool,
            old(self).sys.state != SysState::Idle ==> r == Err::<(), CmdError>(CmdError::Busy),
            old(self).sys.state == SysState::Idle && payload.len() > TL_EVT_MAX_PAYLOAD_SIZE ==> r
                == Err::<(), CmdError>(CmdError::PayloadTooLong),
            r.is_err() ==> final(self).sys.state == old(self).sys.state && final(self).sys_cmd_buf@
                == old(self).sys_cmd_buf@ && *final(ipcc) == *old(ipcc),
            old(self).sys.state == SysState::Idle && payload.len() <= TL_EVT_MAX_PAYLOAD_SIZE ==> r
                is Ok && final(self).sys.state == SysState::AwaitingResponse
                && final(self).sys_cmd_buf@ == cmd_frame(cmdcode, payload@) && final(ipcc).c1_flags()
                == old(ipcc).c1_flags().update(cpu1::IPCC_SYSTEM_CMD_RSP_CHANNEL.spec_index(), true)
                && final(ipcc).tx_enabled() == old(ipcc).tx_enabled().update(
                cpu1::IPCC_SYSTEM_CMD_RSP_CHANNEL.spec_index(),
                true,
            ) && final(ipcc).c2_flags() == old(ipcc).c2_flags() && final(ipcc).rx_enabled()
                == old(ipcc).rx_enabled(),
    {
        self.sys.send_command(ipcc, &mut self.sys_cmd_buf, cmdcode, payload)
    }

    /// The coprocessor's write of its response over the command buffer.
    pub fn write_system_response(&mut self, frame: Vec<u8>)
        requires
            old(self).wf(),
        ensures
            final(self).wf(),
            final(self).sys_cmd_buf@ == frame@,
            final(self).sys == old(self).sys,
            final(self).mm == old(self).mm,
            final(self).evt_queue == old(self).evt_queue,
            final(self).evt_pool == old(self).evt_pool,
    {
        self.sys_cmd_buf = frame;
    }

    /// The last command-complete record that arrived, for the layer above.
    pub fn last_response(&self) -> (r: Option<CcEvt>)
        ensures
            r == self.sys.last_response,
    {
        self.sys.last_response
    }
}

} // verus!