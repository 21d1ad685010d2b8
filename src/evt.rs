//! Event and command frames, decoded-event handles, and the fixed-capacity
//! ring that carries handles from the interrupt path to the application.
use heapless::consts::U32;
use heapless::spsc::Queue;
use vstd::prelude::*;

verus! {

/// Two link words in front of every frame in shared memory.
pub const TL_PACKET_HEADER_SIZE: usize = 8;

/// Packet type, event code and payload length.
pub const TL_EVT_HEADER_SIZE: usize = 3;

/// Largest event payload.
pub const TL_EVT_MAX_PAYLOAD_SIZE: usize = 255;

/// Bytes of one event buffer: header, event header and largest payload.
pub const TL_EVT_BUF_SIZE: usize = 266;

/// Bytes of the system command buffer: header, packet type, command code,
/// payload length and largest payload.
pub const TL_CMD_BUF_SIZE: usize = 267;

/// Offset of the packet type byte of a frame.
pub const KIND_OFFSET: usize = 8;

/// Offset of the command-complete record inside a response frame.
pub const CC_EVT_OFFSET: usize = 11;

/// Number of handles the application ring holds.
pub const EVT_QUEUE_CAPACITY: usize = 32;

/// The packet type of an event frame, where the frame is long enough to
/// hold one.
pub open spec fn frame_kind(b: Seq<u8>) -> Option<u8> {
    if b.len() > KIND_OFFSET {
        Some(b[KIND_OFFSET as int])
    } else {
        None
    }
}

/// Reads the packet type of an event frame, checking its length.
pub fn evt_kind(frame: &Vec<u8>) -> (r: Option<u8>)
    ensures
        r == frame_kind(frame@),
{
    if frame.len() > KIND_OFFSET {
        Some(frame[KIND_OFFSET])
    } else {
        None
    }
}

/// Command-complete record: the system channel's answer to a command.
#[derive(Debug, Copy, Clone, PartialEq, Eq, Structural)]
pub struct CcEvt {
    pub numcmd: u8,
    pub cmdcode: u16,
    pub status: u8,
}

/// The command-complete record that a response frame holds, where the frame
/// is long enough.
pub open spec fn frame_cc_evt(b: Seq<u8>) -> Option<CcEvt> {
    if b.len() >= CC_EVT_OFFSET + 4 {
        Some(
            CcEvt {
                numcmd: b[11],
                cmdcode: (b[12] as int + b[13] as int * 256) as u16,
                status: b[14],
            },
        )
    } else {
        None
    }
}

/// Reads the command-complete record of a response frame, checking its
/// length. The command code is little endian.
pub fn decode_cc_evt(frame: &Vec<u8>) -> (r: Option<CcEvt>)
    ensures
        r == frame_cc_evt(frame@),
{
    if frame.len() >= CC_EVT_OFFSET + 4 {
        let cmdcode: u16 = (frame[12] as u16) + (frame[13] as u16) * 256;
        Some(CcEvt { numcmd: frame[11], cmdcode, status: frame[14] })
    } else {
        None
    }
}

/// Rounded-up quotient of `x` by `y`.
pub fn divc(x: usize, y: usize) -> (r: usize)
    requires
        y > 0,
        x + y <= usize::MAX,
    ensures
        r == (x + y - 1) / (y as int),
{
    (x + y - 1) / y
}

/// Bytes of the event pool: one word-aligned buffer per queued event.
pub fn pool_size(depth: usize) -> (r: usize)
    requires
        depth <= 0x10000,
    ensures
        r == depth * 4 * ((TL_EVT_BUF_SIZE + 3) / 4),
{
    let per: usize = divc(TL_PACKET_HEADER_SIZE + TL_EVT_HEADER_SIZE + TL_EVT_MAX_PAYLOAD_SIZE, 4);
    assert(per == 67);
    depth * 4 * per
}

/// A decoded event: the buffer slot that holds its frame and its packet
/// type. Whoever holds it owns the buffer until it is released.
#[derive(Debug, Copy, Clone, PartialEq, Eq, Structural)]
pub struct EvtBox {
    pub slot: usize,
    pub kind: u8,
}

impl EvtBox {
    pub fn slot(&self) -> (r: usize)
        ensures
            r == self.slot,
    {
        self.slot
    }

    pub fn kind(&self) -> (r: u8)
        ensures
            r == self.kind,
    {
        self.kind
    }
}

/// Single-producer single-consumer ring of decoded events, kept as
/// `(slot, kind)` pairs.
#[verifier::external_body]
pub struct EvtQueue {
    q: Queue<(usize, u8), U32, u8>,
}

/// What the ring holds, oldest first.
pub uninterp spec fn evt_queue_items(q: EvtQueue) -> Seq<(usize, u8)>;

impl EvtQueue {
    /// Relies on `heapless::spsc::Queue::u8`: a new queue is empty.
    #[verifier::external_body]
    pub fn new() -> (r: EvtQueue)
        ensures
            evt_queue_items(r) == Seq::<(usize, u8)>::empty(),
    {
        EvtQueue { q: Queue::u8() }
    }

    /// Relies on `heapless::spsc::Queue::enqueue`: the item goes last unless
    /// the queue already holds its capacity of 32, in which case it comes
    /// back and the queue is unchanged.
    #[verifier::external_body]
    pub fn enqueue(&mut self, item: (usize, u8)) -> (r: Result<(), (usize, u8)>)
        ensures
            evt_queue_items(*old(self)).len() < 32 ==> r.is_ok()
                && evt_queue_items(*final(self)) == evt_queue_items(*old(self)).push(item),
            evt_queue_items(*old(self)).len() >= 32 ==> r.is_err() && r->Err_0 == item
                && evt_queue_items(*final(self)) == evt_queue_items(*old(self)),
            evt_queue_items(*final(self)).len() <= 32,
    {
        self.q.enqueue(item)
    }

    /// Relies on `heapless::spsc::Queue::dequeue`: the oldest item leaves,
    /// or `None` when the queue is empty.
    #[verifier::external_body]
    pub fn dequeue(&mut self) -> (r: Option<(usize, u8)>)
        ensures
            evt_queue_items(*old(self)).len() == 0 ==> r.is_none()
                && evt_queue_items(*final(self)) == evt_queue_items(*old(self)),
            evt_queue_items(*old(self)).len() > 0 ==> r == Some(evt_queue_items(*old(self))[0])
                && evt_queue_items(*final(self)) == evt_queue_items(*old(self)).drop_first(),
            evt_queue_items(*final(self)).len() <= 32,
    {
        self.q.dequeue()
    }

    /// Relies on `heapless::spsc::Queue::len`: the number of items held.
    #[verifier::external_body]
    pub fn len(&self) -> (r: usize)
        ensures
            r == evt_queue_items(*self).len(),
            r <= 32,
    {
        self.q.len() as usize
    }
}

} // verus!
