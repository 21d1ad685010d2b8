use tl_mbox::channels::{cpu1, cpu2};
use tl_mbox::evt::{CcEvt, EvtBox, EvtQueue};
use tl_mbox::info::{encode_memory_size, encode_version, WirelessFwInfoTable};
use tl_mbox::ipcc::{Ipcc, IpccChannel};
use tl_mbox::mbox::{RefTable, RxDispatch, TlMbox, TlMboxConfig, TxDispatch};
use tl_mbox::sys::{CmdError, Sys, SysState};

fn frame(kind: u8) -> Vec<u8> {
    let mut f = vec![0u8; 16];
    f[8] = kind;
    f
}

fn setup() -> (TlMbox, Ipcc) {
    let mut ipcc = Ipcc::new();
    let mbox = TlMbox::tl_init(&mut ipcc, TlMboxConfig::new());
    (mbox, ipcc)
}

#[test]
fn init_publishes_tables_and_arms_system_channel() {
    let (mbox, mut ipcc) = setup();
    assert_eq!(mbox.ref_table, RefTable::layout());
    assert_eq!(mbox.ref_table.ble_table, 32);
    assert_eq!(mbox.ref_table.mac_802_15_4_table, 100);
    assert_eq!(mbox.evt_pool.len(), 5);
    assert!(mbox.evt_pool.iter().all(|b| b.len() == 266 && b.iter().all(|x| *x == 0)));
    ipcc.c2_set_flag_channel(cpu2::IPCC_SYSTEM_EVENT_CHANNEL);
    assert!(ipcc.is_rx_pending(cpu2::IPCC_SYSTEM_EVENT_CHANNEL));
}

#[test]
fn three_linked_events_come_out_in_order() {
    let (mut mbox, mut ipcc) = setup();
    assert!(mbox.link_system_event(3, frame(0x12)));
    assert!(mbox.link_system_event(1, frame(0x13)));
    assert!(mbox.link_system_event(2, frame(0x14)));
    ipcc.c2_set_flag_channel(cpu2::IPCC_SYSTEM_EVENT_CHANNEL);
    match mbox.interrupt_ipcc_rx_handler(&mut ipcc) {
        RxDispatch::SystemEvents(Ok(n)) => assert_eq!(n, 3),
        other => panic!("unexpected dispatch {:?}", other),
    }
    assert!(!ipcc.is_rx_pending(cpu2::IPCC_SYSTEM_EVENT_CHANNEL));
    assert_eq!(mbox.dequeue_event(), Some(EvtBox { slot: 3, kind: 0x12 }));
    assert_eq!(mbox.dequeue_event(), Some(EvtBox { slot: 1, kind: 0x13 }));
    assert_eq!(mbox.dequeue_event(), Some(EvtBox { slot: 2, kind: 0x14 }));
    assert_eq!(mbox.dequeue_event(), None);
}

#[test]
fn drain_enqueues_every_linked_event() {
    let mut ipcc = Ipcc::new();
    let mut sys = Sys::new(&mut ipcc, 6);
    let pool: Vec<Vec<u8>> = (0..6u8).map(|k| frame(k + 100)).collect();
    let mut q = EvtQueue::new();
    for s in [5usize, 2, 6, 1] {
        sys.sys_evt_queue.insert_tail(s);
    }
    ipcc.c2_set_flag_channel(cpu2::IPCC_SYSTEM_EVENT_CHANNEL);
    assert_eq!(sys.evt_handler(&mut ipcc, &pool, &mut q), Ok(4));
    assert!(sys.sys_evt_queue.is_empty());
    assert_eq!(q.len(), 4);
    assert_eq!(q.dequeue(), Some((5, 104)));
    assert_eq!(q.dequeue(), Some((2, 101)));
    assert_eq!(q.dequeue(), Some((6, 105)));
    assert_eq!(q.dequeue(), Some((1, 100)));
    assert!(!ipcc.is_rx_pending(cpu2::IPCC_SYSTEM_EVENT_CHANNEL));
}

#[test]
fn drain_overflow_is_reported() {
    let mut ipcc = Ipcc::new();
    let mut sys = Sys::new(&mut ipcc, 40);
    let pool: Vec<Vec<u8>> = (0..40u8).map(|k| frame(k)).collect();
    let mut q = EvtQueue::new();
    for s in 1..=33usize {
        sys.sys_evt_queue.insert_tail(s);
    }
    ipcc.c2_set_flag_channel(cpu2::IPCC_SYSTEM_EVENT_CHANNEL);
    assert_eq!(sys.evt_handler(&mut ipcc, &pool, &mut q), Err(EvtBox { slot: 33, kind: 32 }));
    assert!(sys.sys_evt_queue.is_empty());
    assert!(ipcc.is_rx_pending(cpu2::IPCC_SYSTEM_EVENT_CHANNEL));
    for s in 1..=32usize {
        assert_eq!(q.dequeue(), Some((s, (s - 1) as u8)));
    }
    assert_eq!(q.dequeue(), None);
}

#[test]
fn drain_into_full_ring_keeps_ring_and_queue() {
    let mut ipcc = Ipcc::new();
    let mut sys = Sys::new(&mut ipcc, 3);
    let pool: Vec<Vec<u8>> = (0..3u8).map(|k| frame(k)).collect();
    let mut q = EvtQueue::new();
    for i in 0..32usize {
        assert_eq!(q.enqueue((1000 + i, 0)), Ok(()));
    }
    sys.sys_evt_queue.insert_tail(2);
    sys.sys_evt_queue.insert_tail(3);
    assert_eq!(sys.evt_handler(&mut ipcc, &pool, &mut q), Err(EvtBox { slot: 2, kind: 1 }));
    assert!(sys.sys_evt_queue.is_linked(3));
    assert!(!sys.sys_evt_queue.is_linked(2));
    for i in 0..32usize {
        assert_eq!(q.dequeue(), Some((1000 + i, 0)));
    }
}

#[test]
fn fw_info_absent_until_written() {
    let (mut mbox, _ipcc) = setup();
    assert!(mbox.wireless_fw_info().is_none());
    let t = WirelessFwInfoTable::new(encode_version(1, 10, 3, 0), encode_memory_size(10, 20, 64), 7, 9);
    mbox.write_wireless_fw_info(t);
    let got = mbox.wireless_fw_info().unwrap();
    assert_eq!(got.version, 0x010A_0300);
    assert_eq!(got.memory_size, 0x0A14_0040);
    assert_eq!(got.thread_info, 7);
    assert_eq!(got.ble_info, 9);
    mbox.write_wireless_fw_info(WirelessFwInfoTable::new(0, 1, 2, 3));
    assert!(mbox.wireless_fw_info().is_none());
}

#[test]
fn link_refuses_bad_slots_and_frames() {
    let (mut mbox, _ipcc) = setup();
    assert!(!mbox.link_system_event(0, frame(1)));
    assert!(!mbox.link_system_event(6, frame(1)));
    assert!(!mbox.link_system_event(1, vec![0u8; 8]));
    assert!(!mbox.link_system_event(1, vec![0u8; 267]));
    assert!(mbox.link_system_event(1, frame(1)));
    assert!(!mbox.link_system_event(1, frame(1)));
}

#[test]
fn system_command_and_response() {
    let (mut mbox, mut ipcc) = setup();
    assert_eq!(mbox.send_system_command(&mut ipcc, 0xFC0A, &vec![1, 2]), Ok(()));
    assert_eq!(mbox.sys.state, SysState::AwaitingResponse);
    assert_eq!(mbox.sys_cmd_buf[9], 0x0A);
    assert!(ipcc.c1_is_active_flag(cpu1::IPCC_SYSTEM_CMD_RSP_CHANNEL));
    assert_eq!(mbox.send_system_command(&mut ipcc, 1, &vec![]), Err(CmdError::Busy));
    let mut rsp = vec![0u8; 20];
    rsp[11] = 1;
    rsp[12] = 0x0A;
    rsp[13] = 0xFC;
    rsp[14] = 0;
    mbox.write_system_response(rsp);
    ipcc.c2_clear_flag_channel(cpu1::IPCC_SYSTEM_CMD_RSP_CHANNEL);
    let expected = CcEvt { numcmd: 1, cmdcode: 0xFC0A, status: 0 };
    match mbox.interrupt_ipcc_tx_handler(&mut ipcc) {
        TxDispatch::SystemResponse(Some(cc)) => assert_eq!(cc, expected),
        other => panic!("unexpected dispatch {:?}", other),
    }
    assert_eq!(mbox.last_response(), Some(expected));
    assert_eq!(mbox.sys.state, SysState::Idle);
    assert!(!ipcc.is_tx_pending(cpu1::IPCC_SYSTEM_CMD_RSP_CHANNEL));
}

#[test]
fn long_payload_is_refused() {
    let (mut mbox, mut ipcc) = setup();
    assert_eq!(
        mbox.send_system_command(&mut ipcc, 1, &vec![0u8; 256]),
        Err(CmdError::PayloadTooLong)
    );
    assert_eq!(mbox.sys.state, SysState::Idle);
    assert!(!ipcc.c1_is_active_flag(cpu1::IPCC_SYSTEM_CMD_RSP_CHANNEL));
}

#[test]
fn released_buffers_reach_the_free_queue() {
    let (mut mbox, mut ipcc) = setup();
    assert!(mbox.link_system_event(2, frame(5)));
    ipcc.c2_set_flag_channel(cpu2::IPCC_SYSTEM_EVENT_CHANNEL);
    mbox.interrupt_ipcc_rx_handler(&mut ipcc);
    let e = mbox.dequeue_event().unwrap();
    assert!(mbox.release_event(&mut ipcc, e));
    assert!(mbox.mm.free_buf_queue.is_linked(2));
    assert!(ipcc.c1_is_active_flag(cpu1::IPCC_MM_RELEASE_BUFFER_CHANNEL));
    // a second release while the channel is busy is held locally
    assert!(mbox.link_system_event(4, frame(6)));
    ipcc.c2_set_flag_channel(cpu2::IPCC_SYSTEM_EVENT_CHANNEL);
    mbox.interrupt_ipcc_rx_handler(&mut ipcc);
    let e2 = mbox.dequeue_event().unwrap();
    assert!(mbox.release_event(&mut ipcc, e2));
    assert!(mbox.mm.local_free_buf_queue.is_linked(4));
    assert!(!mbox.release_event(&mut ipcc, e2));
    // the coprocessor takes the queue; the free channel interrupt flushes
    while mbox.mm.free_buf_queue.remove_head().is_some() {}
    ipcc.c2_clear_flag_channel(cpu1::IPCC_MM_RELEASE_BUFFER_CHANNEL);
    match mbox.interrupt_ipcc_tx_handler(&mut ipcc) {
        TxDispatch::BuffersReleased => {}
        other => panic!("unexpected dispatch {:?}", other),
    }
    assert!(mbox.mm.free_buf_queue.is_linked(4));
    assert!(mbox.mm.local_free_buf_queue.is_empty());
}

#[test]
fn inert_and_unexpected_channels_are_told_apart() {
    let (mut mbox, mut ipcc) = setup();
    assert!(matches!(mbox.interrupt_ipcc_rx_handler(&mut ipcc), RxDispatch::Idle));
    ipcc.c1_set_rx_channel(IpccChannel::Channel6, true);
    ipcc.c2_set_flag_channel(IpccChannel::Channel6);
    assert!(matches!(
        mbox.interrupt_ipcc_rx_handler(&mut ipcc),
        RxDispatch::Unexpected(IpccChannel::Channel6)
    ));
    ipcc.c1_set_rx_channel(cpu2::IPCC_TRACES_CHANNEL, true);
    ipcc.c2_set_flag_channel(cpu2::IPCC_TRACES_CHANNEL);
    assert!(matches!(
        mbox.interrupt_ipcc_rx_handler(&mut ipcc),
        RxDispatch::Inert(IpccChannel::Channel4)
    ));
    assert!(matches!(mbox.interrupt_ipcc_tx_handler(&mut ipcc), TxDispatch::Idle));
    ipcc.c1_set_tx_channel(IpccChannel::Channel5, true);
    assert!(matches!(
        mbox.interrupt_ipcc_tx_handler(&mut ipcc),
        TxDispatch::Unexpected(IpccChannel::Channel5)
    ));
    ipcc.c1_set_tx_channel(cpu1::IPCC_HCI_ACL_DATA_CHANNEL, true);
    assert!(matches!(
        mbox.interrupt_ipcc_tx_handler(&mut ipcc),
        TxDispatch::Inert(IpccChannel::Channel6)
    ));
}
