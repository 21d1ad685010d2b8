use tl_mbox::evt::{decode_cc_evt, divc, evt_kind, pool_size, CcEvt, EvtQueue};
use tl_mbox::sys::encode_cmd;

#[test]
fn divc_rounds_up() {
    assert_eq!(divc(266, 4), 67);
    assert_eq!(divc(8, 4), 2);
    assert_eq!(divc(0, 4), 0);
}

#[test]
fn pool_size_of_five_events() {
    assert_eq!(pool_size(5), 1340);
}

#[test]
fn event_kind_is_bounds_checked() {
    let mut frame = vec![0u8; 12];
    frame[8] = 0x12;
    assert_eq!(evt_kind(&frame), Some(0x12));
    assert_eq!(evt_kind(&vec![0u8; 8]), None);
}

#[test]
fn command_complete_decoding() {
    let mut frame = vec![0u8; 20];
    frame[11] = 1;
    frame[12] = 0x34;
    frame[13] = 0x12;
    frame[14] = 7;
    assert_eq!(decode_cc_evt(&frame), Some(CcEvt { numcmd: 1, cmdcode: 0x1234, status: 7 }));
    assert_eq!(decode_cc_evt(&vec![0u8; 14]), None);
}

#[test]
fn command_frame_layout() {
    let f = encode_cmd(0xFC0A, &vec![5, 6, 7]);
    assert_eq!(f.len(), 267);
    assert_eq!(&f[0..8], &[0u8; 8]);
    assert_eq!(f[8], 0x10);
    assert_eq!(f[9], 0x0A);
    assert_eq!(f[10], 0xFC);
    assert_eq!(f[11], 3);
    assert_eq!(&f[12..15], &[5, 6, 7]);
    assert!(f[15..].iter().all(|b| *b == 0));
}

#[test]
fn ring_refuses_thirty_third_event() {
    let mut q = EvtQueue::new();
    for i in 0..32usize {
        assert_eq!(q.enqueue((i + 1, i as u8)), Ok(()));
    }
    assert_eq!(q.len(), 32);
    assert_eq!(q.enqueue((33, 33)), Err((33, 33)));
    for i in 0..32usize {
        assert_eq!(q.dequeue(), Some((i + 1, i as u8)));
    }
    assert_eq!(q.dequeue(), None);
}
