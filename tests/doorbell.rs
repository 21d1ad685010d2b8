use tl_mbox::channels::{cpu1, cpu2};
use tl_mbox::ipcc::{Ipcc, IpccChannel};

#[test]
fn rx_pending_needs_flag_and_unmask() {
    let mut ipcc = Ipcc::new();
    let ch = cpu2::IPCC_SYSTEM_EVENT_CHANNEL;
    assert!(!ipcc.is_rx_pending(ch));
    ipcc.c2_set_flag_channel(ch);
    assert!(!ipcc.is_rx_pending(ch));
    ipcc.c1_set_rx_channel(ch, true);
    assert!(ipcc.is_rx_pending(ch));
    ipcc.c1_clear_flag_channel(ch);
    assert!(!ipcc.is_rx_pending(ch));
}

#[test]
fn tx_pending_once_flag_taken() {
    let mut ipcc = Ipcc::new();
    let ch = cpu1::IPCC_SYSTEM_CMD_RSP_CHANNEL;
    ipcc.c1_set_flag_channel(ch);
    ipcc.c1_set_tx_channel(ch, true);
    assert!(ipcc.c1_is_active_flag(ch));
    assert!(!ipcc.is_tx_pending(ch));
    ipcc.c2_clear_flag_channel(ch);
    assert!(ipcc.is_tx_pending(ch));
}

#[test]
fn channel_table() {
    assert_eq!(cpu1::IPCC_BLE_CMD_CHANNEL.index(), 0);
    assert_eq!(cpu1::IPCC_SYSTEM_CMD_RSP_CHANNEL.index(), 1);
    assert_eq!(cpu1::IPCC_THREAD_OT_CMD_RSP_CHANNEL, cpu1::IPCC_MAC_802_15_4_CMD_RSP_CHANNEL);
    assert_eq!(cpu1::IPCC_MM_RELEASE_BUFFER_CHANNEL, IpccChannel::Channel4);
    assert_eq!(cpu1::IPCC_HCI_ACL_DATA_CHANNEL.index(), 5);
    assert_eq!(cpu2::IPCC_BLE_EVENT_CHANNEL, IpccChannel::Channel1);
    assert_eq!(cpu2::IPCC_THREAD_NOTIFICATION_ACK_CHANNEL, IpccChannel::Channel3);
    assert_eq!(cpu2::IPCC_TRACES_CHANNEL, IpccChannel::Channel4);
    assert_eq!(cpu2::IPCC_THREAD_CLI_NOTIFICATION_ACK_CHANNEL, IpccChannel::Channel5);
}
