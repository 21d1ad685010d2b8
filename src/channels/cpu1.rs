//! Channels on which the application core signals the coprocessor.
use crate::ipcc::IpccChannel;
use vstd::prelude::*;

verus! {

pub const IPCC_BLE_CMD_CHANNEL: IpccChannel = IpccChannel::Channel1;

pub const IPCC_SYSTEM_CMD_RSP_CHANNEL: IpccChannel = IpccChannel::Channel2;

pub const IPCC_THREAD_OT_CMD_RSP_CHANNEL: IpccChannel = IpccChannel::Channel3;

/// Reserved; shares its bit with the thread command channel.
pub const IPCC_MAC_802_15_4_CMD_RSP_CHANNEL: IpccChannel = IpccChannel::Channel3;

/// Reserved.
pub const IPCC_THREAD_CLI_CMD_CHANNEL: IpccChannel = IpccChannel::Channel5;

pub const IPCC_MM_RELEASE_BUFFER_CHANNEL: IpccChannel = IpccChannel::Channel4;

pub const IPCC_HCI_ACL_DATA_CHANNEL: IpccChannel = IpccChannel::Channel6;

} // verus!
