//! Channels on which the coprocessor signals the application core.
use crate::ipcc::IpccChannel;
use vstd::prelude::*;

verus! {

pub const IPCC_BLE_EVENT_CHANNEL: IpccChannel = IpccChannel::Channel1;

pub const IPCC_SYSTEM_EVENT_CHANNEL: IpccChannel = IpccChannel::Channel2;

pub const IPCC_THREAD_NOTIFICATION_ACK_CHANNEL: IpccChannel = IpccChannel::Channel3;

/// Reserved; shares its bit with the thread notification channel.
pub const IPCC_MAC_802_15_4_NOTIFICATION_ACK_CHANNEL: IpccChannel = IpccChannel::Channel3;

pub const IPCC_TRACES_CHANNEL: IpccChannel = IpccChannel::Channel4;

pub const IPCC_THREAD_CLI_NOTIFICATION_ACK_CHANNEL: IpccChannel = IpccChannel::Channel5;

} // verus!
