use tl_mbox::info::{encode_memory_size, encode_version, DeviceInfoTable, WirelessFwInfoTable};

#[test]
fn fw_info_round_trip() {
    let version = encode_version(1, 10, 3, 0);
    let memory_size = encode_memory_size(10, 20, 64);
    let t = WirelessFwInfoTable::new(version, memory_size, 0, 0);
    assert_eq!(t.version_major(), 1);
    assert_eq!(t.version_minor(), 10);
    assert_eq!(t.subversion(), 3);
    assert_eq!(t.build(), 0);
    assert_eq!(t.flash_size(), 64);
    assert_eq!(t.sram2a_size(), 10);
    assert_eq!(t.sram2b_size(), 20);
}

#[test]
fn encoded_words_are_exact() {
    assert_eq!(encode_version(1, 10, 3, 0), 0x010A_0300);
    assert_eq!(encode_memory_size(10, 20, 64), 0x0A14_0040);
}

#[test]
fn top_bits_of_each_byte_are_read() {
    let t = WirelessFwInfoTable::new(0xFFFE_FDFC, 0x8081_0082, 0, 0);
    assert_eq!(t.version_major(), 0xFF);
    assert_eq!(t.version_minor(), 0xFE);
    assert_eq!(t.subversion(), 0xFD);
    assert_eq!(t.build(), 0xFC);
    assert_eq!(t.sram2a_size(), 0x80);
    assert_eq!(t.sram2b_size(), 0x81);
    assert_eq!(t.flash_size(), 0x82);
}

#[test]
fn zeroed_device_info() {
    let d = DeviceInfoTable::zeroed();
    assert_eq!(d.wireless_fw_info_table.version, 0);
    assert_eq!(d.rss_info_table.memory_size, 0);
    assert_eq!(d.safe_boot_info_table.version, 0);
}
