//! Information tables that the coprocessor fills in shared memory, and the
//! reference table through which it finds every sub-table.
use bit_field::BitField;
use vstd::arithmetic::div_mod::lemma_fundamental_div_mod_converse;
use vstd::arithmetic::power2::{lemma2_to64, pow2};
use vstd::prelude::*;

verus! {

/// The `width` bits of `w` that start at bit `lo`, as a number.
pub open spec fn field(w: u32, lo: nat, width: nat) -> nat {
    (w as nat / pow2(lo)) % pow2(width)
}

/// Relies on `BitField::get_bits` of bit_field for `u32`: for a range inside
/// the word it returns the bits `lo..hi` moved down to bit 0.
#[verifier::external_body]
fn get_bits(w: u32, lo: usize, hi: usize) -> (r: u32)
    requires
        lo < hi <= 32,
    ensures
        r as nat == field(w, lo as nat, (hi - lo) as nat),
{
    w.get_bits(lo..hi)
}

/// Reads the byte of `w` that starts at bit `lo`.
fn byte_at(w: u32, lo: usize) -> (r: u8)
    requires
        lo <= 24,
    ensures
        r as nat == field(w, lo as nat, 8),
{
    let b = get_bits(w, lo, lo + 8);
    proof {
        lemma2_to64();
    }
    b as u8
}

/// A whole word built from four bytes, most significant first.
pub open spec fn word_of(b3: u8, b2: u8, b1: u8, b0: u8) -> nat {
    b3 as nat * 0x100_0000 + b2 as nat * 0x1_0000 + b1 as nat * 0x100 + b0 as nat
}

proof fn lemma_byte_of(hi: int, byte: int, lo: int, p: int)
    requires
        p > 0,
        0 <= lo < p,
        0 <= byte < 256,
        hi >= 0,
    ensures
        (((hi * 256 + byte) * p + lo) / p) % 256 == byte,
{
    let x = (hi * 256 + byte) * p + lo;
    lemma_fundamental_div_mod_converse(x, p, hi * 256 + byte, lo);
    assert(x / p == hi * 256 + byte) by {
        assert(x == (hi * 256 + byte) * p + lo);
    }
    lemma_fundamental_div_mod_converse(hi * 256 + byte, 256, hi, byte);
}

/// Each byte of a word built from four bytes is read back unchanged.
pub proof fn lemma_word_bytes(b3: u8, b2: u8, b1: u8, b0: u8)
    ensures
        word_of(b3, b2, b1, b0) <= u32::MAX,
        field(word_of(b3, b2, b1, b0) as u32, 24, 8) == b3,
        field(word_of(b3, b2, b1, b0) as u32, 16, 8) == b2,
        field(word_of(b3, b2, b1, b0) as u32, 8, 8) == b1,
        field(word_of(b3, b2, b1, b0) as u32, 0, 8) == b0,
{
    lemma2_to64();
    let (a, b, c, d) = (b3 as int, b2 as int, b1 as int, b0 as int);
    let v = word_of(b3, b2, b1, b0) as int;
    assert(v == (0 * 256 + a) * 0x100_0000 + (b * 0x1_0000 + c * 0x100 + d));
    lemma_byte_of(0, a, b * 0x1_0000 + c * 0x100 + d, 0x100_0000);
    assert(v == (a * 256 + b) * 0x1_0000 + (c * 0x100 + d));
    lemma_byte_of(a, b, c * 0x100 + d, 0x1_0000);
    assert(v == ((a * 256 + b) * 256 + c) * 0x100 + d);
    lemma_byte_of(a * 256 + b, c, d, 0x100);
    assert(v == (((a * 256 + b) * 256 + c) * 256 + d) * 1 + 0);
    lemma_byte_of((a * 256 + b) * 256 + c, d, 0, 1);
}

#[derive(Debug, Copy, Clone)]
pub struct SafeBootInfoTable {
    pub version: u32,
}

#[derive(Debug, Copy, Clone)]
pub struct RssInfoTable {
    pub version: u32,
    pub memory_size: u32,
    pub rss_info: u32,
}

/// Version and memory sizes of the coprocessor's wireless firmware.
///
/// `version`: major in bits 24..32, minor in 16..24, subversion in 8..16,
/// build and branch in 0..8.
/// `memory_size`: SRAM2a in 1 KB sectors in bits 24..32, SRAM2b in 1 KB
/// sectors in 16..24, reserved in 8..16, flash in 4 KB sectors in 0..8.
#[derive(Debug, Copy, Clone)]
pub struct WirelessFwInfoTable {
    pub version: u32,
    pub memory_size: u32,
    pub thread_info: u32,
    pub ble_info: u32,
}

impl WirelessFwInfoTable {
    pub fn new(version: u32, memory_size: u32, thread_info: u32, ble_info: u32) -> (r: Self)
        ensures
            r.version == version,
            r.memory_size == memory_size,
            r.thread_info == thread_info,
            r.ble_info == ble_info,
    {
        WirelessFwInfoTable { version, memory_size, thread_info, ble_info }
    }

    pub fn version_major(&self) -> (r: u8)
        ensures
            r as nat == field(self.version, 24, 8),
    {
        byte_at(self.version, 24)
    }

    pub fn version_minor(&self) -> (r: u8)
        ensures
            r as nat == field(self.version, 16, 8),
    {
        byte_at(self.version, 16)
    }

    pub fn subversion(&self) -> (r: u8)
        ensures
            r as nat == field(self.version, 8, 8),
    {
        byte_at(self.version, 8)
    }

    /// Build and branch byte of the version word.
    pub fn build(&self) -> (r: u8)
        ensures
            r as nat == field(self.version, 0, 8),
    {
        byte_at(self.version, 0)
    }

    /// Size of FLASH, expressed in number of 4K sectors.
    pub fn flash_size(&self) -> (r: u8)
        ensures
            r as nat == field(self.memory_size, 0, 8),
    {
        byte_at(self.memory_size, 0)
    }

    /// Size of SRAM2a, expressed in number of 1K sectors.
    pub fn sram2a_size(&self) -> (r: u8)
        ensures
            r as nat == field(self.memory_size, 24, 8),
    {
        byte_at(self.memory_size, 24)
    }

    /// Size of SRAM2b, expressed in number of 1K sectors.
    pub fn sram2b_size(&self) -> (r: u8)
        ensures
            r as nat == field(self.memory_size, 16, 8),
    {
        byte_at(self.memory_size, 16)
    }
}

/// Packs a firmware version into its word.
pub fn encode_version(major: u8, minor: u8, subversion: u8, build: u8) -> (r: u32)
    ensures
        r as nat == word_of(major, minor, subversion, build),
{
    proof {
        lemma_word_bytes(major, minor, subversion, build);
    }
    (major as u32) * 0x100_0000 + (minor as u32) * 0x1_0000 + (subversion as u32) * 0x100
        + (build as u32)
}

/// Packs memory sizes into their word, with the reserved byte zero.
pub fn encode_memory_size(sram2a: u8, sram2b: u8, flash: u8) -> (r: u32)
    ensures
        r as nat == word_of(sram2a, sram2b, 0, flash),
{
    proof {
        lemma_word_bytes(sram2a, sram2b, 0, flash);
    }
    (sram2a as u32) * 0x100_0000 + (sram2b as u32) * 0x1_0000 + (flash as u32)
}

/// Encoding a version and memory sizes into the two words of the table and
/// reading them back gives the same seven values.
pub proof fn lemma_fw_info_round_trip(
    major: u8,
    minor: u8,
    subversion: u8,
    build: u8,
    flash: u8,
    sram2a: u8,
    sram2b: u8,
    t: WirelessFwInfoTable,
)
    requires
        t.version as nat == word_of(major, minor, subversion, build),
        t.memory_size as nat == word_of(sram2a, sram2b, 0, flash),
    ensures
        field(t.version, 24, 8) == major,
        field(t.version, 16, 8) == minor,
        field(t.version, 8, 8) == subversion,
        field(t.version, 0, 8) == build,
        field(t.memory_size, 0, 8) == flash,
        field(t.memory_size, 24, 8) == sram2a,
        field(t.memory_size, 16, 8) == sram2b,
{
    lemma_word_bytes(major, minor, subversion, build);
    lemma_word_bytes(sram2a, sram2b, 0, flash);
}

#[derive(Debug, Copy, Clone)]
pub struct DeviceInfoTable {
    pub safe_boot_info_table: SafeBootInfoTable,
    pub rss_info_table: RssInfoTable,
    pub wireless_fw_info_table: WirelessFwInfoTable,
}

impl DeviceInfoTable {
    /// The table as bootstrap leaves it: every word zero.
    pub fn zeroed() -> (r: Self)
        ensures
            r.safe_boot_info_table.version == 0,
            r.rss_info_table.version == 0,
            r.rss_info_table.memory_size == 0,
            r.rss_info_table.rss_info == 0,
            r.wireless_fw_info_table.version == 0,
            r.wireless_fw_info_table.memory_size == 0,
            r.wireless_fw_info_table.thread_info == 0,
            r.wireless_fw_info_table.ble_info == 0,
    {
        DeviceInfoTable {
            safe_boot_info_table: SafeBootInfoTable { version: 0 },
            rss_info_table: RssInfoTable { version: 0, memory_size: 0, rss_info: 0 },
            wireless_fw_info_table: WirelessFwInfoTable::new(0, 0, 0, 0),
        }
    }
}

} // verus!
