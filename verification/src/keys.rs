use vstd::prelude::*;

use crate::text::chars_of;
use crate::text::range_equals;

verus! {

/// Linux input key code of the left Super (Meta) key.
pub const KEY_LEFTMETA: usize = 125;

/// Number of key codes the kernel's key bitmaps cover.
pub const KEY_CNT: usize = 768;

/// Bytes in a key bitmap: one bit per key code.
pub const KEY_BYTES: usize = 96;

/// The `_IOR('E', nr, size)` ioctl request number, read direction in the top bits.
pub open spec fn spec_ior(nr: u64, size: u64) -> u64 {
    0x8000_0000u64 | (size << 16u64) | 0x4500u64 | nr
}

pub fn ior(nr: u64, size: u64) -> (r: u64)
    ensures
        r == spec_ior(nr, size),
        nr < 0x100 && size < 0x4000 ==> r == 0x8000_0000 + size * 0x10000 + 0x4500 + nr,
{
    let r = (2u64 << 30u64) | (size << 16u64) | (('E' as u32 as u64) << 8u64) | nr;
    assert(r == spec_ior(nr, size)) by (bit_vector)
        requires
            r == (2u64 << 30u64) | (size << 16u64) | (69u64 << 8u64) | nr,
    ;
    assert(nr < 0x100 && size < 0x4000 ==> spec_ior(nr, size) == 0x8000_0000 + size * 0x10000
        + 0x4500 + nr) by (bit_vector);
    r
}

/// `EVIOCGKEY`: reads the bitmap of keys currently held down.
pub fn eviocgkey() -> (r: u64)
    ensures
        r == spec_ior(0x18, KEY_BYTES as u64),
        r == 0x8060_4518,
{
    ior(0x18, KEY_BYTES as u64)
}

/// `EVIOCGBIT(EV_KEY)`: reads the bitmap of keys a device can report.
pub fn eviocgbit_key() -> (r: u64)
    ensures
        r == spec_ior(0x21, KEY_BYTES as u64),
        r == 0x8060_4521,
{
    ior(0x21, KEY_BYTES as u64)
}

/// Whether key `code` is set in the bitmap `bits` (bit `code % 8` of byte `code / 8`).
pub open spec fn key_bit(bits: Seq<u8>, code: int) -> bool {
    (bits[code / 8] as int / vstd::arithmetic::power2::pow2((code % 8) as nat) as int) % 2 == 1
}

/// Whether the left Super key is set in a key bitmap.
pub fn has_left_meta(bits: &[u8]) -> (r: bool)
    requires
        bits@.len() == KEY_BYTES,
    ensures
        r == key_bit(bits@, KEY_LEFTMETA as int),
{
    let b = bits[KEY_LEFTMETA / 8];
    let r = b & (1u8 << (KEY_LEFTMETA % 8) as u8) != 0;
    proof {
        vstd::arithmetic::power2::lemma2_to64();
        assert(r == ((b as int / 32) % 2 == 1)) by (bit_vector)
            requires
                r == (b & (1u8 << 5u8) != 0),
        ;
    }
    r
}

/// Whether a key-bitmap read shows the left Super key: the ioctl succeeded (`ret >= 0`)
/// and the key's bit is set. Used both for the keys a device can report and for the keys
/// held down.
pub open spec fn reading_shows_super(ret: i32, bits: Seq<u8>) -> bool {
    ret >= 0 && key_bit(bits, KEY_LEFTMETA as int)
}

/// Whether a device read this way can report the left Super key (or, for a state read,
/// holds it down).
pub fn reports_super_key(ret: i32, bits: &[u8]) -> (r: bool)
    requires
        bits@.len() == KEY_BYTES,
    ensures
        r == reading_shows_super(ret, bits@),
{
    ret >= 0 && has_left_meta(bits)
}

/// Check if left Super key is currently held down on any keyboard, given each keyboard's
/// `EVIOCGKEY` reading (ioctl result and key bitmap).
pub fn is_super_pressed(readings: &Vec<(i32, Vec<u8>)>) -> (r: bool)
    requires
        forall|i: int| 0 <= i < readings@.len() ==> (#[trigger] readings@[i]).1@.len() == KEY_BYTES,
    ensures
        r == exists|i: int|
            0 <= i < readings@.len() && reading_shows_super(
                (#[trigger] readings@[i]).0,
                readings@[i].1@,
            ),
{
    let mut i: usize = 0;
    while i < readings.len()
        invariant
            i <= readings@.len(),
            forall|j: int| 0 <= j < readings@.len() ==> (#[trigger] readings@[j]).1@.len() == KEY_BYTES,
            forall|j: int|
                0 <= j < i ==> !reading_shows_super((#[trigger] readings@[j]).0, readings@[j].1@),
        decreases readings.len() - i,
    {
        if reports_super_key(readings[i].0, readings[i].1.as_slice()) {
            return true;
        }
        i = i + 1;
    }
    false
}

/// Whether a `/dev/input/` entry name denotes an event device (`event*`).
pub fn is_event_device(name: &str) -> (r: bool)
    ensures
        r == (name@.len() >= 5 && name@.take(5) == seq!['e', 'v', 'e', 'n', 't']),
{
    let cs = chars_of(name);
    if cs.len() < 5 {
        return false;
    }
    let pat = vec!['e', 'v', 'e', 'n', 't'];
    assert(cs@.subrange(0, 5) =~= name@.take(5));
    range_equals(&cs, 0, 5, &pat)
}

} // verus!
