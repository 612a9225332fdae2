//! CRC-8 in the SAE J1850 variant: polynomial 0x1D, initial value 0xFF,
//! final xor 0xFF, no reflection. Each transfer chunk sent to an ECU is
//! protected by this checksum, appended as the last byte of the frame.

use vstd::prelude::*;

verus! {

/// One shift-and-conditionally-xor round of the register, MSB first.
pub open spec fn spec_crc8_round(crc: u8) -> u8 {
    if crc & 0x80 == 0x80 {
        (crc << 1) ^ 0x1D
    } else {
        crc << 1
    }
}

/// The register after the first `n` of the eight bit rounds of one byte.
pub open spec fn spec_crc8_rounds(crc: u8, n: nat) -> u8
    decreases n,
{
    if n == 0 {
        crc
    } else {
        spec_crc8_round(spec_crc8_rounds(crc, (n - 1) as nat))
    }
}

/// Folding one byte into the register: xor it in, then run eight rounds.
pub open spec fn spec_crc8_byte(crc: u8, byte: u8) -> u8 {
    spec_crc8_rounds(crc ^ byte, 8)
}

/// The register after folding all of `data` into `init`, front to back.
pub open spec fn spec_crc8_fold(init: u8, data: Seq<u8>) -> u8
    decreases data.len(),
{
    if data.len() == 0 {
        init
    } else {
        spec_crc8_byte(spec_crc8_fold(init, data.drop_last()), data.last())
    }
}

/// The CRC-8/SAE-J1850 of `data`.
pub open spec fn spec_crc8(data: Seq<u8>) -> u8 {
    spec_crc8_fold(0xFF, data) ^ 0xFF
}

/// Fold a single byte into the running register.
pub fn crc8_update(crc: u8, byte: u8) -> (r: u8)
    ensures
        r == spec_crc8_byte(crc, byte),
{
    let mut cur: u8 = crc ^ byte;
    let mut j: u8 = 0;
    while j < 8
        invariant
            j <= 8,
            cur == spec_crc8_rounds((crc ^ byte) as u8, j as nat),
        decreases 8 - j,
    {
        cur = if cur & 0x80 == 0x80 {
            (cur << 1u8) ^ 0x1D
        } else {
            cur << 1u8
        };
        j = j + 1;
    }
    cur
}

/// The checksum of a whole payload, as appended to each transfer frame.
pub fn crc8(data: &[u8]) -> (r: u8)
    ensures
        r == spec_crc8(data@),
{
    let n = data.len();
    let mut acc: u8 = 0xFF;
    let mut i: usize = 0;
    while i < n
        invariant
            i <= n,
            n == data@.len(),
            acc == spec_crc8_fold(0xFF, data@.subrange(0, i as int)),
        decreases n - i,
    {
        proof {
            assert(data@.subrange(0, i + 1).drop_last() =~= data@.subrange(0, i as int));
            assert(data@.subrange(0, i + 1).last() == data@[i as int]);
        }
        acc = crc8_update(acc, data[i]);
        i = i + 1;
    }
    proof {
        assert(data@.subrange(0, n as int) =~= data@);
    }
    acc ^ 0xFF
}

} // verus!
