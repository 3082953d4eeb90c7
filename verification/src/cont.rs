//! Packets exchanged with the peripheral interface to read the controller.

use vstd::prelude::*;

verus! {

/// A 64-byte block of PIF RAM, as eight 64-bit words.
pub struct ScanPacket {
    pub values: [u64; 8],
}

impl ScanPacket {
    /// A packet of zeros, to receive a controller scan.
    pub fn new() -> (r: ScanPacket)
        ensures
            forall|i: int| 0 <= i < 8 ==> r.values@[i] == 0,
    {
        ScanPacket { values: [0u64; 8] }
    }

    /// The command block that asks the first controller for its buttons: the
    /// request `ff 01 04 01` followed by room for the four reply bytes in the
    /// first word, the end marker `fe` in the fifth, and 1 in the last word.
    pub fn init_packet() -> (r: ScanPacket)
        ensures
            r.values@ == seq![
                0xff01_0401_0000_0000u64,
                0u64,
                0u64,
                0u64,
                0xfe00_0000_0000_0000u64,
                0u64,
                0u64,
                1u64,
            ],
    {
        let r = ScanPacket {
            values: [
                0xff_01_04_01_00000000,
                0,
                0,
                0,
                0xfe_00_00_00_00000000,
                0,
                0,
                1,
            ],
        };
        assert(r.values@ =~= seq![
            0xff01_0401_0000_0000u64,
            0u64,
            0u64,
            0u64,
            0xfe00_0000_0000_0000u64,
            0u64,
            0u64,
            1u64,
        ]);
        r
    }
}

} // verus!
