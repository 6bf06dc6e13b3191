//! The flag fields of a DNS message header and their wire encoding.
//!
//! RFC 1035 section 4.1.1 lays the eight header flag fields out over two
//! bytes: QR, OPCODE (4 bits), AA, TC and RD in the first, RA, Z (3 bits) and
//! RCODE (4 bits) in the second. The packing is specified here once, as a
//! pure function of the named fields, so that the bit layout can be checked
//! independently of message assembly.

use vstd::prelude::*;

verus! {

/// The header flag fields of a DNS message, named as in RFC 1035.
///
/// `opcode` occupies 4 bits, `z` 3 bits and `rcode` 4 bits; `wf` bounds them.
#[derive(Clone, Copy, Debug, PartialEq, Eq, Structural)]
pub struct HeaderFlags {
    /// Query (false) or response (true).
    pub qr: bool,
    /// Kind of query; 0 is a standard query.
    pub opcode: u8,
    /// Authoritative answer.
    pub aa: bool,
    /// Truncation.
    pub tc: bool,
    /// Recursion desired.
    pub rd: bool,
    /// Recursion available.
    pub ra: bool,
    /// Reserved bits.
    pub z: u8,
    /// Response code; 0 is no error.
    pub rcode: u8,
}

impl HeaderFlags {
    /// The multi-bit fields fit their allotted widths.
    pub open spec fn wf(self) -> bool {
        self.opcode < 16 && self.z < 8 && self.rcode < 16
    }
}

/// The first flag byte: QR, then OPCODE, then AA, TC and RD, most
/// significant bit first.
pub open spec fn spec_flags_byte1(f: HeaderFlags) -> u8
    recommends
        f.wf(),
{
    ((if f.qr {
        128int
    } else {
        0int
    }) + f.opcode * 8 + (if f.aa {
        4int
    } else {
        0int
    }) + (if f.tc {
        2int
    } else {
        0int
    }) + (if f.rd {
        1int
    } else {
        0int
    })) as u8
}

/// The second flag byte: RA, then Z, then RCODE, most significant bit first.
pub open spec fn spec_flags_byte2(f: HeaderFlags) -> u8
    recommends
        f.wf(),
{
    ((if f.ra {
        128int
    } else {
        0int
    }) + f.z * 16 + f.rcode) as u8
}

/// Packs the named flag fields into the two header flag bytes.
pub fn pack_flags(f: &HeaderFlags) -> (r: (u8, u8))
    requires
        f.wf(),
    ensures
        r.0 == spec_flags_byte1(*f),
        r.1 == spec_flags_byte2(*f),
{
    let b1: u8 = (if f.qr {
        128
    } else {
        0
    }) + f.opcode * 8 + (if f.aa {
        4
    } else {
        0
    }) + (if f.tc {
        2
    } else {
        0
    }) + (if f.rd {
        1
    } else {
        0
    });
    let b2: u8 = (if f.ra {
        128
    } else {
        0
    }) + f.z * 16 + f.rcode;
    (b1, b2)
}

/// The fixed flags of every query this crate emits: a standard query (QR and
/// OPCODE zero) with the recursion-desired bit set. The AA bit is also part
/// of the fixed constant `0b0000_0101` that goes on the wire; resolvers
/// ignore it in queries.
pub open spec fn spec_query_flags() -> HeaderFlags {
    HeaderFlags {
        qr: false,
        opcode: 0,
        aa: true,
        tc: false,
        rd: true,
        ra: false,
        z: 0,
        rcode: 0,
    }
}

/// Returns the fixed query flags.
pub fn query_flags() -> (r: HeaderFlags)
    ensures
        r == spec_query_flags(),
        r.wf(),
{
    HeaderFlags { qr: false, opcode: 0, aa: true, tc: false, rd: true, ra: false, z: 0, rcode: 0 }
}

/// The fixed query flags pack to the constant wire bytes `0b0000_0101` and
/// `0b0000_0000` that the encoder writes at header bytes 2 and 3.
pub proof fn lemma_query_flags_bytes()
    ensures
        spec_flags_byte1(spec_query_flags()) == 0b0000_0101u8,
        spec_flags_byte2(spec_query_flags()) == 0u8,
{
}

/// The bit of `input` at position `n`, counting from 0 at the least
/// significant bit; positions past the width read as false.
pub open spec fn spec_bit_at(input: u32, n: u8) -> bool {
    if n < 32 {
        (input >> n as u32) & 1 == 1
    } else {
        false
    }
}

/// Gets the bit at position `n`. Bits are numbered from 0 (least
/// significant) to 31 (most significant).
pub fn get_bit_at(input: u32, n: u8) -> (r: bool)
    ensures
        r == spec_bit_at(input, n),
{
    if n < 32 {
        let r = input & (1u32 << n) != 0;
        assert(r == ((input >> n as u32) & 1 == 1)) by (bit_vector)
            requires
                n < 32,
                r == (input & (1u32 << n) != 0),
        ;
        r
    } else {
        false
    }
}

} // verus!
