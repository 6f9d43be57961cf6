use vstd::prelude::*;

verus! {

/// The byte order used to encapsulate multi-byte submessage fields.
#[derive(Clone, Copy, Debug, PartialEq, Eq, Structural)]
pub enum Endianness {
    BigEndian,
    LittleEndian,
}

/// The two-byte encoding of `v` in byte order `e`.
pub open spec fn spec_u16_bytes(v: u16, e: Endianness) -> Seq<u8> {
    match e {
        Endianness::LittleEndian => seq![(v & 0xff) as u8, (v >> 8) as u8],
        Endianness::BigEndian => seq![(v >> 8) as u8, (v & 0xff) as u8],
    }
}

/// The value encoded by two bytes in byte order `e`.
pub open spec fn spec_u16_of(b0: u8, b1: u8, e: Endianness) -> u16 {
    match e {
        Endianness::LittleEndian => (b0 + b1 * 0x100) as u16,
        Endianness::BigEndian => (b1 + b0 * 0x100) as u16,
    }
}

/// The four-byte encoding of `v` in byte order `e`.
pub open spec fn spec_u32_bytes(v: u32, e: Endianness) -> Seq<u8> {
    match e {
        Endianness::LittleEndian => seq![
            (v & 0xff) as u8,
            ((v >> 8) & 0xff) as u8,
            ((v >> 16) & 0xff) as u8,
            (v >> 24) as u8,
        ],
        Endianness::BigEndian => seq![
            (v >> 24) as u8,
            ((v >> 16) & 0xff) as u8,
            ((v >> 8) & 0xff) as u8,
            (v & 0xff) as u8,
        ],
    }
}

/// The four-byte encoding of a signed value: that of its bit pattern.
pub open spec fn spec_i32_bytes(v: i32, e: Endianness) -> Seq<u8> {
    spec_u32_bytes(v as u32, e)
}

/// Append the two-byte encoding of `v` to `out`.
pub fn write_u16(out: &mut Vec<u8>, v: u16, e: Endianness)
    ensures
        final(out)@ == old(out)@ + spec_u16_bytes(v, e),
{
    match e {
        Endianness::LittleEndian => {
            out.push((v & 0xff) as u8);
            out.push((v >> 8) as u8);
        },
        Endianness::BigEndian => {
            out.push((v >> 8) as u8);
            out.push((v & 0xff) as u8);
        },
    }
    proof {
        assert(out@ =~= old(out)@ + spec_u16_bytes(v, e));
    }
}

/// Read the value whose two-byte encoding starts at `pos`.
pub fn read_u16(buf: &[u8], pos: usize, e: Endianness) -> (r: u16)
    requires
        pos + 2 <= buf@.len(),
    ensures
        r == spec_u16_of(buf@[pos as int], buf@[pos as int + 1], e),
        spec_u16_bytes(r, e) == buf@.subrange(pos as int, pos as int + 2),
{
    let b0 = buf[pos];
    let b1 = buf[pos + 1];
    let v: u16 = match e {
        Endianness::LittleEndian => (b0 as u16) | ((b1 as u16) << 8),
        Endianness::BigEndian => ((b0 as u16) << 8) | (b1 as u16),
    };
    proof {
        match e {
            Endianness::LittleEndian => {
                assert(((b0 as u16) | ((b1 as u16) << 8)) == (b0 as u16) + (b1 as u16)
                    * 0x100) by (bit_vector);
                assert((v & 0xff) as u8 == b0 && (v >> 8) as u8 == b1) by (bit_vector)
                    requires
                        v == (b0 as u16) | ((b1 as u16) << 8),
                ;
            },
            Endianness::BigEndian => {
                assert((((b0 as u16) << 8) | (b1 as u16)) == (b1 as u16) + (b0 as u16)
                    * 0x100) by (bit_vector);
                assert((v & 0xff) as u8 == b1 && (v >> 8) as u8 == b0) by (bit_vector)
                    requires
                        v == ((b0 as u16) << 8) | (b1 as u16),
                ;
            },
        }
        assert(spec_u16_bytes(v, e) =~= buf@.subrange(pos as int, pos as int + 2));
    }
    v
}

/// Append the four-byte encoding of `v` to `out`.
pub fn write_u32(out: &mut Vec<u8>, v: u32, e: Endianness)
    ensures
        final(out)@ == old(out)@ + spec_u32_bytes(v, e),
{
    match e {
        Endianness::LittleEndian => {
            out.push((v & 0xff) as u8);
            out.push(((v >> 8) & 0xff) as u8);
            out.push(((v >> 16) & 0xff) as u8);
            out.push((v >> 24) as u8);
        },
        Endianness::BigEndian => {
            out.push((v >> 24) as u8);
            out.push(((v >> 16) & 0xff) as u8);
            out.push(((v >> 8) & 0xff) as u8);
            out.push((v & 0xff) as u8);
        },
    }
    proof {
        assert(out@ =~= old(out)@ + spec_u32_bytes(v, e));
    }
}

/// Read the value whose four-byte encoding starts at `pos`.
pub fn read_u32(buf: &[u8], pos: usize, e: Endianness) -> (r: u32)
    requires
        pos + 4 <= buf@.len(),
    ensures
        spec_u32_bytes(r, e) == buf@.subrange(pos as int, pos as int + 4),
{
    let b0 = buf[pos];
    let b1 = buf[pos + 1];
    let b2 = buf[pos + 2];
    let b3 = buf[pos + 3];
    let v: u32 = match e {
        Endianness::LittleEndian => (b0 as u32) | ((b1 as u32) << 8) | ((b2 as u32) << 16) | ((
        b3 as u32) << 24),
        Endianness::BigEndian => ((b0 as u32) << 24) | ((b1 as u32) << 16) | ((b2 as u32) << 8) | (
        b3 as u32),
    };
    proof {
        match e {
            Endianness::LittleEndian => {
                assert((v & 0xff) as u8 == b0 && ((v >> 8) & 0xff) as u8 == b1 && ((v >> 16)
                    & 0xff) as u8 == b2 && (v >> 24) as u8 == b3) by (bit_vector)
                    requires
                        v == (b0 as u32) | ((b1 as u32) << 8) | ((b2 as u32) << 16) | ((
                        b3 as u32) << 24),
                ;
            },
            Endianness::BigEndian => {
                assert((v >> 24) as u8 == b0 && ((v >> 16) & 0xff) as u8 == b1 && ((v >> 8)
                    & 0xff) as u8 == b2 && (v & 0xff) as u8 == b3) by (bit_vector)
                    requires
                        v == ((b0 as u32) << 24) | ((b1 as u32) << 16) | ((b2 as u32) << 8) | (
                        b3 as u32),
                ;
            },
        }
        assert(spec_u32_bytes(v, e) =~= buf@.subrange(pos as int, pos as int + 4));
    }
    v
}

/// Append the four-byte encoding of a signed value to `out`.
pub fn write_i32(out: &mut Vec<u8>, v: i32, e: Endianness)
    ensures
        final(out)@ == old(out)@ + spec_i32_bytes(v, e),
{
    write_u32(out, v as u32, e);
}

/// Read the signed value whose four-byte encoding starts at `pos`.
pub fn read_i32(buf: &[u8], pos: usize, e: Endianness) -> (r: i32)
    requires
        pos + 4 <= buf@.len(),
    ensures
        spec_i32_bytes(r, e) == buf@.subrange(pos as int, pos as int + 4),
{
    let u = read_u32(buf, pos, e);
    let v = u as i32;
    proof {
        assert(v as u32 == u) by (bit_vector)
            requires
                v == u as i32,
        ;
    }
    v
}

} // verus!
