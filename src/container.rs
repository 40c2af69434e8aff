use byteorder::{ByteOrder, LittleEndian};
use vstd::prelude::*;

verus! {

/// Size of the fixed header region before the two length fields.
pub const PIE_HEADER_LENGTH: usize = 64;

/// Whether `p` starts with the container's magic bytes `{45, 50, 49, 45}`.
pub open spec fn has_magic(p: Seq<u8>) -> bool {
    p.len() >= 4 && p[0] == 45 && p[1] == 50 && p[2] == 49 && p[3] == 45
}

/// Checks the magic bytes at the start of `p`.
pub fn verify_magic(p: &Vec<u8>) -> (r: bool)
    ensures
        r == has_magic(p@),
{
    p.len() >= 4 && p[0] == 45 && p[1] == 50 && p[2] == 49 && p[3] == 45
}

/// The four bytes of `n`, least significant first.
pub open spec fn le_bytes(n: u32) -> Seq<u8> {
    seq![
        (n % 256) as u8,
        ((n / 256) % 256) as u8,
        ((n / 65536) % 256) as u8,
        (n / 16777216) as u8,
    ]
}

/// The container header for `ro_len` bytes of read-only data: the magic
/// bytes, zero padding up to 64 bytes, the data length and the offset at
/// which the data ends, both as little-endian `u32`.
pub open spec fn header_bytes(ro_len: nat) -> Seq<u8> {
    seq![45u8, 50u8, 49u8, 45u8] + Seq::new(60, |i: int| 0u8) + le_bytes(ro_len as u32) + le_bytes(
        (ro_len as u32).wrapping_add(72),
    )
}

/// Relies on byteorder's `LittleEndian::write_u32`: the four bytes of `n`,
/// least significant first.
#[verifier::external_body]
fn le_u32(n: u32) -> (r: Vec<u8>)
    ensures
        r@ == le_bytes(n),
{
    let mut buf = [0u8; 4];
    LittleEndian::write_u32(&mut buf, n);
    buf.to_vec()
}

/// Relies on byteorder's `LittleEndian::write_i32`: the four bytes of `n`
/// in two's complement, least significant first.
#[verifier::external_body]
pub(crate) fn le_i32(n: i32) -> (r: Vec<u8>)
    ensures
        r@ == le_bytes(n as u32),
{
    let mut buf = [0u8; 4];
    LittleEndian::write_i32(&mut buf, n);
    buf.to_vec()
}

/// The header for a container holding `ro_len` bytes of read-only data.
pub fn write_pie_header(ro_len: usize) -> (r: Vec<u8>)
    ensures
        r@ == header_bytes(ro_len as nat),
{
    let mut header: Vec<u8> = vec![45u8, 50u8, 49u8, 45u8];
    while header.len() < PIE_HEADER_LENGTH
        invariant
            4 <= header@.len() <= PIE_HEADER_LENGTH,
            header@ == seq![45u8, 50u8, 49u8, 45u8] + Seq::new(
                (header@.len() - 4) as nat,
                |i: int| 0u8,
            ),
        decreases PIE_HEADER_LENGTH - header@.len(),
    {
        let ghost before = header@;
        header.push(0u8);
        proof {
            assert(header@ =~= seq![45u8, 50u8, 49u8, 45u8] + Seq::new(
                (header@.len() - 4) as nat,
                |i: int| 0u8,
            ));
        }
    }
    let n = ro_len as u32;
    let mut len_bytes = le_u32(n);
    let mut end_bytes = le_u32(n.wrapping_add(72));
    header.append(&mut len_bytes);
    header.append(&mut end_bytes);
    header
}

} // verus!
