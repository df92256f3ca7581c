use vstd::prelude::*;

verus! {

/// Byte `k` (0 to 3) of `w`, counting from the least significant.
pub open spec fn le_byte(w: u32, k: int) -> u8 {
    if k == 0 {
        (w % 0x100) as u8
    } else if k == 1 {
        ((w / 0x100) % 0x100) as u8
    } else if k == 2 {
        ((w / 0x1_0000) % 0x100) as u8
    } else {
        (w / 0x100_0000) as u8
    }
}

/// The words laid out four bytes each, least significant byte first.
pub open spec fn words_le(ws: Seq<u32>) -> Seq<u8> {
    Seq::new(4 * ws.len(), |i: int| le_byte(ws[i / 4], i % 4))
}

/// The words laid out four bytes each, most significant byte first.
pub open spec fn words_be(ws: Seq<u32>) -> Seq<u8> {
    Seq::new(4 * ws.len(), |i: int| le_byte(ws[i / 4], 3 - i % 4))
}

/// Relies on `bytemuck::cast_slice` from `u32` to `u8`: it views the words' own
/// memory, four bytes each in the machine's byte order (little- or big-endian),
/// and cannot fail for this pair of types.
#[verifier::external_body]
fn words_as_bytes(words: &[u32]) -> (r: Vec<u8>)
    ensures
        r@ == words_le(words@) || r@ == words_be(words@),
{
    bytemuck::cast_slice::<u32, u8>(words).to_vec()
}

/// The contents of the uniform buffer that the fragment stage reads at binding
/// 0: the image's width and then its height, as two `u32` in the machine's
/// byte order, 8 bytes in all.
pub fn uniform_block(width: u32, height: u32) -> (r: Vec<u8>)
    ensures
        r@ == words_le(seq![width, height]) || r@ == words_be(seq![width, height]),
        r@.len() == 8,
{
    let words: Vec<u32> = vec![width, height];
    assert(words@ =~= seq![width, height]);
    words_as_bytes(words.as_slice())
}

} // verus!
