//! Byte layout of a DDS container holding one BC3 (DXT5) surface.
use vstd::prelude::*;

verus! {

/// Size of the DDS header that follows the magic, in bytes.
pub const HEADER_SIZE: u32 = 124;
/// Header flags: CAPS | HEIGHT | WIDTH | PIXELFORMAT | LINEARSIZE.
pub const HEADER_FLAGS: u32 = 0x81007;
/// Size of the pixel-format sub-header, in bytes.
pub const PIXEL_FORMAT_SIZE: u32 = 32;
/// Pixel-format flag telling that a four-character code is present.
pub const PIXEL_FORMAT_FOURCC: u32 = 0x4;
/// The four-character code "DXT5" read as a little-endian word.
pub const FOURCC_DXT5: u32 = 0x35545844;
/// Primary capability word: the surface is a texture.
pub const CAPS_TEXTURE: u32 = 0x1000;
/// Bytes of one compressed 4x4 block.
pub const BLOCK_BYTES: u32 = 16;
/// Bytes before the compressed payload: magic plus header.
pub const PREFIX_BYTES: usize = 128;

/// The four bytes of `w`, least significant first.
pub open spec fn le32(w: u32) -> Seq<u8> {
    seq![
        (w % 256) as u8,
        ((w / 256) % 256) as u8,
        ((w / 65536) % 256) as u8,
        ((w / 16777216) % 256) as u8,
    ]
}

/// A sequence of words laid out back to back, each little-endian.
pub open spec fn le_words(ws: Seq<u32>) -> Seq<u8>
    decreases ws.len(),
{
    if ws.len() == 0 {
        Seq::empty()
    } else {
        le_words(ws.drop_last()) + le32(ws.last())
    }
}

/// The magic that opens every DDS file: "DDS ".
pub open spec fn magic() -> Seq<u8> {
    seq![68u8, 68u8, 83u8, 32u8]
}

/// The header as its ordered 32-bit fields: the main header (size, flags,
/// height, width, linear size, depth, mip count, eleven reserved words), the
/// pixel-format sub-header (size, flags, four-character code, bit count and
/// four masks) and the capability words.
pub open spec fn header_words(width: u32, height: u32, linear_size: u32) -> Seq<u32> {
    seq![
        HEADER_SIZE, HEADER_FLAGS, height, width, linear_size, 0u32, 1u32,
        0u32, 0u32, 0u32, 0u32, 0u32, 0u32, 0u32, 0u32, 0u32, 0u32, 0u32,
        PIXEL_FORMAT_SIZE, PIXEL_FORMAT_FOURCC, FOURCC_DXT5, 0u32, 0u32, 0u32, 0u32, 0u32,
        CAPS_TEXTURE, 0u32, 0u32, 0u32, 0u32,
    ]
}

/// Magic and header of a DDS file for a BC3 surface of the given size.
pub open spec fn header_bytes(width: u32, height: u32, linear_size: u32) -> Seq<u8> {
    magic() + le_words(header_words(width, height, linear_size))
}

/// Number of compressed blocks in a `width` x `height` surface.
pub open spec fn block_count(width: u32, height: u32) -> int {
    (width as int / 4) * (height as int / 4)
}

proof fn lemma_le_words_len(ws: Seq<u32>)
    ensures
        le_words(ws).len() == 4 * ws.len(),
    decreases ws.len(),
{
    if ws.len() > 0 {
        lemma_le_words_len(ws.drop_last());
    }
}

/// Appends the little-endian bytes of `w`.
fn push_le32(out: &mut Vec<u8>, w: u32)
    ensures
        final(out)@ == old(out)@ + le32(w),
{
    out.push((w % 256) as u8);
    out.push(((w / 256) % 256) as u8);
    out.push(((w / 65536) % 256) as u8);
    out.push(((w / 16777216) % 256) as u8);
    assert(final(out)@ =~= old(out)@ + le32(w));
}

/// Appends the words of `ws` in order, each little-endian.
pub fn push_le_words(out: &mut Vec<u8>, ws: &Vec<u32>)
    ensures
        final(out)@ == old(out)@ + le_words(ws@),
{
    let mut i: usize = 0;
    while i < ws.len()
        invariant
            i <= ws@.len(),
            out@ == old(out)@ + le_words(ws@.take(i as int)),
        decreases ws@.len() - i,
    {
        push_le32(out, ws[i]);
        assert(ws@.take(i as int + 1).drop_last() =~= ws@.take(i as int));
        assert(out@ =~= old(out)@ + le_words(ws@.take(i as int + 1)));
        i += 1;
    }
    assert(ws@.take(i as int) =~= ws@);
}

/// Magic and header of a DDS file for a BC3 surface of `width` x `height`
/// whose compressed payload is `linear_size` bytes.
pub fn dds_header(width: u32, height: u32, linear_size: u32) -> (r: Vec<u8>)
    ensures
        r@ == header_bytes(width, height, linear_size),
        r@.len() == PREFIX_BYTES,
{
    let mut out: Vec<u8> = Vec::new();
    out.push(68u8);
    out.push(68u8);
    out.push(83u8);
    out.push(32u8);
    let mut words: Vec<u32> = Vec::new();
    words.push(HEADER_SIZE);
    words.push(HEADER_FLAGS);
    words.push(height);
    words.push(width);
    words.push(linear_size);
    words.push(0u32);
    words.push(1u32);
    let mut k: usize = 0;
    while k < 11
        invariant
            k <= 11,
            words@ == seq![HEADER_SIZE, HEADER_FLAGS, height, width, linear_size, 0u32, 1u32]
                + Seq::new(k as nat, |i: int| 0u32),
        decreases 11 - k,
    {
        words.push(0u32);
        k += 1;
        assert(words@ =~= seq![HEADER_SIZE, HEADER_FLAGS, height, width, linear_size, 0u32, 1u32]
            + Seq::new(k as nat, |i: int| 0u32));
    }
    assert(words@ =~= seq![
        HEADER_SIZE, HEADER_FLAGS, height, width, linear_size, 0u32, 1u32,
        0u32, 0u32, 0u32, 0u32, 0u32, 0u32, 0u32, 0u32, 0u32, 0u32, 0u32,
    ]);
    words.push(PIXEL_FORMAT_SIZE);
    words.push(PIXEL_FORMAT_FOURCC);
    words.push(FOURCC_DXT5);
    words.push(0u32);
    words.push(0u32);
    words.push(0u32);
    words.push(0u32);
    words.push(0u32);
    words.push(CAPS_TEXTURE);
    words.push(0u32);
    words.push(0u32);
    words.push(0u32);
    words.push(0u32);
    let ghost pre = seq![
        HEADER_SIZE, HEADER_FLAGS, height, width, linear_size, 0u32, 1u32,
        0u32, 0u32, 0u32, 0u32, 0u32, 0u32, 0u32, 0u32, 0u32, 0u32, 0u32,
    ];
    let ghost post = seq![
        PIXEL_FORMAT_SIZE, PIXEL_FORMAT_FOURCC, FOURCC_DXT5, 0u32, 0u32, 0u32, 0u32, 0u32,
        CAPS_TEXTURE, 0u32, 0u32, 0u32, 0u32,
    ];
    assert(words@ =~= pre + post);
    assert(header_words(width, height, linear_size) =~= pre + post);
    push_le_words(&mut out, &words);
    proof {
        lemma_le_words_len(words@);
        assert(magic() =~= seq![68u8, 68u8, 83u8, 32u8]);
    }
    out
}

} // verus!
