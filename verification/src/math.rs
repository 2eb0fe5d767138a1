//! The byte-layout half of the math kernel.
//!
//! The library stores a 4x4 matrix as sixteen raw 32-bit words, each the
//! IEEE-754 bit pattern of one scalar entry.  Numeric construction (rotation,
//! scaling, projection) happens in the unverified numeric layer, which hands
//! the finished bit patterns in; what is verified here is the exact layout
//! uploaded as a uniform resource: 64 bytes, sixteen words in row-major order
//! (x-row, y-row, z-row, w-row), each word little-endian, with no padding.

use vstd::prelude::*;

verus! {

/// One matrix row: four scalar entries as raw 32-bit words.
#[derive(Clone, Copy, Debug, PartialEq, Eq, Structural)]
pub struct Vec4 {
    pub x: u32,
    pub y: u32,
    pub z: u32,
    pub w: u32,
}

impl Vec4 {
    pub fn new(x: u32, y: u32, z: u32, w: u32) -> (r: Vec4)
        ensures
            r == (Vec4 { x, y, z, w }),
    {
        Vec4 { x, y, z, w }
    }
}

/// A 4x4 matrix in row-vector convention: `x`, `y` and `z` carry the scaled
/// rotation basis rows and `w` carries the translation row.
#[derive(Clone, Copy, Debug, PartialEq, Eq, Structural)]
pub struct Mat4 {
    pub x: Vec4,
    pub y: Vec4,
    pub z: Vec4,
    pub w: Vec4,
}

/// The four bytes of one word, least-significant first.
pub open spec fn word_bytes(w: u32) -> Seq<u8> {
    seq![
        (w & 0xff) as u8,
        ((w >> 8) & 0xff) as u8,
        ((w >> 16) & 0xff) as u8,
        ((w >> 24) & 0xff) as u8,
    ]
}

/// The sixteen words of a matrix in row-major order.
pub open spec fn mat_words(m: Mat4) -> Seq<u32> {
    seq![
        m.x.x, m.x.y, m.x.z, m.x.w,
        m.y.x, m.y.y, m.y.z, m.y.w,
        m.z.x, m.z.y, m.z.z, m.z.w,
        m.w.x, m.w.y, m.w.z, m.w.w,
    ]
}

/// The serialized form of a word sequence: each word's four bytes in turn.
pub open spec fn words_bytes(ws: Seq<u32>) -> Seq<u8>
    decreases ws.len(),
{
    if ws.len() == 0 {
        Seq::empty()
    } else {
        words_bytes(ws.drop_last()) + word_bytes(ws.last())
    }
}

/// The 64-byte serialized form of a matrix.
pub open spec fn mat_bytes(m: Mat4) -> Seq<u8> {
    words_bytes(mat_words(m))
}

pub broadcast proof fn lemma_words_bytes_len(ws: Seq<u32>)
    ensures
        #[trigger] words_bytes(ws).len() == 4 * ws.len(),
    decreases ws.len(),
{
    if ws.len() > 0 {
        lemma_words_bytes_len(ws.drop_last());
    }
}

/// Appends the four little-endian bytes of `w`.
fn push_word(out: &mut Vec<u8>, w: u32)
    ensures
        final(out)@ == old(out)@ + word_bytes(w),
{
    let b0: u8 = (w & 0xff) as u8;
    let b1: u8 = ((w >> 8) & 0xff) as u8;
    let b2: u8 = ((w >> 16) & 0xff) as u8;
    let b3: u8 = ((w >> 24) & 0xff) as u8;
    out.push(b0);
    out.push(b1);
    out.push(b2);
    out.push(b3);
    assert(final(out)@ =~= old(out)@ + word_bytes(w));
}

impl Mat4 {
    pub fn new(x: Vec4, y: Vec4, z: Vec4, w: Vec4) -> (r: Mat4)
        ensures
            r == (Mat4 { x, y, z, w }),
    {
        Mat4 { x, y, z, w }
    }

    /// Serializes the matrix for GPU upload: exactly 64 bytes, the sixteen
    /// words in row-major order, each little-endian, no padding.
    pub fn data(&self) -> (r: Vec<u8>)
        ensures
            r@ == mat_bytes(*self),
            r@.len() == 64,
    {
        let mut out: Vec<u8> = Vec::new();
        push_word(&mut out, self.x.x);
        push_word(&mut out, self.x.y);
        push_word(&mut out, self.x.z);
        push_word(&mut out, self.x.w);
        push_word(&mut out, self.y.x);
        push_word(&mut out, self.y.y);
        push_word(&mut out, self.y.z);
        push_word(&mut out, self.y.w);
        push_word(&mut out, self.z.x);
        push_word(&mut out, self.z.y);
        push_word(&mut out, self.z.z);
        push_word(&mut out, self.z.w);
        push_word(&mut out, self.w.x);
        push_word(&mut out, self.w.y);
        push_word(&mut out, self.w.z);
        push_word(&mut out, self.w.w);
        proof {
            lemma_data_unfold(*self);
            broadcast use lemma_words_bytes_len;
        }
        assert(out@ =~= mat_bytes(*self));
        out
    }
}

/// Unfolds the word-by-word serialization of a full matrix.
proof fn lemma_data_unfold(m: Mat4)
    ensures
        mat_bytes(m) == word_bytes(m.x.x) + word_bytes(m.x.y) + word_bytes(m.x.z)
            + word_bytes(m.x.w) + word_bytes(m.y.x) + word_bytes(m.y.y) + word_bytes(m.y.z)
            + word_bytes(m.y.w) + word_bytes(m.z.x) + word_bytes(m.z.y) + word_bytes(m.z.z)
            + word_bytes(m.z.w) + word_bytes(m.w.x) + word_bytes(m.w.y) + word_bytes(m.w.z)
            + word_bytes(m.w.w),
{
    let ws = mat_words(m);
    assert(words_bytes(ws) == words_bytes(ws.drop_last()) + word_bytes(m.w.w));
    let w15 = ws.drop_last();
    assert(w15.last() == m.w.z);
    assert(words_bytes(w15) == words_bytes(w15.drop_last()) + word_bytes(m.w.z));
    let w14 = w15.drop_last();
    assert(w14.last() == m.w.y);
    assert(words_bytes(w14) == words_bytes(w14.drop_last()) + word_bytes(m.w.y));
    let w13 = w14.drop_last();
    assert(w13.last() == m.w.x);
    assert(words_bytes(w13) == words_bytes(w13.drop_last()) + word_bytes(m.w.x));
    let w12 = w13.drop_last();
    assert(w12.last() == m.z.w);
    assert(words_bytes(w12) == words_bytes(w12.drop_last()) + word_bytes(m.z.w));
    let w11 = w12.drop_last();
    assert(w11.last() == m.z.z);
    assert(words_bytes(w11) == words_bytes(w11.drop_last()) + word_bytes(m.z.z));
    let w10 = w11.drop_last();
    assert(w10.last() == m.z.y);
    assert(words_bytes(w10) == words_bytes(w10.drop_last()) + word_bytes(m.z.y));
    let w9 = w10.drop_last();
    assert(w9.last() == m.z.x);
    assert(words_bytes(w9) == words_bytes(w9.drop_last()) + word_bytes(m.z.x));
    let w8 = w9.drop_last();
    assert(w8.last() == m.y.w);
    assert(words_bytes(w8) == words_bytes(w8.drop_last()) + word_bytes(m.y.w));
    let w7 = w8.drop_last();
    assert(w7.last() == m.y.z);
    assert(words_bytes(w7) == words_bytes(w7.drop_last()) + word_bytes(m.y.z));
    let w6 = w7.drop_last();
    assert(w6.last() == m.y.y);
    assert(words_bytes(w6) == words_bytes(w6.drop_last()) + word_bytes(m.y.y));
    let w5 = w6.drop_last();
    assert(w5.last() == m.y.x);
    assert(words_bytes(w5) == words_bytes(w5.drop_last()) + word_bytes(m.y.x));
    let w4 = w5.drop_last();
    assert(w4.last() == m.x.w);
    assert(words_bytes(w4) == words_bytes(w4.drop_last()) + word_bytes(m.x.w));
    let w3 = w4.drop_last();
    assert(w3.last() == m.x.z);
    assert(words_bytes(w3) == words_bytes(w3.drop_last()) + word_bytes(m.x.z));
    let w2 = w3.drop_last();
    assert(w2.last() == m.x.y);
    assert(words_bytes(w2) == words_bytes(w2.drop_last()) + word_bytes(m.x.y));
    let w1 = w2.drop_last();
    assert(w1.last() == m.x.x);
    assert(words_bytes(w1) == words_bytes(w1.drop_last()) + word_bytes(m.x.x));
    assert(w1.drop_last() =~= Seq::<u32>::empty());
    assert(words_bytes(Seq::<u32>::empty()) =~= Seq::<u8>::empty());
    assert(mat_bytes(m) =~= word_bytes(m.x.x) + word_bytes(m.x.y) + word_bytes(m.x.z)
        + word_bytes(m.x.w) + word_bytes(m.y.x) + word_bytes(m.y.y) + word_bytes(m.y.z)
        + word_bytes(m.y.w) + word_bytes(m.z.x) + word_bytes(m.z.y) + word_bytes(m.z.z)
        + word_bytes(m.z.w) + word_bytes(m.w.x) + word_bytes(m.w.y) + word_bytes(m.w.z)
        + word_bytes(m.w.w));
}

} // verus!
