//! The per-camera effect parameters and their GPU-visible byte layout.
use vstd::prelude::*;

verus! {

/// Number of bytes one settings record occupies in a uniform buffer, before
/// any padding to the device's offset alignment.
pub const SETTINGS_SIZE: usize = 16;

/// Identifies a camera. One camera carries at most one settings record.
#[derive(Clone, Copy, Debug, PartialEq, Eq, Structural, Hash)]
pub struct CameraId(pub u64);

/// The four little-endian bytes of a 32-bit word.
pub open spec fn word_bytes(w: u32) -> Seq<u8> {
    seq![
        (w % 256) as u8,
        ((w / 256) % 256) as u8,
        ((w / 65536) % 256) as u8,
        (w / 16777216) as u8,
    ]
}

/// The 32-bit word whose little-endian bytes are `b[at..at + 4]`.
pub open spec fn word_at(b: Seq<u8>, at: int) -> u32 {
    (b[at] + 256 * b[at + 1] + 65536 * b[at + 2] + 16777216 * b[at + 3]) as u32
}

/// Effect parameters of one camera.
///
/// Each field holds the IEEE-754 binary32 bit pattern of its parameter, so a
/// record is carried and laid out exactly, with no rounding. No range is
/// enforced: a record with parameters outside their documented ranges is laid
/// out like any other.
#[derive(Clone, Copy, Debug, PartialEq, Eq, Structural)]
pub struct PostProcessSettings {
    /// Side length of a pixel block; meant to be greater than zero.
    pub pixel_size: u32,
    /// Luminance-gradient magnitude above which a pixel counts as an edge;
    /// meant to lie in `[0, 1]`.
    pub edge_threshold: u32,
    /// Number of levels per colour channel; meant to be greater than zero.
    pub color_depth: u32,
    /// Blend factor between the untouched and the processed image; meant to
    /// lie in `[0, 1]`.
    pub effect_strength: u32,
}

impl PostProcessSettings {
    /// The record's uniform-buffer layout: the four fields in declaration
    /// order, each as four little-endian bytes, with no padding between them.
    pub open spec fn bytes(self) -> Seq<u8> {
        word_bytes(self.pixel_size) + word_bytes(self.edge_threshold) + word_bytes(
            self.color_depth,
        ) + word_bytes(self.effect_strength)
    }

    /// The record that a 16-byte layout stands for.
    pub open spec fn decode(b: Seq<u8>) -> PostProcessSettings {
        PostProcessSettings {
            pixel_size: word_at(b, 0),
            edge_threshold: word_at(b, 4),
            color_depth: word_at(b, 8),
            effect_strength: word_at(b, 12),
        }
    }

    /// A record with the given bit patterns.
    pub fn new(pixel_size: u32, edge_threshold: u32, color_depth: u32, effect_strength: u32) -> (s:
        PostProcessSettings)
        ensures
            s.pixel_size == pixel_size,
            s.edge_threshold == edge_threshold,
            s.color_depth == color_depth,
            s.effect_strength == effect_strength,
    {
        PostProcessSettings { pixel_size, edge_threshold, color_depth, effect_strength }
    }

    /// Appends the record's layout to `buf`.
    pub fn write_into(&self, buf: &mut Vec<u8>)
        ensures
            final(buf)@ == old(buf)@ + self.bytes(),
    {
        let ghost before = buf@;
        push_word(buf, self.pixel_size);
        push_word(buf, self.edge_threshold);
        push_word(buf, self.color_depth);
        push_word(buf, self.effect_strength);
        assert(buf@ == before + self.bytes());
    }

    /// The record's layout as a fresh vector of `SETTINGS_SIZE` bytes.
    pub fn to_bytes(&self) -> (out: Vec<u8>)
        ensures
            out@ == self.bytes(),
            out@.len() == SETTINGS_SIZE,
    {
        let mut out: Vec<u8> = Vec::new();
        self.write_into(&mut out);
        assert(out@ == self.bytes());
        out
    }

    /// Reads a record back from its layout: `Some` exactly when `bytes` holds
    /// `SETTINGS_SIZE` bytes.
    pub fn from_bytes(bytes: &[u8]) -> (r: Option<PostProcessSettings>)
        ensures
            r is Some <==> bytes@.len() == SETTINGS_SIZE,
            r is Some ==> r->0 == Self::decode(bytes@),
    {
        if bytes.len() != SETTINGS_SIZE {
            return None;
        }
        Some(
            PostProcessSettings {
                pixel_size: read_word(bytes, 0),
                edge_threshold: read_word(bytes, 4),
                color_depth: read_word(bytes, 8),
                effect_strength: read_word(bytes, 12),
            },
        )
    }
}

fn push_word(buf: &mut Vec<u8>, w: u32)
    ensures
        final(buf)@ == old(buf)@ + word_bytes(w),
{
    buf.push((w % 256) as u8);
    buf.push(((w / 256) % 256) as u8);
    buf.push(((w / 65536) % 256) as u8);
    buf.push((w / 16777216) as u8);
    assert(buf@ == old(buf)@ + word_bytes(w));
}

fn read_word(bytes: &[u8], at: usize) -> (w: u32)
    requires
        at + 4 <= bytes@.len(),
    ensures
        w == word_at(bytes@, at as int),
{
    let b0: u32 = bytes[at] as u32;
    let b1: u32 = bytes[at + 1] as u32;
    let b2: u32 = bytes[at + 2] as u32;
    let b3: u32 = bytes[at + 3] as u32;
    b0 + 256 * b1 + 65536 * b2 + 16777216 * b3
}

/// A word is recovered from its four bytes.
pub proof fn lemma_word_round_trip(w: u32)
    ensures
        word_bytes(w).len() == 4,
        word_at(word_bytes(w), 0) == w,
{
}

/// Four bytes are recovered from the word they encode.
pub proof fn lemma_bytes_round_trip(b: Seq<u8>, at: int)
    requires
        0 <= at,
        at + 4 <= b.len(),
    ensures
        word_bytes(word_at(b, at)) == b.subrange(at, at + 4),
{
    let b0 = b[at] as int;
    let b1 = b[at + 1] as int;
    let b2 = b[at + 2] as int;
    let b3 = b[at + 3] as int;
    let hi2 = b2 + 256 * b3;
    let hi1 = b1 + 256 * hi2;
    let x = b0 + 256 * hi1;
    assert(x == b0 + 256 * b1 + 65536 * b2 + 16777216 * b3);
    assert(word_at(b, at) == x);
    assert(x % 256 == b0 && x / 256 == hi1);
    assert(hi1 % 256 == b1 && hi1 / 256 == hi2);
    assert(hi2 % 256 == b2 && hi2 / 256 == b3);
    assert(x / 65536 == hi2);
    assert(x / 16777216 == b3);
    let w = word_bytes(word_at(b, at));
    assert(w[0] == b[at]);
    assert(w[1] == b[at + 1]);
    assert(w[2] == b[at + 2]);
    assert(w[3] == b[at + 3]);
    assert(w =~= b.subrange(at, at + 4));
}

/// Layout and decoding are inverse to each other: every record is recovered
/// from its layout, and its layout is `SETTINGS_SIZE` bytes long.
pub proof fn lemma_layout_round_trip(s: PostProcessSettings)
    ensures
        s.bytes().len() == SETTINGS_SIZE,
        PostProcessSettings::decode(s.bytes()) == s,
{
    lemma_word_round_trip(s.pixel_size);
    lemma_word_round_trip(s.edge_threshold);
    lemma_word_round_trip(s.color_depth);
    lemma_word_round_trip(s.effect_strength);
}

/// Every 16-byte layout is the layout of the record it decodes to.
pub proof fn lemma_decode_round_trip(b: Seq<u8>)
    requires
        b.len() == SETTINGS_SIZE,
    ensures
        PostProcessSettings::decode(b).bytes() == b,
{
    lemma_bytes_round_trip(b, 0);
    lemma_bytes_round_trip(b, 4);
    lemma_bytes_round_trip(b, 8);
    lemma_bytes_round_trip(b, 12);
    assert(PostProcessSettings::decode(b).bytes() =~= b);
}

} // verus!
