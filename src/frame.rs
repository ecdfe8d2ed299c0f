use vstd::prelude::*;

verus! {

/// The number of frames accumulated before the image is left as it is.
pub const SAMPLES: u32 = 4096;

/// The four bytes of `x`, least significant first.
pub open spec fn le_bytes(x: u32) -> Seq<u8> {
    seq![
        (x & 0xff) as u8,
        ((x >> 8u32) & 0xff) as u8,
        ((x >> 16u32) & 0xff) as u8,
        ((x >> 24u32) & 0xff) as u8,
    ]
}

/// The little-endian bytes of `words`, one word after another.
pub open spec fn words_bytes(words: Seq<u32>) -> Seq<u8>
    decreases words.len(),
{
    if words.len() == 0 {
        Seq::empty()
    } else {
        words_bytes(words.drop_last()) + le_bytes(words.last())
    }
}

fn push_le(out: &mut Vec<u8>, x: u32)
    ensures
        final(out)@ == old(out)@ + le_bytes(x),
{
    out.push((x & 0xff) as u8);
    out.push(((x >> 8u32) & 0xff) as u8);
    out.push(((x >> 16u32) & 0xff) as u8);
    out.push(((x >> 24u32) & 0xff) as u8);
    assert(final(out)@ =~= old(out)@ + le_bytes(x));
}

/// The bytes of a buffer of 32-bit words, as the graphics device reads them.
pub fn cast_slice(words: &[u32]) -> (r: Vec<u8>)
    ensures
        r@ == words_bytes(words@),
        r@.len() == 4 * words@.len(),
{
    let mut out: Vec<u8> = Vec::new();
    let mut i: usize = 0;
    while i < words.len()
        invariant
            i <= words@.len(),
            out@ == words_bytes(words@.take(i as int)),
            out@.len() == 4 * i,
        decreases words@.len() - i,
    {
        proof {
            assert(words@.take(i + 1).drop_last() =~= words@.take(i as int));
        }
        push_le(&mut out, words[i]);
        i = i + 1;
    }
    assert(words@.take(i as int) =~= words@);
    out
}

/// The per-frame parameters that every pixel invocation reads. Numbers that
/// the shaders read as single-precision floats are held as their IEEE-754
/// bit patterns.
#[derive(Clone, Copy, Debug)]
pub struct Consts {
    /// The viewport's width and height, as float bits.
    pub size: [u32; 2],
    /// The frame's random word, mixed into every pixel's seed.
    pub rand: u32,
    /// The number of samples the accumulation buffer holds once this
    /// frame has been added; the display pass divides by it.
    pub samples: u32,
    /// The float bits of zero.
    pub zero: u32,
}

/// The eight words of the uniform block: the fields in order, then padding
/// up to its alignment of sixteen bytes.
pub open spec fn consts_words(c: Consts) -> Seq<u32> {
    seq![c.size[0], c.size[1], c.rand, c.samples, c.zero, 0u32, 0u32, 0u32]
}

impl Consts {
    /// Between one and one more than the sample budget: the counter starts
    /// at one and stops once the budget is reached.
    pub open spec fn wf(&self) -> bool {
        1 <= self.samples <= SAMPLES + 1
    }

    /// The parameters of the first frame of a viewport.
    pub fn new(size: [u32; 2], rand: u32) -> (r: Consts)
        ensures
            r.wf(),
            r.size == size,
            r.rand == rand,
            r.samples == 1,
            r.zero == 0,
    {
        Consts { size, rand, samples: 1, zero: 0 }
    }

    /// A new viewport size: the accumulation starts over.
    pub fn resize(&mut self, size: [u32; 2])
        ensures
            final(self).wf(),
            final(self).size == size,
            final(self).samples == 1,
            final(self).rand == old(self).rand,
            final(self).zero == old(self).zero,
    {
        self.size = size;
        self.samples = 1;
    }

    /// Whether another frame is to be traced and added to the buffer.
    pub fn needs_sample(&self) -> (r: bool)
        ensures
            r == (self.samples <= SAMPLES),
    {
        self.samples <= SAMPLES
    }

    /// The number of frames already in the buffer.
    pub fn completed(&self) -> (r: u32)
        requires
            self.wf(),
        ensures
            r == self.samples - 1,
    {
        self.samples - 1
    }

    /// Moves on after a traced frame, with `rand` as the next frame's word.
    pub fn advance(&mut self, rand: u32)
        requires
            old(self).wf(),
            old(self).samples <= SAMPLES,
        ensures
            final(self).wf(),
            final(self).samples == old(self).samples + 1,
            final(self).rand == rand,
            final(self).size == old(self).size,
            final(self).zero == old(self).zero,
    {
        self.rand = rand;
        self.samples = self.samples + 1;
    }
}

/// The bytes of the uniform block, as the shaders read them.
pub fn cast(c: &Consts) -> (r: Vec<u8>)
    ensures
        r@ == words_bytes(consts_words(*c)),
        r@.len() == 32,
{
    let words: Vec<u32> = vec![c.size[0], c.size[1], c.rand, c.samples, c.zero, 0, 0, 0];
    assert(words@ =~= consts_words(*c));
    cast_slice(words.as_slice())
}

} // verus!
