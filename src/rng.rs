use vstd::prelude::*;

verus! {

/// One round of the one-at-a-time hash: add a byte, then spread it.
pub open spec fn mix(h: u32, byte: u32) -> u32 {
    let a = (h + byte) as u32;
    let b = (a + (a << 10u32)) as u32;
    b ^ (b >> 6u32)
}

/// The byte of `key` at position `i`, least significant first.
pub open spec fn byte_of(key: u32, i: u32) -> u32 {
    (key >> (i * 8) as u32) & 0xff
}

/// The hash state after the first `n` bytes of `key` have been mixed in.
pub open spec fn absorb(key: u32, n: nat) -> u32
    decreases n,
{
    if n == 0 {
        0
    } else {
        mix(absorb(key, (n - 1) as nat), byte_of(key, (n - 1) as u32))
    }
}

/// The final avalanche applied after all four bytes.
pub open spec fn avalanche(h: u32) -> u32 {
    let a = (h + (h << 3u32)) as u32;
    let b = a ^ (a >> 11u32);
    (b + (b << 15u32)) as u32
}

/// Jenkins' one-at-a-time hash of the four bytes of `key`.
pub open spec fn hash_spec(key: u32) -> u32 {
    avalanche(absorb(key, 4))
}

fn mix_exec(h: u32, byte: u32) -> (r: u32)
    ensures
        r == mix(h, byte),
{
    let a = (h as u64 + byte as u64) as u32;
    let b = (a as u64 + (a << 10u32) as u64) as u32;
    b ^ (b >> 6u32)
}

/// Scrambles a pixel index into a well-spread 32-bit word.
pub fn hash(key: u32) -> (r: u32)
    ensures
        r == hash_spec(key),
{
    let mut h: u32 = 0;
    let mut i: u32 = 0;
    while i < 4
        invariant
            i <= 4,
            h == absorb(key, i as nat),
        decreases 4 - i,
    {
        let byte = (key >> (i * 8)) & 0xff;
        h = mix_exec(h, byte);
        i = i + 1;
    }
    let a = (h as u64 + (h << 3u32) as u64) as u32;
    let b = a ^ (a >> 11u32);
    (b as u64 + (b << 15u32) as u64) as u32
}

/// The row-major index of pixel (`x`, `y`) in a viewport `width` pixels wide.
pub fn pixel_index(x: u32, y: u32, width: u32) -> (r: u32)
    requires
        x < width,
        y * width + x <= u32::MAX,
    ensures
        r == y * width + x,
{
    proof {
        assert(0 <= y * width <= y * width + x) by (nonlinear_arith)
            requires
                x < width,
        ;
    }
    y * width + x
}

/// Two different pixels of one viewport have different indices.
pub proof fn lemma_pixel_index_injective(x1: u32, y1: u32, x2: u32, y2: u32, width: u32)
    requires
        x1 < width,
        x2 < width,
        x1 != x2 || y1 != y2,
    ensures
        y1 * width + x1 != y2 * width + x2,
{
    if y1 == y2 {
    } else if y1 < y2 {
        assert(y1 * width + x1 < y2 * width + x2) by (nonlinear_arith)
            requires
                y1 < y2,
                x1 < width,
        ;
    } else {
        assert(y2 * width + x2 < y1 * width + x1) by (nonlinear_arith)
            requires
                y2 < y1,
                x2 < width,
        ;
    }
}

/// The hash written out round by round.
spec fn hash_rounds(key: u32) -> u32 {
    let h1 = mix(0, key & 0xff);
    let h2 = mix(h1, (key >> 8u32) & 0xff);
    let h3 = mix(h2, (key >> 16u32) & 0xff);
    let h4 = mix(h3, (key >> 24u32) & 0xff);
    avalanche(h4)
}

proof fn lemma_hash_rounds(key: u32)
    ensures
        hash_spec(key) == hash_rounds(key),
{
    reveal_with_fuel(absorb, 5);
    assert(byte_of(key, 0) == key & 0xff) by (bit_vector);
}

/// The spreading step of a round, `h + (h << 10)` then `^ (h >> 6)`.
spec fn spread(a: u32) -> u32 {
    let b = (a + (a << 10u32)) as u32;
    b ^ (b >> 6u32)
}

proof fn lemma_spread_injective(a1: u32, a2: u32)
    requires
        spread(a1) == spread(a2),
    ensures
        a1 == a2,
{
    let b1 = (a1 + (a1 << 10u32)) as u32;
    let b2 = (a2 + (a2 << 10u32)) as u32;
    assert(b1 ^ (b1 >> 6u32) == b2 ^ (b2 >> 6u32) ==> b1 == b2) by (bit_vector);
    assert((a1 + (a1 << 10u32)) as u32 == (a2 + (a2 << 10u32)) as u32 ==> a1 == a2)
        by (bit_vector);
}

proof fn lemma_mix_is_spread(h: u32, byte: u32)
    ensures
        mix(h, byte) == spread((h + byte) as u32),
{
}

proof fn lemma_avalanche_injective(h1: u32, h2: u32)
    requires
        avalanche(h1) == avalanche(h2),
    ensures
        h1 == h2,
{
    let a1 = (h1 + (h1 << 3u32)) as u32;
    let a2 = (h2 + (h2 << 3u32)) as u32;
    let b1 = a1 ^ (a1 >> 11u32);
    let b2 = a2 ^ (a2 >> 11u32);
    assert((b1 + (b1 << 15u32)) as u32 == (b2 + (b2 << 15u32)) as u32 ==> b1 == b2)
        by (bit_vector);
    assert(a1 ^ (a1 >> 11u32) == a2 ^ (a2 >> 11u32) ==> a1 == a2) by (bit_vector);
    assert((h1 + (h1 << 3u32)) as u32 == (h2 + (h2 << 3u32)) as u32 ==> h1 == h2)
        by (bit_vector);
}

proof fn lemma_two_bytes_injective(c1: u32, d1: u32, c2: u32, d2: u32)
    requires
        c1 < 0x100,
        c2 < 0x100,
        d1 < 0x40,
        d2 < 0x40,
        (spread(c1) + d1) as u32 == (spread(c2) + d2) as u32,
    ensures
        c1 == c2,
        d1 == d2,
{
    assert(c1 < 0x100 && c2 < 0x100 && d1 < 0x40 && d2 < 0x40 && ((((c1 + (c1
        << 10u32)) as u32 ^ ((c1 + (c1 << 10u32)) as u32 >> 6u32)) + d1) as u32 == (((c2
        + (c2 << 10u32)) as u32 ^ ((c2 + (c2 << 10u32)) as u32 >> 6u32)) + d2) as u32)
        ==> c1 == c2 && d1 == d2) by (bit_vector);
}

proof fn lemma_rounds_injective(k1: u32, k2: u32)
    requires
        k1 < 0x4000,
        k2 < 0x4000,
        k1 != k2,
    ensures
        hash_rounds(k1) != hash_rounds(k2),
{
    let c1 = k1 & 0xff;
    let c2 = k2 & 0xff;
    let d1 = (k1 >> 8u32) & 0xff;
    let d2 = (k2 >> 8u32) & 0xff;
    assert(k1 < 0x4000 ==> (k1 >> 8u32) & 0xff < 0x40 && (k1 >> 16u32) & 0xff == 0 && (k1 >> 24u32) & 0xff
        == 0) by (bit_vector);
    assert(k2 < 0x4000 ==> (k2 >> 8u32) & 0xff < 0x40 && (k2 >> 16u32) & 0xff == 0 && (k2 >> 24u32) & 0xff
        == 0) by (bit_vector);
    assert(k1 < 0x4000 && k2 < 0x4000 && k1 & 0xff == k2 & 0xff && (k1 >> 8u32) & 0xff == (k2
        >> 8u32) & 0xff ==> k1 == k2) by (bit_vector);
    assert(k1 & 0xff < 0x100 && k2 & 0xff < 0x100) by (bit_vector);
    if hash_rounds(k1) == hash_rounds(k2) {
        let h1 = mix(0, c1);
        let h2 = mix(0, c2);
        let g1 = mix(h1, d1);
        let g2 = mix(h2, d2);
        let f1 = mix(g1, 0);
        let f2 = mix(g2, 0);
        lemma_avalanche_injective(mix(f1, 0), mix(f2, 0));
        lemma_mix_is_spread(f1, 0);
        lemma_mix_is_spread(f2, 0);
        assert((f1 + 0u32) as u32 == f1) by (bit_vector);
        assert((f2 + 0u32) as u32 == f2) by (bit_vector);
        lemma_spread_injective(f1, f2);
        lemma_mix_is_spread(g1, 0);
        lemma_mix_is_spread(g2, 0);
        assert((g1 + 0u32) as u32 == g1) by (bit_vector);
        assert((g2 + 0u32) as u32 == g2) by (bit_vector);
        lemma_spread_injective(g1, g2);
        lemma_mix_is_spread(h1, d1);
        lemma_mix_is_spread(h2, d2);
        let e1 = (#[verifier::truncate] ((h1 + d1) as u32));
        let e2 = (#[verifier::truncate] ((h2 + d2) as u32));
        lemma_spread_injective(e1, e2);
        lemma_mix_is_spread(0, c1);
        lemma_mix_is_spread(0, c2);
        assert((0u32 + c1) as u32 == c1) by (bit_vector);
        assert((0u32 + c2) as u32 == c2) by (bit_vector);
        lemma_two_bytes_injective(c1, d1, c2, d2);
    }
}

/// The hash tells apart every two keys below 2^14, so the first 16384
/// pixels of a frame start from different seeds.
pub proof fn lemma_hash_injective_below(k1: u32, k2: u32)
    requires
        k1 < 0x4000,
        k2 < 0x4000,
        k1 != k2,
    ensures
        hash_spec(k1) != hash_spec(k2),
{
    lemma_hash_rounds(k1);
    lemma_hash_rounds(k2);
    lemma_rounds_injective(k1, k2);
}

/// The multiplier of the generator's linear congruential step.
pub const MULTIPLIER: u32 = 0xadb4a92d;

/// The state that follows `s`: `s * MULTIPLIER + 1` modulo 2^32.
pub open spec fn next_state(s: u32) -> u32 {
    (((s * MULTIPLIER) as u32) + 1) as u32
}

/// The word drawn from a fresh state: its top 23 bits as the mantissa of
/// an IEEE-754 single whose sign is 0 and whose exponent is 128, that is a
/// number in [2, 4).
pub open spec fn draw_of(s: u32) -> u32 {
    (s >> 9u32) | 0x4000_0000
}

/// The state after `n` draws from `seed`.
pub open spec fn state_after(seed: u32, n: nat) -> u32
    decreases n,
{
    if n == 0 {
        seed
    } else {
        next_state(state_after(seed, (n - 1) as nat))
    }
}

/// The first `n` words drawn from `seed`, in order.
pub open spec fn draws(seed: u32, n: nat) -> Seq<u32>
    decreases n,
{
    if n == 0 {
        Seq::empty()
    } else {
        draws(seed, (n - 1) as nat).push(draw_of(state_after(seed, n)))
    }
}

/// A stream depends on its seed alone, not on how its draws are batched:
/// drawing `n` words and then `m` more from where the stream stopped gives
/// exactly the first `n + m` words drawn from the seed.
pub proof fn lemma_stream_reproducible(seed: u32, n: nat, m: nat)
    ensures
        state_after(seed, n + m) == state_after(state_after(seed, n), m),
        draws(seed, n + m) == draws(seed, n) + draws(state_after(seed, n), m),
    decreases m,
{
    if m > 0 {
        lemma_stream_reproducible(seed, n, (m - 1) as nat);
        assert((n + m - 1) as nat == n + (m - 1) as nat);
        assert(draws(seed, n + m) =~= draws(seed, n) + draws(state_after(seed, n), m));
    } else {
        assert(draws(seed, n + m) =~= draws(seed, n) + draws(state_after(seed, n), m));
    }
}

/// The generator step loses nothing: different states have different
/// successors.
pub proof fn lemma_next_state_injective(a: u32, b: u32)
    requires
        a != b,
    ensures
        next_state(a) != next_state(b),
{
    assert(a != b ==> (((a * 0xadb4a92du32) as u32) + 1) as u32 != (((b * 0xadb4a92du32)
        as u32) + 1) as u32) by (bit_vector);
}

/// Different states stay different however many draws follow.
pub proof fn lemma_states_stay_apart(a: u32, b: u32, n: nat)
    requires
        a != b,
    ensures
        state_after(a, n) != state_after(b, n),
    decreases n,
{
    if n > 0 {
        lemma_states_stay_apart(a, b, (n - 1) as nat);
        lemma_next_state_injective(state_after(a, (n - 1) as nat), state_after(b, (n - 1) as nat));
    }
}

/// Among the first 16384 pixels of a frame, two different pixels get
/// different seeds, and their generators never pass through the same state
/// at the same draw, so no two of their streams coincide.
pub proof fn lemma_pixel_streams_distinct(
    frame_rand: u32,
    x1: u32,
    y1: u32,
    x2: u32,
    y2: u32,
    width: u32,
    n: nat,
)
    requires
        x1 < width,
        x2 < width,
        x1 != x2 || y1 != y2,
        y1 * width + x1 < 0x4000,
        y2 * width + x2 < 0x4000,
    ensures
        frame_rand ^ hash_spec((y1 * width + x1) as u32) != frame_rand ^ hash_spec(
            (y2 * width + x2) as u32,
        ),
        state_after(frame_rand ^ hash_spec((y1 * width + x1) as u32), n) != state_after(
            frame_rand ^ hash_spec((y2 * width + x2) as u32),
            n,
        ),
{
    lemma_pixel_index_injective(x1, y1, x2, y2, width);
    let k1 = (y1 * width + x1) as u32;
    let k2 = (y2 * width + x2) as u32;
    lemma_hash_injective_below(k1, k2);
    let h1 = hash_spec(k1);
    let h2 = hash_spec(k2);
    assert(h1 != h2 ==> frame_rand ^ h1 != frame_rand ^ h2) by (bit_vector);
    lemma_states_stay_apart(frame_rand ^ h1, frame_rand ^ h2, n);
}

/// A random stream owned by one pixel invocation; its whole state is one
/// word, threaded through every draw.
pub struct Rng {
    pub state: u32,
}

impl Rng {
    /// A stream that starts from `seed`.
    pub fn new(seed: u32) -> (r: Rng)
        ensures
            r.state == seed,
    {
        Rng { state: seed }
    }

    /// The stream of one pixel: the frame's random word mixed with the hash
    /// of the pixel's index, so that neighbouring pixels and successive
    /// frames get unrelated streams.
    pub fn for_pixel(frame_rand: u32, index: u32) -> (r: Rng)
        ensures
            r.state == frame_rand ^ hash_spec(index),
    {
        Rng { state: frame_rand ^ hash(index) }
    }

    /// Advances the state and returns the bits of a single-precision number
    /// in [2, 4); subtracting 3 gives a uniform draw in [-1, 1).
    pub fn gen_bits(&mut self) -> (r: u32)
        ensures
            final(self).state == next_state(old(self).state),
            final(self).state == state_after(old(self).state, 1),
            r == draw_of(final(self).state),
            draws(old(self).state, 1) == seq![r],
            r >> 23u32 == 0x80,
    {
        let s = ((self.state as u64 * MULTIPLIER as u64) as u32 as u64 + 1) as u32;
        self.state = s;
        let r = (s >> 9u32) | 0x4000_0000;
        proof {
            assert(((s >> 9u32) | 0x4000_0000u32) >> 23u32 == 0x80u32) by (bit_vector);
            reveal_with_fuel(state_after, 2);
            reveal_with_fuel(draws, 2);
            assert(draws(old(self).state, 1) =~= seq![r]);
        }
        r
    }
}

} // verus!
