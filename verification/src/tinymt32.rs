//! The narrow engine: four 32-bit state words, 32-bit output.

use vstd::prelude::*;
use vstd::wrapping::u32_specs;
use crate::{State32, TinyMT32};

verus! {

pub const TINYMT32_MEXP: usize = 127;
pub const TINYMT32_SH0: u32 = 1;
pub const TINYMT32_SH1: u32 = 10;
pub const TINYMT32_SH8: u32 = 8;
pub const TINYMT32_MASK: u32 = 0x7fff_ffff_u32;
pub const MIN_LOOP: usize = 8;
pub const PRE_LOOP: usize = 8;

impl TinyMT32 {
    /// A generator with the given state words and parameters, taken as they
    /// are: nothing is mixed or certified.
    pub fn new(status: [u32; 4], mat1: u32, mat2: u32, tmat: u32) -> (r: TinyMT32)
        ensures
            r@ == (State32 { status: status@, mat1, mat2, tmat }),
    {
        TinyMT32 { status, mat1, mat2, tmat }
    }
}

/// All ones when `bit` is one, all zeros otherwise.
pub open spec fn spec_bit_to_mask(bit: u32) -> u32 {
    if bit == 1 { 0xffff_ffffu32 } else { 0u32 }
}

/// Turns a single bit into an all-ones or all-zeros word without branching:
/// the bit is negated as a signed value and read back as unsigned.
fn bit_to_mask(bit: u32) -> (m: u32)
    requires
        bit <= 1,
    ensures
        m == spec_bit_to_mask(bit),
{
    let b: i32 = bit as i32;
    let n: i32 = -b;
    assert(bit <= 1 && b == bit as i32 && n == -b ==> (n as u32) == spec_bit_to_mask(bit))
        by (bit_vector);
    #[verifier::truncate] (n as u32)
}

/// First multiplicative mixing function of the array initializer.
pub open spec fn spec_ini_func1(x: u32) -> u32 {
    u32_specs::wrapping_mul(x ^ (x >> 27), 1_664_525u32)
}

/// Second multiplicative mixing function of the array initializer.
pub open spec fn spec_ini_func2(x: u32) -> u32 {
    u32_specs::wrapping_mul(x ^ (x >> 27), 1_566_083_941u32)
}

fn ini_func1(x: u32) -> (r: u32)
    ensures
        r == spec_ini_func1(x),
{
    (x ^ (x >> 27)).wrapping_mul(1_664_525_u32)
}

fn ini_func2(x: u32) -> (r: u32)
    ensures
        r == spec_ini_func2(x),
{
    (x ^ (x >> 27)).wrapping_mul(1_566_083_941_u32)
}

/// The state that must never be used: every one of the 127 state bits is
/// zero (the top bit of the first word does not belong to the state).
pub open spec fn spec_degenerate(status: Seq<u32>) -> bool {
    status[0] & TINYMT32_MASK == 0 && status[1] == 0 && status[2] == 0 && status[3] == 0
}

/// A four-word state that is not degenerate.
pub open spec fn spec_certified(g: State32) -> bool {
    g.status.len() == 4 && !spec_degenerate(g.status)
}

/// Replaces a degenerate state by the marker words `T`, `I`, `N`, `Y`.
pub open spec fn spec_period_certification(g: State32) -> State32 {
    if spec_degenerate(g.status) {
        State32 { status: seq!['T' as u32, 'I' as u32, 'N' as u32, 'Y' as u32], ..g }
    } else {
        g
    }
}

fn period_certification(random: &mut TinyMT32)
    ensures
        final(random)@ == spec_period_certification(old(random)@),
        spec_certified(final(random)@),
{
    if random.status[0] & TINYMT32_MASK == 0 && random.status[1] == 0 && random.status[2] == 0
        && random.status[3] == 0 {
        random.status[0] = 'T' as u32;
        random.status[1] = 'I' as u32;
        random.status[2] = 'N' as u32;
        random.status[3] = 'Y' as u32;
        assert(random@.status =~= spec_period_certification(old(random)@).status);
        assert(0x54u32 & 0x7fff_ffffu32 != 0) by (bit_vector);
    }
}

/// One transition of the recurrence.
pub open spec fn spec_next_state(g: State32) -> State32 {
    let s = g.status;
    let x0 = (s[0] & TINYMT32_MASK) ^ s[1] ^ s[2];
    let x = x0 ^ (x0 << TINYMT32_SH0);
    let y = s[3] ^ ((s[3] >> TINYMT32_SH0) ^ x);
    let m = spec_bit_to_mask(y & 1);
    State32 {
        status: seq![s[1], s[2] ^ (m & g.mat1), x ^ (y << TINYMT32_SH1) ^ (m & g.mat2), y],
        ..g
    }
}

/// `n` transitions in a row.
pub open spec fn spec_advance(g: State32, n: nat) -> State32
    decreases n,
{
    if n == 0 {
        g
    } else {
        spec_next_state(spec_advance(g, (n - 1) as nat))
    }
}

/// The output word read from a state.
pub open spec fn spec_temper(g: State32) -> u32 {
    let s = g.status;
    let t1 = u32_specs::wrapping_add(s[0], s[2] >> TINYMT32_SH8);
    let t0 = s[3] ^ t1;
    t0 ^ (spec_bit_to_mask(t1 & 1) & g.tmat)
}

/// The `k`-th word that a generator in state `g` hands out, counted from zero.
pub open spec fn spec_output(g: State32, k: nat) -> u32 {
    spec_temper(spec_advance(g, k + 1))
}

/// Advances the generator by exactly one step.
pub fn tinymt32_next_state(random: &mut TinyMT32)
    ensures
        final(random)@ == spec_next_state(old(random)@),
        spec_certified(old(random)@) ==> spec_certified(final(random)@),
{
    let mut y: u32 = random.status[3];
    let mut x: u32 = (random.status[0] & TINYMT32_MASK) ^ random.status[1] ^ random.status[2];
    x ^= x << TINYMT32_SH0;
    y ^= (y >> TINYMT32_SH0) ^ x;
    random.status[0] = random.status[1];
    random.status[1] = random.status[2];
    random.status[2] = x ^ (y << TINYMT32_SH1);
    random.status[3] = y;
    assert(y & 1 <= 1) by (bit_vector);
    let m: u32 = bit_to_mask(y & 1);
    random.status[1] ^= m & random.mat1;
    random.status[2] ^= m & random.mat2;
    proof {
        assert(random@.status =~= spec_next_state(old(random)@).status);
        if spec_certified(old(random)@) {
            lemma_next_state_keeps_certified(old(random)@);
        }
    }
}

/// The transition on plain words: if the new state is degenerate, the old
/// one was.
proof fn lemma_step_words(s0: u32, s1: u32, s2: u32, s3: u32, mat1: u32, mat2: u32)
    by (bit_vector)
    ensures
        ({
            let x0 = (s0 & 0x7fff_ffffu32) ^ s1 ^ s2;
            let x = x0 ^ (x0 << 1u32);
            let y = s3 ^ ((s3 >> 1u32) ^ x);
            let m = if y & 1 == 1 { 0xffff_ffffu32 } else { 0u32 };
            let n0 = s1;
            let n1 = s2 ^ (m & mat1);
            let n2 = x ^ (y << 10u32) ^ (m & mat2);
            let n3 = y;
            (n0 & 0x7fff_ffffu32 == 0 && n1 == 0 && n2 == 0 && n3 == 0) ==> (s0 & 0x7fff_ffffu32
                == 0 && s1 == 0 && s2 == 0 && s3 == 0)
        }),
{
}

/// A certified state is not the all-zero vector.
pub proof fn lemma_certified_not_all_zero(g: State32)
    requires
        spec_certified(g),
    ensures
        g.status != seq![0u32, 0u32, 0u32, 0u32],
{
    assert(0u32 & 0x7fff_ffffu32 == 0) by (bit_vector);
}

/// A transition never leads from a certified state to the degenerate one.
pub proof fn lemma_next_state_keeps_certified(g: State32)
    requires
        spec_certified(g),
    ensures
        spec_certified(spec_next_state(g)),
{
    lemma_step_words(g.status[0], g.status[1], g.status[2], g.status[3], g.mat1, g.mat2);
}

/// Any number of transitions leaves a certified state certified.
pub proof fn lemma_advance_keeps_certified(g: State32, n: nat)
    requires
        spec_certified(g),
    ensures
        spec_certified(spec_advance(g, n)),
    decreases n,
{
    if n > 0 {
        lemma_advance_keeps_certified(g, (n - 1) as nat);
        lemma_next_state_keeps_certified(spec_advance(g, (n - 1) as nat));
    }
}

/// Round `i` of the scalar initializer: a multiplicative hash of the previous
/// word and the round number is folded into word `i mod 4`.
pub open spec fn spec_init_round(s: Seq<u32>, i: int) -> Seq<u32> {
    let prev = s[(i - 1) % 4];
    s.update(
        i % 4,
        s[i % 4] ^ u32_specs::wrapping_add(
            i as u32,
            u32_specs::wrapping_mul(1_812_433_253u32, prev ^ (prev >> 30)),
        ),
    )
}

/// Rounds `1` to `n` of the scalar initializer, in that order.
pub open spec fn spec_init_rounds(s: Seq<u32>, n: nat) -> Seq<u32>
    decreases n,
{
    if n == 0 {
        s
    } else {
        spec_init_round(spec_init_rounds(s, (n - 1) as nat), n as int)
    }
}

/// The generator that the scalar initializer builds from a seed: the seed and
/// the parameters are mixed for seven rounds, the period is certified, and
/// eight transitions are discarded.
pub open spec fn spec_init(mat1: u32, mat2: u32, tmat: u32, seed: u32) -> State32 {
    let mixed = spec_init_rounds(seq![seed, mat1, mat2, tmat], (MIN_LOOP - 1) as nat);
    spec_advance(
        spec_period_certification(State32 { status: mixed, mat1, mat2, tmat }),
        PRE_LOOP as nat,
    )
}

/// Initializes the state from a 32-bit seed; the parameters stay as they are.
pub fn tinymt32_init(random: &mut TinyMT32, seed: u32)
    ensures
        final(random)@ == spec_init(
            old(random)@.mat1,
            old(random)@.mat2,
            old(random)@.tmat,
            seed,
        ),
        spec_certified(final(random)@),
{
    let ghost start = seq![seed, random.mat1, random.mat2, random.tmat];
    let ghost g0 = random@;
    random.status[0] = seed;
    random.status[1] = random.mat1;
    random.status[2] = random.mat2;
    random.status[3] = random.tmat;
    assert(random@.status =~= start);
    for i in 1..MIN_LOOP
        invariant
            random@.status == spec_init_rounds(start, (i - 1) as nat),
            random@.mat1 == g0.mat1,
            random@.mat2 == g0.mat2,
            random@.tmat == g0.tmat,
    {
        assert(i & 3 == i % 4 && (i - 1) as usize & 3 == (i - 1) as usize % 4 && i & 3 < 4 && ((i
            - 1) as usize) & 3 < 4) by (bit_vector)
            requires
                1 <= i < 8,
        ;
        let ghost before = random@.status;
        let prev: u32 = random.status[(i - 1) & 3];
        random.status[i & 3] ^= (i as u32).wrapping_add(
            1_812_433_253_u32.wrapping_mul(prev ^ (prev >> 30)),
        );
        assert(random@.status =~= spec_init_round(before, i as int));
    }
    period_certification(random);
    let ghost certified = random@;
    for k in 0..PRE_LOOP
        invariant
            random@ == spec_advance(certified, k as nat),
            spec_certified(random@),
    {
        tinymt32_next_state(random);
    }
}

/// One step of the first pass of the array initializer at ring position `i`
/// (from 0 to 3): the hash of three neighbouring words is added to the next word, `extra` is
/// added to the hash, the sum is added to the word after that and replaces
/// word `i`.
#[verifier::opaque]
pub open spec fn spec_mix1(st: Seq<u32>, i: int, extra: u32) -> Seq<u32> {
    let r0 = spec_ini_func1(st[i] ^ st[(i + 1) % 4] ^ st[(i + 3) % 4]);
    let st1 = st.update((i + 1) % 4, u32_specs::wrapping_add(st[(i + 1) % 4], r0));
    let r = u32_specs::wrapping_add(r0, extra);
    let st2 = st1.update((i + 2) % 4, u32_specs::wrapping_add(st1[(i + 2) % 4], r));
    st2.update(i, r)
}

/// One step of the closing pass of the array initializer at ring position
/// `i` (from 0 to 3): as the first pass, with sums for the hash's argument, XOR in place of
/// the additions, and the position subtracted from the hash.
#[verifier::opaque]
pub open spec fn spec_mix2(st: Seq<u32>, i: int) -> Seq<u32> {
    let r0 = spec_ini_func2(
        u32_specs::wrapping_add(
            u32_specs::wrapping_add(st[i], st[(i + 1) % 4]),
            st[(i + 3) % 4],
        ),
    );
    let st1 = st.update((i + 1) % 4, st[(i + 1) % 4] ^ r0);
    let r = u32_specs::wrapping_sub(r0, i as u32);
    let st2 = st1.update((i + 2) % 4, st1[(i + 2) % 4] ^ r);
    st2.update(i, r)
}

/// Runs one step of the first pass on the working buffer.
fn mix1(st: &mut [u32; 4], i: usize, extra: u32)
    requires
        i < 4,
    ensures
        final(st)@ == spec_mix1(old(st)@, i as int, extra),
{
    let lag: usize = 1;
    let mid: usize = 1;
    let size: usize = 4;
    let mut r: u32 = ini_func1(st[i % size] ^ st[(i + mid) % size] ^ st[(i + size - 1) % size]);
    st[(i + mid) % size] = st[(i + mid) % size].wrapping_add(r);
    r = r.wrapping_add(extra);
    st[(i + mid + lag) % size] = st[(i + mid + lag) % size].wrapping_add(r);
    st[i % size] = r;
    proof {
        reveal(spec_mix1);
    }
    assert(st@ =~= spec_mix1(old(st)@, i as int, extra));
}

/// Runs one step of the closing pass on the working buffer.
fn mix2(st: &mut [u32; 4], i: usize)
    requires
        i < 4,
    ensures
        final(st)@ == spec_mix2(old(st)@, i as int),
{
    let lag: usize = 1;
    let mid: usize = 1;
    let size: usize = 4;
    let mut r: u32 = ini_func2(
        st[i % size].wrapping_add(st[(i + mid) % size]).wrapping_add(st[(i + size - 1) % size]),
    );
    st[(i + mid) % size] ^= r;
    r = r.wrapping_sub(i as u32);
    st[(i + mid + lag) % size] ^= r;
    st[i % size] = r;
    proof {
        reveal(spec_mix2);
    }
    assert(st@ =~= spec_mix2(old(st)@, i as int));
}

/// What step `j` of the first pass folds in: the ring position, and before
/// it the `j`-th key word while there is one.
pub open spec fn spec_key_material(key: Seq<u32>, j: int) -> u32 {
    let i = ((j + 1) % 4) as u32;
    if j < key.len() {
        u32_specs::wrapping_add(key[j], i)
    } else {
        i
    }
}

/// The working buffer after the first `n` steps of the first pass, which
/// starts at ring position 1.
pub open spec fn spec_array_pass1(st: Seq<u32>, key: Seq<u32>, n: nat) -> Seq<u32>
    decreases n,
{
    if n == 0 {
        st
    } else {
        spec_mix1(spec_array_pass1(st, key, (n - 1) as nat), n as int % 4, spec_key_material(key, n - 1))
    }
}

/// The working buffer after the first `n` steps of the closing pass, which
/// starts at ring position `first mod 4`.
pub open spec fn spec_array_pass2(st: Seq<u32>, first: int, n: nat) -> Seq<u32>
    decreases n,
{
    if n == 0 {
        st
    } else {
        spec_mix2(spec_array_pass2(st, first, (n - 1) as nat), (first + n - 1) % 4)
    }
}

/// Number of steps of the first pass after the opening one: one for each key
/// word, and at least seven.
pub open spec fn spec_array_count(key_length: nat) -> nat {
    if key_length >= MIN_LOOP {
        key_length
    } else {
        (MIN_LOOP - 1) as nat
    }
}

/// The generator that the array initializer builds from a key of any length;
/// the length itself is folded in modulo 2^32.
pub open spec fn spec_init_by_array(mat1: u32, mat2: u32, tmat: u32, key: Seq<u32>) -> State32 {
    let count = spec_array_count(key.len());
    let opened = spec_mix1(seq![0u32, mat1, mat2, tmat], 0, key.len() as u32);
    let folded = spec_array_pass1(opened, key, count);
    let closed = spec_array_pass2(folded, (count + 1) as int, 4);
    spec_advance(
        spec_period_certification(State32 { status: closed, mat1, mat2, tmat }),
        PRE_LOOP as nat,
    )
}

/// Initializes the state from an array of 32-bit seeds of any length; the
/// parameters stay as they are.
pub fn tinymt32_init_by_array(random: &mut TinyMT32, init_key: &[u32])
    ensures
        final(random)@ == spec_init_by_array(
            old(random)@.mat1,
            old(random)@.mat2,
            old(random)@.tmat,
            init_key@,
        ),
        spec_certified(final(random)@),
{
    let key_length: usize = init_key.len();
    let size: usize = 4;
    let ghost g0 = random@;
    let ghost key = init_key@;

    let mut st: [u32; 4] = [0, random.mat1, random.mat2, random.tmat];
    assert(st@ =~= seq![0u32, g0.mat1, g0.mat2, g0.tmat]);
    let count: usize = if key_length >= MIN_LOOP {
        key_length
    } else {
        MIN_LOOP - 1
    };
    mix1(&mut st, 0, #[verifier::truncate] (key_length as u32));
    let ghost opened = st@;
    let mut i: usize = 1;
    let boundary: usize = if count < key_length {
        count
    } else {
        key_length
    };
    for j in 0..boundary
        invariant
            boundary == key_length,
            key_length == key.len(),
            init_key@ == key,
            size == 4,
            i == (j + 1) % 4,
            st@ == spec_array_pass1(opened, key, j as nat),
    {
        mix1(&mut st, i, init_key[j].wrapping_add(i as u32));
        i = (i + 1) % size;
    }
    for j in boundary..count
        invariant
            boundary == key_length,
            key_length == key.len(),
            size == 4,
            i == (j + 1) % 4,
            st@ == spec_array_pass1(opened, key, j as nat),
    {
        mix1(&mut st, i, i as u32);
        i = (i + 1) % size;
    }
    let ghost folded = st@;
    for j in 0..size
        invariant
            size == 4,
            i == (count + 1 + j) % 4,
            st@ == spec_array_pass2(folded, count + 1, j as nat),
    {
        mix2(&mut st, i);
        i = (i + 1) % size;
    }
    random.status = st;
    period_certification(random);
    let ghost certified = random@;
    for k in 0..PRE_LOOP
        invariant
            random@ == spec_advance(certified, k as nat),
            spec_certified(random@),
    {
        tinymt32_next_state(random);
    }
}

/// Reads the output word from the state, which it leaves as it is.
pub fn tinymt32_temper(random: &mut TinyMT32) -> (r: u32)
    ensures
        r == spec_temper(old(random)@),
        *final(random) == *old(random),
{
    let mut t0: u32 = random.status[3];
    let t1: u32 = random.status[0].wrapping_add(random.status[2] >> TINYMT32_SH8);
    t0 ^= t1;
    assert(t1 & 1 <= 1) by (bit_vector);
    t0 ^ (bit_to_mask(t1 & 1) & random.tmat)
}

/// The bit pattern of the IEEE-754 single in [1, 2) that a state stands for:
/// the upper 23 bits of the output word as the mantissa, under a zero
/// sign and the exponent of one.
pub open spec fn spec_temper_conv(g: State32) -> u32 {
    (spec_temper(g) >> 9) | 0x3f80_0000u32
}

/// As `spec_temper_conv`, with the lowest mantissa bit set, which keeps the
/// number above one.
pub open spec fn spec_temper_conv_open(g: State32) -> u32 {
    (spec_temper(g) >> 9) | 0x3f80_0001u32
}

/// The upper 24 bits of the output word: the numerator of a fraction
/// over 2^24 in [0, 1).
pub open spec fn spec_temper_fraction(g: State32) -> u32 {
    spec_temper(g) >> 8
}

/// The bits of a single in [1, 2), read from the state: sign zero, the
/// exponent of one, and the upper bits of the output word as the mantissa.
pub fn tinymt32_temper_conv_bits(random: &mut TinyMT32) -> (r: u32)
    ensures
        r == spec_temper_conv(old(random)@),
        0x3f80_0000 <= r < 0x4000_0000,
        r >> 23 == 0x7f,
        *final(random) == *old(random),
{
    let t: u32 = tinymt32_temper(random);
    assert(((t >> 9) | 0x3f80_0000u32) >> 23 == 0x7f) by (bit_vector);
    assert(0x3f80_0000 <= ((t >> 9) | 0x3f80_0000u32) < 0x4000_0000) by (bit_vector);
    (t >> 9) | 0x3f80_0000u32
}

/// The bits of a single in (1, 2), read from the state: as
/// `tinymt32_temper_conv_bits`, with the lowest mantissa bit set.
pub fn tinymt32_temper_conv_open_bits(random: &mut TinyMT32) -> (r: u32)
    ensures
        r == spec_temper_conv_open(old(random)@),
        0x3f80_0000 < r < 0x4000_0000,
        r >> 23 == 0x7f,
        r & 1 == 1,
        *final(random) == *old(random),
{
    let t: u32 = tinymt32_temper(random);
    assert(((t >> 9) | 0x3f80_0001u32) >> 23 == 0x7f) by (bit_vector);
    assert(((t >> 9) | 0x3f80_0001u32) & 1 == 1) by (bit_vector);
    assert(0x3f80_0000 < ((t >> 9) | 0x3f80_0001u32) < 0x4000_0000) by (bit_vector);
    (t >> 9) | 0x3f80_0001u32
}

/// The numerator, below 2^24, of the fraction over 2^24 that the state
/// stands for.
pub fn tinymt32_temper_fraction(random: &mut TinyMT32) -> (r: u32)
    ensures
        r == spec_temper_fraction(old(random)@),
        r < 0x100_0000,
        *final(random) == *old(random),
{
    let t: u32 = tinymt32_temper(random);
    assert(t >> 8 < 0x100_0000) by (bit_vector);
    t >> 8
}

/// Stepping first and then `n` times is stepping `n + 1` times.
pub proof fn lemma_advance_after_step(g: State32, n: nat)
    ensures
        spec_advance(spec_next_state(g), n) == spec_advance(g, n + 1),
    decreases n,
{
    reveal_with_fuel(spec_advance, 2);
    if n > 0 {
        lemma_advance_after_step(g, (n - 1) as nat);
    }
}

/// Drawing from a generator after one step gives the words that follow the
/// first: output `k` of the stepped state is output `k + 1` of the state.
pub proof fn lemma_output_after_step(g: State32, k: nat)
    ensures
        spec_output(spec_next_state(g), k) == spec_output(g, k + 1),
{
    lemma_advance_after_step(g, k + 1);
}

/// Two generators with the same state words and parameters, such as two
/// that were built from the same seed with the same parameters, or a
/// generator and its copy, hand out the same words and pass through the same
/// states, however many words are drawn.
pub proof fn lemma_equal_generators_equal_outputs(a: TinyMT32, b: TinyMT32, k: nat)
    requires
        a@ == b@,
    ensures
        spec_output(a@, k) == spec_output(b@, k),
        spec_advance(a@, k) == spec_advance(b@, k),
{
}

/// One step, then the output word of the new state.
pub fn tinymt32_generate_uint32(random: &mut TinyMT32) -> (r: u32)
    ensures
        final(random)@ == spec_next_state(old(random)@),
        r == spec_temper(spec_next_state(old(random)@)),
        r == spec_output(old(random)@, 0),
        spec_certified(old(random)@) ==> spec_certified(final(random)@),
{
    tinymt32_next_state(random);
    proof {
        reveal_with_fuel(spec_advance, 2);
    }
    tinymt32_temper(random)
}

/// The Mersenne exponent of the period, 2^127 - 1.
pub fn tinymt32_get_mexp(_random: &TinyMT32) -> (r: usize)
    ensures
        r == 127,
{
    TINYMT32_MEXP
}

} // verus!
